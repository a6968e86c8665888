//! In-process config reload.
//!
//! Restarting the daemon to pick up a config change destroys the uinput
//! keyboard, and anything holding that node open sees the device disappear.
//! KOReader reacts to that by rebuilding its UI, which throws the user out of
//! whatever menu they were editing the mapping from. So a signal has the
//! config read again in place instead, and the uinput node outlives it.

use crate::config;
use crate::config::{Config, ConfigView, DeviceConfig, DeviceView, LoadError};
use crate::outside;
use crate::outside::SectionList;
use crate::text;
use vstd::prelude::*;

verus! {

/// What the workers see of the configuration.
#[derive(Debug)]
pub struct Reload {
    /// A signal asked for a reload.
    pub requested: bool,
    /// Bumped once per applied reload. Workers compare against their own copy.
    pub generation: u64,
    /// The devices of the running configuration.
    pub devices: Vec<DeviceConfig>,
}

/// What a reload state says.
#[verifier::ext_equal]
pub struct ReloadView {
    pub requested: bool,
    pub generation: u64,
    pub devices: Seq<DeviceView>,
}

impl View for Reload {
    type V = ReloadView;

    open spec fn view(&self) -> ReloadView {
        ReloadView {
            requested: self.requested,
            generation: self.generation,
            devices: config::device_views(self.devices@),
        }
    }
}

impl Reload {
    /// Nothing published, nothing requested.
    pub fn new() -> (r: Self)
        ensures
            r@ == (ReloadView { requested: false, generation: 0, devices: seq![] }),
    {
        let r = Reload { requested: false, generation: 0, devices: Vec::new() };
        assert(config::device_views(r.devices@) =~= seq![]);
        r
    }
}

/// Notes that a signal asked for a reload.
pub fn handle_sighup(state: &mut Reload)
    ensures
        final(state)@ == old(state)@.signalled(),
{
    state.requested = true;
}

/// How many reloads have been applied, modulo the size of the counter.
pub fn generation(state: &Reload) -> (r: u64)
    ensures
        r == state@.generation,
{
    state.generation
}

/// Makes the devices of a configuration the running ones.
pub fn publish(state: &mut Reload, config: &Config)
    ensures
        final(state)@ == old(state)@.published(config@.devices),
{
    let mut devices: Vec<DeviceConfig> = Vec::new();
    let mut i: usize = 0;
    while i < config.devices.len()
        invariant
            i <= config.devices@.len(),
            config::device_views(devices@) == config@.devices.take(i as int),
        decreases config.devices@.len() - i,
    {
        let ghost before = devices@;
        let dev: DeviceConfig = config.devices[i].clone();
        devices.push(dev);
        assert(config::device_views(devices@) =~= config::device_views(before).push(dev@));
        assert(config@.devices.take(i + 1) =~= config@.devices.take(i as int).push(dev@));
        i += 1;
    }
    assert(config@.devices.take(i as int) =~= config@.devices);
    state.devices = devices;
}

/// The first device of a list with an id.
pub open spec fn found(devices: Seq<DeviceView>, id: Seq<char>) -> Option<DeviceView>
    decreases devices.len(),
{
    if devices.len() == 0 {
        None
    } else if devices[0].id == id {
        Some(devices[0])
    } else {
        found(devices.skip(1), id)
    }
}

/// The device's current config, or None if it was removed from the file.
pub fn device_config(state: &Reload, id: &str) -> (r: Option<DeviceConfig>)
    ensures
        match r {
            Some(dev) => found(state@.devices, id@) == Some(dev@),
            None => found(state@.devices, id@) is None,
        },
{
    let ghost all = state@.devices;
    let mut i: usize = 0;
    assert(all.skip(0) =~= all);
    while i < state.devices.len()
        invariant
            i <= state.devices@.len(),
            all == config::device_views(state.devices@),
            found(all.skip(i as int), id@) == found(all, id@),
        decreases state.devices@.len() - i,
    {
        assert(all.skip(i as int).skip(1) =~= all.skip(i + 1));
        if text::same(state.devices[i].id.as_str(), id) {
            return Some(state.devices[i].clone());
        }
        i += 1;
    }
    None
}

/// Some device of a list has the id.
pub open spec fn known(devices: Seq<DeviceView>, id: Seq<char>) -> bool {
    exists|i: int| 0 <= i < devices.len() && (#[trigger] devices[i]).id == id
}

/// The ids of the new devices that the running configuration does not know, in
/// order.
pub open spec fn unwatched_of(running: Seq<DeviceView>, new: Seq<DeviceView>) -> Seq<Seq<char>>
    decreases new.len(),
{
    if new.len() == 0 {
        seq![]
    } else {
        let before = unwatched_of(running, new.drop_last());
        if known(running, new.last().id) {
            before
        } else {
            before.push(new.last().id)
        }
    }
}

fn is_known(devices: &Vec<DeviceConfig>, id: &str) -> (r: bool)
    ensures
        r == known(config::device_views(devices@), id@),
{
    let ghost all = config::device_views(devices@);
    let mut i: usize = 0;
    while i < devices.len()
        invariant
            i <= devices@.len(),
            all == config::device_views(devices@),
            forall|j: int| 0 <= j < i ==> (#[trigger] all[j]).id != id@,
        decreases devices@.len() - i,
    {
        if text::same(devices[i].id.as_str(), id) {
            assert(all[i as int].id == id@);
            return true;
        }
        i += 1;
    }
    false
}

fn unwatched(running: &Vec<DeviceConfig>, new: &Vec<DeviceConfig>) -> (r: Vec<String>)
    ensures
        text::views(r@) == unwatched_of(
            config::device_views(running@),
            config::device_views(new@),
        ),
{
    let ghost all = config::device_views(new@);
    let mut out: Vec<String> = Vec::new();
    let mut i: usize = 0;
    assert(all.take(0) =~= seq![]);
    assert(text::views(out@) =~= seq![]);
    while i < new.len()
        invariant
            i <= new@.len(),
            all == config::device_views(new@),
            text::views(out@) == unwatched_of(config::device_views(running@), all.take(i as int)),
        decreases new@.len() - i,
    {
        assert(all.take(i + 1).drop_last() =~= all.take(i as int));
        if !is_known(running, new[i].id.as_str()) {
            let ghost before = out@;
            let id: String = new[i].id.clone();
            out.push(id);
            assert(text::views(out@) =~= text::views(before).push(id@));
        }
        i += 1;
    }
    assert(all.take(i as int) =~= all);
    out
}

/// What came of a poll.
#[derive(Debug)]
pub enum Polled {
    /// No reload was asked for.
    Idle,
    /// The new configuration is the running one. These of its devices have no
    /// worker: they need a restart to be watched.
    Applied { unwatched: Vec<String> },
    /// The new configuration could not be loaded, so the running one stays.
    Kept(LoadError),
}

/// The generation after another reload.
pub open spec fn next_generation(generation: u64) -> u64 {
    if generation == u64::MAX {
        0
    } else {
        (generation + 1) as u64
    }
}

/// Makes a freshly loaded configuration the running one, or keeps the running
/// one where the file could not be loaded.
///
/// Devices added to the file since startup have no worker and are not picked
/// up here, that still needs a restart, but a mapping change on a device that
/// already has one applies immediately.
pub fn apply(state: &mut Reload, loaded: Result<Config, LoadError>) -> (r: Polled)
    ensures
        match loaded {
            Ok(config) => {
                &&& r matches Polled::Applied { unwatched } && text::views(unwatched@)
                    == unwatched_of(old(state)@.devices, config@.devices)
                &&& final(state)@ == old(state)@.applied(config@.devices)
            },
            Err(e) => {
                &&& r == Polled::Kept(e)
                &&& final(state)@ == old(state)@
            },
        },
{
    match loaded {
        Ok(config) => {
            let unwatched: Vec<String> = unwatched(&state.devices, &config.devices);
            publish(state, &config);
            state.generation = state.generation.wrapping_add(1);
            Polled::Applied { unwatched }
        },
        Err(e) => Polled::Kept(e),
    }
}

impl ReloadView {
    /// The state once a configuration with these devices is the running one.
    pub open spec fn applied(self, devices: Seq<DeviceView>) -> Self {
        ReloadView { generation: next_generation(self.generation), devices, ..self }
    }

    /// The state once these devices are the running ones.
    pub open spec fn published(self, devices: Seq<DeviceView>) -> Self {
        ReloadView { devices, ..self }
    }

    /// The state once a signal has come.
    pub open spec fn signalled(self) -> Self {
        ReloadView { requested: true, ..self }
    }

    /// The state once a request is taken back.
    pub open spec fn answered(self) -> Self {
        ReloadView { requested: false, ..self }
    }

    /// The state once it has been polled with the text of the file, or with
    /// none where the file could not be read.
    pub open spec fn polled(self, text: Option<Seq<char>>) -> Self {
        if self.requested {
            match text {
                Some(t) => match loadable(t) {
                    Some(sections) => self.answered().applied(ConfigView::read(sections).devices),
                    None => self.answered(),
                },
                None => self.answered(),
            }
        } else {
            self
        }
    }
}

/// The sections of a text that can be loaded as a configuration.
pub open spec fn loadable(text: Seq<char>) -> Option<SectionList> {
    match outside::ini_sections(text) {
        Ok(sections) => if config::old_format(sections) {
            None
        } else {
            Some(sections)
        },
        Err(_) => None,
    }
}

/// What a poll says of the state that it found and of what was read of the
/// file.
pub open spec fn poll_says(
    state: ReloadView,
    contents: Result<String, LoadError>,
    said: Polled,
) -> bool {
    if !state.requested {
        said is Idle
    } else {
        match contents {
            Ok(text) => match outside::ini_sections(text@) {
                Ok(sections) => if config::old_format(sections) {
                    said == Polled::Kept(LoadError::OldFormat)
                } else {
                    said matches Polled::Applied { unwatched } && text::views(unwatched@)
                        == unwatched_of(state.devices, ConfigView::read(sections).devices)
                },
                Err(why) => said matches Polled::Kept(LoadError::Read(w)) && w@ == why,
            },
            Err(e) => said == Polled::Kept(e),
        }
    }
}

/// Loads the config again if a signal asked for it, from what was read of the
/// file, and takes the request back either way.
pub fn poll(state: &mut Reload, contents: Result<String, LoadError>) -> (r: Polled)
    ensures
        final(state)@ == old(state)@.polled(
            (match contents {
                Ok(text) => Some(text@),
                Err(_) => None,
            }),
        ),
        poll_says(old(state)@, contents, r),
{
    if !state.requested {
        return Polled::Idle;
    }
    state.requested = false;
    match contents {
        Ok(text) => apply(state, Config::load(text.as_str())),
        Err(e) => apply(state, Err(e)),
    }
}

/// However many signals come before a poll, they are one request.
pub proof fn law_signals_before_a_poll_are_one_request(state: ReloadView)
    ensures
        state.signalled().signalled() == state.signalled(),
{
}

/// A poll answers the request: until the next signal, polling again changes
/// nothing, whatever the file then holds.
pub proof fn law_poll_answers_the_request(
    state: ReloadView,
    text: Option<Seq<char>>,
    again: Option<Seq<char>>,
)
    ensures
        !state.polled(text).requested,
        state.polled(text).polled(again) == state.polled(text),
{
}

/// A file that cannot be read or loaded leaves the running configuration and
/// its generation as they are.
pub proof fn law_failed_reload_keeps_the_config(state: ReloadView, text: Option<Seq<char>>)
    requires
        text matches Some(t) ==> loadable(t) is None,
    ensures
        state.polled(text).devices == state.devices,
        state.polled(text).generation == state.generation,
{
}

/// A reload that was asked for and can be loaded makes the devices of the file
/// the running ones and moves the generation on by one, so every worker sees
/// that its own copy is out of date.
pub proof fn law_reload_applies(state: ReloadView, text: Seq<char>)
    requires
        state.requested,
        loadable(text) is Some,
    ensures
        state.polled(Some(text)).devices == ConfigView::read(loadable(text)->0).devices,
        state.polled(Some(text)).generation == next_generation(state.generation),
        state.polled(Some(text)).generation != state.generation,
{
}

/// A device is found where and only where some running device has its id.
pub proof fn law_found_where_known(devices: Seq<DeviceView>, id: Seq<char>)
    ensures
        found(devices, id) is Some <==> known(devices, id),
        found(devices, id) matches Some(dev) ==> dev.id == id && devices.contains(dev),
    decreases devices.len(),
{
    if devices.len() > 0 {
        let rest = devices.skip(1);
        law_found_where_known(rest, id);
        if devices[0].id != id {
            if known(devices, id) {
                let i = choose|i: int| 0 <= i < devices.len() && (#[trigger] devices[i]).id == id;
                assert(rest[i - 1].id == id);
            }
            if known(rest, id) {
                let i = choose|i: int| 0 <= i < rest.len() && (#[trigger] rest[i]).id == id;
                assert(devices[i + 1].id == id);
            }
            if let Some(dev) = found(rest, id) {
                let i = choose|i: int| 0 <= i < rest.len() && rest[i] == dev;
                assert(devices[i + 1] == dev);
            }
        } else {
            assert(devices[0].id == id);
            assert(devices.contains(devices[0]));
        }
    }
}

} // verus!
