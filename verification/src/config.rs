//! The configuration file: its settings, its devices, and what each of their
//! buttons runs.

use crate::mappings::{DpadDirection, DpadMap, Trigger, TriggerMap};
use crate::outside;
use crate::outside::{EntryList, Section, SectionList};
use crate::text;
use std::collections::HashMap;
use vstd::prelude::*;
use vstd::string::*;

verus! {

/// A key or button, by its evdev code.
#[derive(Debug, Clone, Copy, PartialEq, Eq, Hash, Structural)]
pub struct Key {
    pub code: u16,
}

impl Key {
    pub fn new(code: u16) -> (r: Self)
        ensures
            r.code == code,
    {
        Key { code }
    }

    pub fn code(&self) -> (r: u16)
        ensures
            r == self.code,
    {
        self.code
    }
}

/// What `0x` and hexadecimal digits write.
pub open spec fn hex_code(s: Seq<char>) -> Option<int> {
    if s.len() >= 2 && s[0] == '0' && s[1] == 'x' {
        text::unsigned(s.skip(2), 16, u16::MAX as int)
    } else {
        None
    }
}

/// The key that a text stands for: a decimal code, else a hexadecimal code
/// after `0x`, else the name of a key in any case.
pub open spec fn key_of(s: Seq<char>) -> Option<Key> {
    code_or_named(s, outside::key_code(outside::upper_case(s)))
}

/// The key that a text stands for, where `named` is the code of the key with
/// that name.
pub open spec fn code_or_named(s: Seq<char>, named: Option<u16>) -> Option<Key> {
    match text::unsigned(s, 10, u16::MAX as int) {
        Some(code) => Some(Key { code: code as u16 }),
        None => match hex_code(s) {
            Some(code) => Some(Key { code: code as u16 }),
            None => match named {
                Some(code) => Some(Key { code }),
                None => None,
            },
        },
    }
}

/// Reads a key, where `named` is the code of the key with that name: a decimal
/// code, else a hexadecimal code after `0x`, else the named key.
pub fn key_from(s: &str, named: Option<u16>) -> (r: Option<Key>)
    ensures
        r == code_or_named(s@, named),
{
    if let Some(code) = text::parse_unsigned(s, 10, 0xffff) {
        return Some(Key::new(code as u16));
    }
    proof {
        reveal_strlit("0x");
    }
    if text::has_prefix(s, "0x") {
        let hex: &str = s.substring_char(2, s.unicode_len());
        assert(hex@ =~= s@.skip(2));
        assert(s@[0] == "0x"@[0]);
        assert(s@[1] == "0x"@[1]);
        if let Some(code) = text::parse_unsigned(hex, 16, 0xffff) {
            return Some(Key::new(code as u16));
        }
    } else {
        assert(!(s@.len() >= 2 && s@[0] == '0' && s@[1] == 'x'));
    }
    match named {
        Some(code) => Some(Key::new(code)),
        None => None,
    }
}

/// Reads a key: a decimal code, a hexadecimal code after `0x`, or the name of
/// a key in any case.
pub fn parse_key(s: &str) -> (r: Option<Key>)
    ensures
        r == key_of(s@),
{
    let name: String = outside::to_uppercase(s);
    key_from(s, outside::key_by_name(name.as_str()))
}

/// A text that is no number, and in upper case does not begin as the names of
/// keys and buttons do, is no key.
pub proof fn law_unknown_name_is_no_key(s: Seq<char>)
    requires
        text::unsigned(s, 10, u16::MAX as int) is None,
        hex_code(s) is None,
        !outside::key_prefix(outside::upper_case(s)),
    ensures
        key_of(s) is None,
{
    let name = outside::upper_case(s);
    reveal_strlit("KEY_");
    reveal_strlit("KEY_ENTER");
    reveal_strlit("KEY_HOME");
    reveal_strlit("KEY_UP");
    reveal_strlit("KEY_LEFT");
    reveal_strlit("KEY_RIGHT");
    reveal_strlit("KEY_DOWN");
    reveal_strlit("KEY_BACK");
    if outside::own_key(name) is Some {
        assert("KEY_"@ =~= name.subrange(0, 4));
        assert("KEY_"@.is_prefix_of(name));
    }
}

/// A code reads back from its decimal digits, whatever evdev's names are.
pub proof fn law_decimal_code_is_a_key(code: u16)
    ensures
        key_of(text::decimal(code as nat)) == Some(Key { code }),
{
    text::law_decimal_reads_back(code as nat, u16::MAX as int);
}

/// A code reads back from its hexadecimal digits after `0x`, whatever evdev's
/// names are.
pub proof fn law_hexadecimal_code_is_a_key(digits: Seq<char>, code: u16)
    requires
        text::unsigned(digits, 16, u16::MAX as int) == Some(code as int),
    ensures
        key_of(seq!['0', 'x'] + digits) == Some(Key { code }),
{
    let s = seq!['0', 'x'] + digits;
    assert(s[1] == 'x');
    text::lemma_not_a_number(s, 10, 1);
    assert(s.skip(2) =~= digits);
}

/// The direction that a name in lower case stands for.
pub open spec fn direction_of(name: Seq<char>) -> Option<DpadDirection> {
    if name == "up"@ {
        Some(DpadDirection::Up)
    } else if name == "down"@ {
        Some(DpadDirection::Down)
    } else if name == "left"@ {
        Some(DpadDirection::Left)
    } else if name == "right"@ {
        Some(DpadDirection::Right)
    } else {
        None
    }
}

/// Finds a direction by its name in lower case.
pub fn direction_named(name: &str) -> (r: Option<DpadDirection>)
    ensures
        r == direction_of(name@),
{
    if text::same(name, "up") {
        Some(DpadDirection::Up)
    } else if text::same(name, "down") {
        Some(DpadDirection::Down)
    } else if text::same(name, "left") {
        Some(DpadDirection::Left)
    } else if text::same(name, "right") {
        Some(DpadDirection::Right)
    } else {
        None
    }
}

/// Reads a D-pad direction, in any case.
pub fn parse_dpad_direction(s: &str) -> (r: Option<DpadDirection>)
    ensures
        r == direction_of(outside::lower_case(s@)),
{
    direction_named(outside::to_lowercase(s).as_str())
}

/// The trigger that a name in lower case stands for.
pub open spec fn trigger_of(name: Seq<char>) -> Option<Trigger> {
    if name == "lt"@ || name == "left"@ {
        Some(Trigger::LT)
    } else if name == "rt"@ || name == "right"@ {
        Some(Trigger::RT)
    } else {
        None
    }
}

/// Finds a trigger by its name in lower case.
pub fn trigger_named(name: &str) -> (r: Option<Trigger>)
    ensures
        r == trigger_of(name@),
{
    if text::same(name, "lt") || text::same(name, "left") {
        Some(Trigger::LT)
    } else if text::same(name, "rt") || text::same(name, "right") {
        Some(Trigger::RT)
    } else {
        None
    }
}

/// Reads a trigger, in any case.
pub fn parse_trigger(s: &str) -> (r: Option<Trigger>)
    ensures
        r == trigger_of(outside::lower_case(s@)),
{
    trigger_named(outside::to_lowercase(s).as_str())
}

/// Whether a text says yes: `true`, `yes`, `1` or `on`, in any ASCII case and
/// with white space around it. Anything else says no.
pub open spec fn truth(s: Seq<char>) -> bool {
    let t = text::lower(text::trimmed(s));
    t == "true"@ || t == "yes"@ || t == "1"@ || t == "on"@
}

/// Reads a switch.
pub fn parse_bool(v: &str) -> (r: bool)
    ensures
        r == truth(v@),
{
    let t: &str = text::trim(v);
    text::same_lowered(t, "true") || text::same_lowered(t, "yes") || text::same_lowered(t, "1")
        || text::same_lowered(t, "on")
}

/// The value of a key, where the key is there and has one.
pub open spec fn value_of(
    entries: EntryList,
    key: Seq<char>,
) -> Option<Seq<char>>
    decreases entries.len(),
{
    if entries.len() == 0 {
        None
    } else if entries[0].0 == key {
        entries[0].1
    } else {
        value_of(entries.skip(1), key)
    }
}

/// Looks a key up in a section.
pub fn get<'a>(entries: &'a Vec<(String, Option<String>)>, key: &str) -> (r: Option<&'a str>)
    ensures
        match r {
            Some(v) => value_of(outside::entry_views(entries@), key@) == Some(v@),
            None => value_of(outside::entry_views(entries@), key@) is None,
        },
{
    let ghost all = outside::entry_views(entries@);
    let mut i: usize = 0;
    assert(all.skip(0) =~= all);
    while i < entries.len()
        invariant
            i <= entries@.len(),
            all == outside::entry_views(entries@),
            value_of(all.skip(i as int), key@) == value_of(all, key@),
        decreases entries@.len() - i,
    {
        assert(all.skip(i as int).skip(1) =~= all.skip(i + 1));
        if text::same(entries[i].0.as_str(), key) {
            return match &entries[i].1 {
                Some(v) => Some(v.as_str()),
                None => None,
            };
        }
        i += 1;
    }
    None
}

/// The scripts of a key map.
pub open spec fn scripts(m: Map<u16, String>) -> Map<u16, Seq<char>> {
    m.map_values(|s: String| s@)
}

/// A key map with a section's entries added in order. An entry counts where
/// its key can be read and has a script; a later one replaces an earlier one
/// for the same key.
pub open spec fn keys_filled(
    m: Map<u16, Seq<char>>,
    entries: EntryList,
) -> Map<u16, Seq<char>>
    decreases entries.len(),
{
    if entries.len() == 0 {
        m
    } else {
        let before = keys_filled(m, entries.drop_last());
        match (key_of(entries.last().0), entries.last().1) {
            (Some(key), Some(script)) => before.insert(key.code, script),
            _ => before,
        }
    }
}

/// Adds a section's entries to a key map.
pub fn fill_key_map(entries: &Vec<(String, Option<String>)>, out: &mut HashMap<u16, String>)
    ensures
        scripts(final(out)@) == keys_filled(
            scripts(old(out)@),
            outside::entry_views(entries@),
        ),
{
    let ghost all = outside::entry_views(entries@);
    let mut i: usize = 0;
    assert(all.take(0) =~= seq![]);
    while i < entries.len()
        invariant
            i <= entries@.len(),
            all == outside::entry_views(entries@),
            scripts(out@) == keys_filled(scripts(old(out)@), all.take(i as int)),
        decreases entries@.len() - i,
    {
        assert(all.take(i + 1).drop_last() =~= all.take(i as int));
        if let Some(script) = &entries[i].1 {
            if let Some(key) = parse_key(entries[i].0.as_str()) {
                let ghost before = out@;
                out.insert(key.code, script.clone());
                assert(scripts(out@) =~= scripts(before).insert(key.code, script@));
            }
        }
        i += 1;
    }
    assert(all.take(i as int) =~= all);
}

/// A direction map with a section's entries added in order.
pub open spec fn dpad_filled(
    m: Map<DpadDirection, Seq<char>>,
    entries: EntryList,
) -> Map<DpadDirection, Seq<char>>
    decreases entries.len(),
{
    if entries.len() == 0 {
        m
    } else {
        let before = dpad_filled(m, entries.drop_last());
        match (direction_of(outside::lower_case(entries.last().0)), entries.last().1) {
            (Some(dir), Some(script)) => before.insert(dir, script),
            _ => before,
        }
    }
}

/// Adds a section's entries to a direction map.
pub fn fill_dpad_map(entries: &Vec<(String, Option<String>)>, out: &mut DpadMap)
    ensures
        final(out)@ == dpad_filled(old(out)@, outside::entry_views(entries@)),
{
    let ghost all = outside::entry_views(entries@);
    let mut i: usize = 0;
    assert(all.take(0) =~= seq![]);
    while i < entries.len()
        invariant
            i <= entries@.len(),
            all == outside::entry_views(entries@),
            out@ == dpad_filled(old(out)@, all.take(i as int)),
        decreases entries@.len() - i,
    {
        assert(all.take(i + 1).drop_last() =~= all.take(i as int));
        if let Some(script) = &entries[i].1 {
            if let Some(dir) = parse_dpad_direction(entries[i].0.as_str()) {
                out.insert(dir, script.clone());
            }
        }
        i += 1;
    }
    assert(all.take(i as int) =~= all);
}

/// A trigger map with a section's entries added in order.
pub open spec fn triggers_filled(
    m: Map<Trigger, Seq<char>>,
    entries: EntryList,
) -> Map<Trigger, Seq<char>>
    decreases entries.len(),
{
    if entries.len() == 0 {
        m
    } else {
        let before = triggers_filled(m, entries.drop_last());
        match (trigger_of(outside::lower_case(entries.last().0)), entries.last().1) {
            (Some(trigger), Some(script)) => before.insert(trigger, script),
            _ => before,
        }
    }
}

/// Adds a section's entries to a trigger map.
pub fn fill_trigger_map(entries: &Vec<(String, Option<String>)>, out: &mut TriggerMap)
    ensures
        final(out)@ == triggers_filled(old(out)@, outside::entry_views(entries@)),
{
    let ghost all = outside::entry_views(entries@);
    let mut i: usize = 0;
    assert(all.take(0) =~= seq![]);
    while i < entries.len()
        invariant
            i <= entries@.len(),
            all == outside::entry_views(entries@),
            out@ == triggers_filled(old(out)@, all.take(i as int)),
        decreases entries@.len() - i,
    {
        assert(all.take(i + 1).drop_last() =~= all.take(i as int));
        if let Some(script) = &entries[i].1 {
            if let Some(trigger) = parse_trigger(entries[i].0.as_str()) {
                out.insert(trigger, script.clone());
            }
        }
        i += 1;
    }
    assert(all.take(i as int) =~= all);
}

/// What a device's part of the file says.
#[verifier::ext_equal]
pub struct DeviceView {
    pub id: Seq<char>,
    pub name: Option<Seq<char>>,
    pub uniq: Option<Seq<char>>,
    pub grab: bool,
    pub grab_explicit: bool,
    pub passthrough: bool,
    pub keyboard_layout: Option<Seq<char>>,
    pub mappings: Map<u16, Seq<char>>,
    pub long_press_mappings: Map<u16, Seq<char>>,
    pub dpad_mappings: Map<DpadDirection, Seq<char>>,
    pub dpad_longpress_mappings: Map<DpadDirection, Seq<char>>,
    pub trigger_mappings: Map<Trigger, Seq<char>>,
    pub trigger_longpress_mappings: Map<Trigger, Seq<char>>,
}

/// A device, and the script that each of its buttons runs. Keys are held by
/// their codes.
#[derive(Debug)]
pub struct DeviceConfig {
    pub id: String,
    pub name: Option<String>,
    pub uniq: Option<String>,
    pub grab: bool,
    /// Whether the file said so. Blocks added by the pairing side never do, and
    /// those are the ones the worker is allowed to downgrade to a shared open.
    pub grab_explicit: bool,
    /// Re-emit keys with no mapping through the virtual keyboard. Only means
    /// anything alongside a grab, and it is what makes a keyboard survive one.
    pub passthrough: bool,
    pub keyboard_layout: Option<String>,
    pub mappings: HashMap<u16, String>,
    pub long_press_mappings: HashMap<u16, String>,
    pub dpad_mappings: DpadMap,
    pub dpad_longpress_mappings: DpadMap,
    pub trigger_mappings: TriggerMap,
    pub trigger_longpress_mappings: TriggerMap,
}

impl View for DeviceConfig {
    type V = DeviceView;

    open spec fn view(&self) -> DeviceView {
        DeviceView {
            id: self.id@,
            name: text::opt_view(self.name),
            uniq: text::opt_view(self.uniq),
            grab: self.grab,
            grab_explicit: self.grab_explicit,
            passthrough: self.passthrough,
            keyboard_layout: text::opt_view(self.keyboard_layout),
            mappings: scripts(self.mappings@),
            long_press_mappings: scripts(self.long_press_mappings@),
            dpad_mappings: self.dpad_mappings@,
            dpad_longpress_mappings: self.dpad_longpress_mappings@,
            trigger_mappings: self.trigger_mappings@,
            trigger_longpress_mappings: self.trigger_longpress_mappings@,
        }
    }
}

impl Clone for DeviceConfig {
    fn clone(&self) -> (r: Self)
        ensures
            r@ == self@,
    {
        DeviceConfig {
            id: self.id.clone(),
            name: self.name.clone(),
            uniq: self.uniq.clone(),
            grab: self.grab,
            grab_explicit: self.grab_explicit,
            passthrough: self.passthrough,
            keyboard_layout: self.keyboard_layout.clone(),
            mappings: self.mappings.clone(),
            long_press_mappings: self.long_press_mappings.clone(),
            dpad_mappings: self.dpad_mappings.clone(),
            dpad_longpress_mappings: self.dpad_longpress_mappings.clone(),
            trigger_mappings: self.trigger_mappings.clone(),
            trigger_longpress_mappings: self.trigger_longpress_mappings.clone(),
        }
    }
}

impl DeviceView {
    /// A device of which only the id is known.
    pub open spec fn fresh(id: Seq<char>) -> Self {
        DeviceView {
            id,
            name: None,
            uniq: None,
            grab: true,
            grab_explicit: false,
            passthrough: false,
            keyboard_layout: None,
            mappings: Map::empty(),
            long_press_mappings: Map::empty(),
            dpad_mappings: Map::empty(),
            dpad_longpress_mappings: Map::empty(),
            trigger_mappings: Map::empty(),
            trigger_longpress_mappings: Map::empty(),
        }
    }

    /// No button of the device runs anything.
    pub open spec fn unmapped(self) -> bool {
        &&& self.mappings.is_empty()
        &&& self.long_press_mappings.is_empty()
        &&& self.dpad_mappings.is_empty()
        &&& self.dpad_longpress_mappings.is_empty()
        &&& self.trigger_mappings.is_empty()
        &&& self.trigger_longpress_mappings.is_empty()
    }

    /// The device with the default gamepad layout on top of what it has.
    pub open spec fn with_default_layout(self) -> Self {
        DeviceView {
            dpad_mappings: self.dpad_mappings.insert(
                DpadDirection::Up,
                key_script("KEY_UP"@),
            ).insert(DpadDirection::Down, key_script("KEY_DOWN"@)).insert(
                DpadDirection::Left,
                key_script("KEY_LEFT"@),
            ).insert(DpadDirection::Right, key_script("KEY_RIGHT"@)),
            mappings: self.mappings.insert(BTN_A, key_script("KEY_ENTER"@)).insert(
                BTN_B,
                key_script("KEY_BACK"@),
            ).insert(BTN_TL, key_script("page_prev"@)).insert(BTN_TR, key_script("page_next"@)),
            ..self
        }
    }
}

pub const KEY_SH: &'static str = "/mnt/us/kindle-button-mapper/scripts/key.sh";

pub const BTN_A: u16 = 304;

pub const BTN_B: u16 = 305;

pub const BTN_TL: u16 = 310;

pub const BTN_TR: u16 = 311;

/// The command line that injects a key.
pub open spec fn key_script(key: Seq<char>) -> Seq<char> {
    KEY_SH@ + seq![' '] + key
}

fn key_command(key: &str) -> (r: String)
    ensures
        r@ == key_script(key@),
{
    let mut out: String = KEY_SH.to_owned();
    proof {
        reveal_strlit(" ");
    }
    assert(" "@ =~= seq![' ']);
    out.append(" ");
    out.append(key);
    out
}

impl DeviceConfig {
    /// The default gamepad layout, arrows on the D-pad, Enter/Back on A and B,
    /// page turns on the shoulders. The worker applies it when an unmapped
    /// device turns out to be a gamepad, so a pad added through the app drives
    /// KOReader before anyone maps a button. Config load can't decide this,
    /// only the opened node's capabilities say what the device is.
    pub fn apply_default_layout(&mut self)
        ensures
            final(self)@ == old(self)@.with_default_layout(),
    {
        self.dpad_mappings.insert(DpadDirection::Up, key_command("KEY_UP"));
        self.dpad_mappings.insert(DpadDirection::Down, key_command("KEY_DOWN"));
        self.dpad_mappings.insert(DpadDirection::Left, key_command("KEY_LEFT"));
        self.dpad_mappings.insert(DpadDirection::Right, key_command("KEY_RIGHT"));
        self.mappings.insert(BTN_A, key_command("KEY_ENTER"));
        self.mappings.insert(BTN_B, key_command("KEY_BACK"));
        self.mappings.insert(BTN_TL, key_command("page_prev"));
        self.mappings.insert(BTN_TR, key_command("page_next"));
        assert(self@.mappings =~= old(self)@.with_default_layout().mappings);
    }

    /// Whether no button of the device runs anything.
    pub fn is_unmapped(&self) -> (r: bool)
        ensures
            r == self@.unmapped(),
    {
        proof {
            lemma_scripts_empty(self.mappings@);
            lemma_scripts_empty(self.long_press_mappings@);
        }
        self.mappings.is_empty() && self.long_press_mappings.is_empty()
            && self.dpad_mappings.is_empty() && self.dpad_longpress_mappings.is_empty()
            && self.trigger_mappings.is_empty() && self.trigger_longpress_mappings.is_empty()
    }

    /// A device of which only the id is known, for trying things out on.
    pub fn for_test(id: &str) -> (r: Self)
        ensures
            r@ == DeviceView::fresh(id@),
    {
        Self::new(id.to_owned())
    }

    /// A device of which only the id is known.
    pub fn new(id: String) -> (r: Self)
        ensures
            r@ == DeviceView::fresh(id@),
    {
        let r = DeviceConfig {
            id,
            name: None,
            uniq: None,
            grab: true,
            grab_explicit: false,
            passthrough: false,
            keyboard_layout: None,
            mappings: HashMap::new(),
            long_press_mappings: HashMap::new(),
            dpad_mappings: DpadMap::new(),
            dpad_longpress_mappings: DpadMap::new(),
            trigger_mappings: TriggerMap::new(),
            trigger_longpress_mappings: TriggerMap::new(),
        };
        assert(scripts(Map::empty()) =~= Map::empty());
        r
    }
}

proof fn lemma_scripts_empty(m: Map<u16, String>)
    ensures
        scripts(m).is_empty() == m.is_empty(),
{
    assert(scripts(m).dom() =~= m.dom());
}

/// What a configuration says.
#[verifier::ext_equal]
pub struct ConfigView {
    pub devices: Seq<DeviceView>,
    pub debounce_ms: u64,
    pub long_press_ms: u64,
    pub repeat_ms: u64,
    pub log_buttons: bool,
    pub keep_awake: bool,
    pub on_connect: Option<Seq<char>>,
    pub on_disconnect: Option<Seq<char>>,
}

/// The whole configuration.
#[derive(Debug)]
pub struct Config {
    pub devices: Vec<DeviceConfig>,
    pub debounce_ms: u64,
    pub long_press_ms: u64,
    pub repeat_ms: u64,
    pub log_buttons: bool,
    pub keep_awake: bool,
    pub on_connect: Option<String>,
    pub on_disconnect: Option<String>,
}

/// What a list of devices says.
pub open spec fn device_views(v: Seq<DeviceConfig>) -> Seq<DeviceView> {
    Seq::new(v.len(), |i: int| v[i]@)
}

impl View for Config {
    type V = ConfigView;

    open spec fn view(&self) -> ConfigView {
        ConfigView {
            devices: device_views(self.devices@),
            debounce_ms: self.debounce_ms,
            long_press_ms: self.long_press_ms,
            repeat_ms: self.repeat_ms,
            log_buttons: self.log_buttons,
            keep_awake: self.keep_awake,
            on_connect: text::opt_view(self.on_connect),
            on_disconnect: text::opt_view(self.on_disconnect),
        }
    }
}

impl Default for Config {
    fn default() -> (r: Self)
        ensures
            r@ == ConfigView::plain(),
    {
        let r = Config {
            devices: Vec::new(),
            debounce_ms: 200,
            long_press_ms: 500,
            repeat_ms: 100,
            log_buttons: false,
            keep_awake: true,
            on_connect: None,
            on_disconnect: None,
        };
        assert(r@ =~= ConfigView::plain());
        r
    }
}

/// What a missing file is created with.
pub const DEFAULT_CONFIG: &'static str =
    "# Kindle Button Mapper - default config\n# Edit via the Button Mapper WAF app, or by hand.\n\n[settings]\ndebounce_ms = 0\nlog_buttons = true\nlong_press_ms = 500\nrepeat_ms = 100\nkeep_awake = true\n";

/// A section of the format without device names, which is no longer read.
pub open spec fn old_section(name: Seq<char>) -> bool {
    ||| name == "device"@
    ||| name == "buttons"@
    ||| name == "longpress"@
    ||| name == "dpad"@
    ||| name == "dpad_longpress"@
    ||| name == "triggers"@
    ||| name == "triggers_longpress"@
}

fn is_old_section(name: &str) -> (r: bool)
    ensures
        r == old_section(name@),
{
    text::same(name, "device") || text::same(name, "buttons") || text::same(name, "longpress")
        || text::same(name, "dpad") || text::same(name, "dpad_longpress") || text::same(
        name,
        "triggers",
    ) || text::same(name, "triggers_longpress")
}

/// The device that a section is about, and the part of it, where the name has
/// the form `device.ID` or `device.ID.PART`. What follows a third dot does not
/// count.
pub open spec fn device_part(name: Seq<char>) -> Option<(Seq<char>, Option<Seq<char>>)> {
    let p = text::pieces(name, '.');
    if p.len() >= 2 && p[0] == "device"@ {
        Some(
            (
                p[1],
                if p.len() >= 3 {
                    Some(p[2])
                } else {
                    None
                },
            ),
        )
    } else {
        None
    }
}

fn split_device_part(name: &str) -> (r: Option<(String, Option<String>)>)
    ensures
        match r {
            Some((id, part)) => device_part(name@) == Some((id@, text::opt_view(part))),
            None => device_part(name@) is None,
        },
{
    let parts: Vec<String> = text::split(name, '.');
    let ghost p = text::pieces(name@, '.');
    assert(p == text::views(parts@));
    assert(forall|i: int| 0 <= i < parts@.len() ==> p[i] == #[trigger] parts@[i]@);
    if parts.len() >= 2 && text::same(parts[0].as_str(), "device") {
        let part: Option<String> = if parts.len() >= 3 {
            Some(parts[2].clone())
        } else {
            None
        };
        Some((parts[1].clone(), part))
    } else {
        None
    }
}

/// The ids of the devices that the sections are about, each once, in the order
/// of their first appearance.
pub open spec fn device_ids(sections: SectionList) -> Seq<Seq<char>>
    decreases sections.len(),
{
    if sections.len() == 0 {
        seq![]
    } else {
        let before = device_ids(sections.drop_last());
        match device_part(sections.last().0) {
            Some((id, _)) => if before.contains(id) {
                before
            } else {
                before.push(id)
            },
            None => before,
        }
    }
}

impl DeviceView {
    /// The device after its own section, `device.ID`, is read.
    pub open spec fn described(self, entries: EntryList) -> Self {
        DeviceView {
            name: match value_of(entries, "name"@) {
                Some(v) => Some(v),
                None => self.name,
            },
            uniq: match value_of(entries, "uniq"@) {
                Some(v) => Some(v),
                None => self.uniq,
            },
            grab: match value_of(entries, "grab"@) {
                Some(v) => truth(v),
                None => self.grab,
            },
            grab_explicit: self.grab_explicit || value_of(entries, "grab"@) is Some,
            passthrough: match value_of(entries, "passthrough"@) {
                Some(v) => truth(v),
                None => self.passthrough,
            },
            keyboard_layout: match value_of(entries, "keyboard_layout"@) {
                Some(v) => if text::trimmed(v).len() > 0 {
                    Some(text::trimmed(v))
                } else {
                    None
                },
                None => None,
            },
            ..self
        }
    }

    /// The device after one of its sections is read.
    pub open spec fn updated(
        self,
        part: Option<Seq<char>>,
        entries: EntryList,
    ) -> Self {
        match part {
            None => self.described(entries),
            Some(p) => if p == "buttons"@ {
                DeviceView { mappings: keys_filled(self.mappings, entries), ..self }
            } else if p == "longpress"@ {
                DeviceView {
                    long_press_mappings: keys_filled(self.long_press_mappings, entries),
                    ..self
                }
            } else if p == "dpad"@ {
                DeviceView { dpad_mappings: dpad_filled(self.dpad_mappings, entries), ..self }
            } else if p == "dpad_longpress"@ {
                DeviceView {
                    dpad_longpress_mappings: dpad_filled(self.dpad_longpress_mappings, entries),
                    ..self
                }
            } else if p == "triggers"@ {
                DeviceView {
                    trigger_mappings: triggers_filled(self.trigger_mappings, entries),
                    ..self
                }
            } else if p == "triggers_longpress"@ {
                DeviceView {
                    trigger_longpress_mappings: triggers_filled(
                        self.trigger_longpress_mappings,
                        entries,
                    ),
                    ..self
                }
            } else {
                self
            },
        }
    }

    /// What the sections say of the device with an id, read in their order.
    pub open spec fn read(
        id: Seq<char>,
        sections: SectionList,
    ) -> Self
        decreases sections.len(),
    {
        if sections.len() == 0 {
            DeviceView::fresh(id)
        } else {
            let before = DeviceView::read(id, sections.drop_last());
            match device_part(sections.last().0) {
                Some((i, part)) => if i == id {
                    before.updated(part, sections.last().1)
                } else {
                    before
                },
                None => before,
            }
        }
    }

    /// The file says how to recognise the device.
    pub open spec fn identified(self) -> bool {
        self.name is Some || self.uniq is Some
    }
}

impl DeviceConfig {
    /// Reads one of the device's sections.
    pub fn update(&mut self, part: &Option<String>, entries: &Vec<(String, Option<String>)>)
        ensures
            final(self)@ == old(self)@.updated(
                text::opt_view(*part),
                outside::entry_views(entries@),
            ),
    {
        match part {
            None => self.describe(entries),
            Some(p) => {
                let p: &str = p.as_str();
                if text::same(p, "buttons") {
                    fill_key_map(entries, &mut self.mappings);
                } else if text::same(p, "longpress") {
                    fill_key_map(entries, &mut self.long_press_mappings);
                } else if text::same(p, "dpad") {
                    fill_dpad_map(entries, &mut self.dpad_mappings);
                } else if text::same(p, "dpad_longpress") {
                    fill_dpad_map(entries, &mut self.dpad_longpress_mappings);
                } else if text::same(p, "triggers") {
                    fill_trigger_map(entries, &mut self.trigger_mappings);
                } else if text::same(p, "triggers_longpress") {
                    fill_trigger_map(entries, &mut self.trigger_longpress_mappings);
                }
            },
        }
    }

    fn describe(&mut self, entries: &Vec<(String, Option<String>)>)
        ensures
            final(self)@ == old(self)@.described(outside::entry_views(entries@)),
    {
        if let Some(v) = get(entries, "name") {
            self.name = Some(v.to_owned());
        }
        if let Some(v) = get(entries, "uniq") {
            self.uniq = Some(v.to_owned());
        }
        if let Some(v) = get(entries, "grab") {
            self.grab = parse_bool(v);
            self.grab_explicit = true;
        }
        if let Some(v) = get(entries, "passthrough") {
            self.passthrough = parse_bool(v);
        }
        self.keyboard_layout = match get(entries, "keyboard_layout") {
            Some(v) => {
                let layout: &str = text::trim(v);
                if layout.is_empty() {
                    None
                } else {
                    Some(layout.to_owned())
                }
            },
            None => None,
        };
    }
}

impl ConfigView {
    /// Everything left to its default.
    pub open spec fn plain() -> Self {
        ConfigView {
            devices: seq![],
            debounce_ms: 200,
            long_press_ms: 500,
            repeat_ms: 100,
            log_buttons: false,
            keep_awake: true,
            on_connect: None,
            on_disconnect: None,
        }
    }
}

/// Why a configuration was not loaded.
#[derive(Debug)]
pub enum LoadError {
    /// There was no file, and none could be created.
    Create(String),
    /// The file could not be read, or a line of it could not be.
    Read(String),
    /// The file has the sections of the format without device names.
    OldFormat,
}

impl LoadError {
    /// The message about a failure to load the file at `path`.
    pub open spec fn message_of(&self, path: Seq<char>) -> Seq<char> {
        match self {
            LoadError::Create(why) => "Cannot create "@ + path + ": "@ + why@,
            LoadError::Read(why) => "Failed to load config: couldn't read "@ + path + ": "@ + why@,
            LoadError::OldFormat => path
                + " uses the old config format. Delete it and re-add your device via the Button Mapper app."@,
        }
    }

    /// The message about a failure to load the file at `path`.
    pub fn message(&self, path: &str) -> (r: String)
        ensures
            r@ == self.message_of(path@),
    {
        let mut out: String = String::new();
        match self {
            LoadError::Create(why) => {
                out.append("Cannot create ");
                out.append(path);
                out.append(": ");
                out.append(why.as_str());
                assert(Seq::<char>::empty() + "Cannot create "@ =~= "Cannot create "@);
            },
            LoadError::Read(why) => {
                out.append("Failed to load config: couldn't read ");
                out.append(path);
                out.append(": ");
                out.append(why.as_str());
                assert(Seq::<char>::empty() + "Failed to load config: couldn't read "@
                    =~= "Failed to load config: couldn't read "@);
            },
            LoadError::OldFormat => {
                out.append(path);
                out.append(
                    " uses the old config format. Delete it and re-add your device via the Button Mapper app.",
                );
                assert(Seq::<char>::empty() + path@ =~= path@);
            },
        }
        out
    }
}

/// The entries of the section with a name.
pub open spec fn section_named(
    sections: SectionList,
    name: Seq<char>,
) -> Option<EntryList>
    decreases sections.len(),
{
    if sections.len() == 0 {
        None
    } else if sections[0].0 == name {
        Some(sections[0].1)
    } else {
        section_named(sections.skip(1), name)
    }
}

/// The value of a key in the section `settings`.
pub open spec fn setting(
    sections: SectionList,
    key: Seq<char>,
) -> Option<Seq<char>> {
    match section_named(sections, "settings"@) {
        Some(entries) => value_of(entries, key),
        None => None,
    }
}

/// A number from the settings, where it is there and can be read.
pub open spec fn number_or(value: Option<Seq<char>>, default: u64) -> u64 {
    match value {
        Some(v) => match text::unsigned(v, 10, u64::MAX as int) {
            Some(n) => n as u64,
            None => default,
        },
        None => default,
    }
}

/// A switch from the settings, where it is there.
pub open spec fn switch_or(value: Option<Seq<char>>, default: bool) -> bool {
    match value {
        Some(v) => truth(v),
        None => default,
    }
}

/// A text from the settings, where it is there and not empty.
pub open spec fn non_empty(value: Option<Seq<char>>) -> Option<Seq<char>> {
    match value {
        Some(v) => if v.len() > 0 {
            Some(v)
        } else {
            None
        },
        None => None,
    }
}

/// The devices of a list that the file says how to recognise, in order.
pub open spec fn identified_only(devices: Seq<DeviceView>) -> Seq<DeviceView>
    decreases devices.len(),
{
    if devices.len() == 0 {
        seq![]
    } else {
        let before = identified_only(devices.drop_last());
        if devices.last().identified() {
            before.push(devices.last())
        } else {
            before
        }
    }
}

/// Every device that the sections are about.
pub open spec fn all_devices(sections: SectionList) -> Seq<DeviceView> {
    let ids = device_ids(sections);
    Seq::new(ids.len(), |i: int| DeviceView::read(ids[i], sections))
}

/// Some section is one of the format without device names.
pub open spec fn old_format(sections: SectionList) -> bool {
    exists|i: int| 0 <= i < sections.len() && old_section(#[trigger] sections[i].0)
}

impl ConfigView {
    /// What the sections of a file say.
    pub open spec fn read(
        sections: SectionList,
    ) -> Self {
        ConfigView {
            devices: identified_only(all_devices(sections)),
            debounce_ms: number_or(setting(sections, "debounce_ms"@), 200),
            long_press_ms: number_or(setting(sections, "long_press_ms"@), 500),
            repeat_ms: number_or(setting(sections, "repeat_ms"@), 100),
            log_buttons: switch_or(setting(sections, "log_buttons"@), false),
            keep_awake: switch_or(setting(sections, "keep_awake"@), true),
            on_connect: non_empty(setting(sections, "on_connect"@)),
            on_disconnect: non_empty(setting(sections, "on_disconnect"@)),
        }
    }
}

fn has_old_section(sections: &Vec<Section>) -> (r: bool)
    ensures
        r == old_format(outside::section_views(sections@)),
{
    let ghost all = outside::section_views(sections@);
    let mut i: usize = 0;
    while i < sections.len()
        invariant
            i <= sections@.len(),
            all == outside::section_views(sections@),
            forall|j: int| 0 <= j < i ==> !old_section(#[trigger] all[j].0),
        decreases sections@.len() - i,
    {
        if is_old_section(sections[i].name.as_str()) {
            assert(old_section(all[i as int].0));
            return true;
        }
        i += 1;
    }
    false
}

fn find_section<'a>(sections: &'a Vec<Section>, name: &str) -> (r: Option<&'a Section>)
    ensures
        match r {
            Some(s) => section_named(outside::section_views(sections@), name@) == Some(
                outside::entry_views(s.entries@),
            ),
            None => section_named(outside::section_views(sections@), name@) is None,
        },
{
    let ghost all = outside::section_views(sections@);
    let mut i: usize = 0;
    assert(all.skip(0) =~= all);
    while i < sections.len()
        invariant
            i <= sections@.len(),
            all == outside::section_views(sections@),
            section_named(all.skip(i as int), name@) == section_named(all, name@),
        decreases sections@.len() - i,
    {
        assert(all.skip(i as int).skip(1) =~= all.skip(i + 1));
        if text::same(sections[i].name.as_str(), name) {
            return Some(&sections[i]);
        }
        i += 1;
    }
    None
}

fn number_setting(value: Option<&str>, default: u64) -> (r: u64)
    ensures
        r == number_or(
            (match value {
                Some(v) => Some(v@),
                None => None,
            }),
            default,
        ),
{
    match value {
        Some(v) => match text::parse_unsigned(v, 10, u64::MAX) {
            Some(n) => n,
            None => default,
        },
        None => default,
    }
}

fn text_setting(value: Option<&str>) -> (r: Option<String>)
    ensures
        text::opt_view(r) == non_empty(
            (match value {
                Some(v) => Some(v@),
                None => None,
            }),
        ),
{
    match value {
        Some(v) => if v.is_empty() {
            None
        } else {
            Some(v.to_owned())
        },
        None => None,
    }
}

/// Where the device with an id stands in a list.
fn position(devices: &Vec<DeviceConfig>, id: &str) -> (r: Option<usize>)
    ensures
        match r {
            Some(k) => k < devices@.len() && devices@[k as int].id@ == id@ && forall|j: int|
                0 <= j < k ==> (#[trigger] devices@[j]).id@ != id@,
            None => forall|j: int| 0 <= j < devices@.len() ==> (#[trigger] devices@[j]).id@ != id@,
        },
{
    let mut i: usize = 0;
    while i < devices.len()
        invariant
            i <= devices@.len(),
            forall|j: int| 0 <= j < i ==> (#[trigger] devices@[j]).id@ != id@,
        decreases devices@.len() - i,
    {
        if text::same(devices[i].id.as_str(), id) {
            return Some(i);
        }
        i += 1;
    }
    None
}

/// One fresh device for each id that the sections are about.
fn collect_devices(sections: &Vec<Section>) -> (r: Vec<DeviceConfig>)
    ensures
        r@.len() == device_ids(outside::section_views(sections@)).len(),
        forall|j: int|
            0 <= j < r@.len() ==> (#[trigger] r@[j])@ == DeviceView::fresh(
                device_ids(outside::section_views(sections@))[j],
            ),
{
    let ghost all = outside::section_views(sections@);
    let mut devices: Vec<DeviceConfig> = Vec::new();
    let mut i: usize = 0;
    assert(all.take(0) =~= seq![]);
    while i < sections.len()
        invariant
            i <= sections@.len(),
            all == outside::section_views(sections@),
            devices@.len() == device_ids(all.take(i as int)).len(),
            forall|j: int|
                0 <= j < devices@.len() ==> (#[trigger] devices@[j])@ == DeviceView::fresh(
                    device_ids(all.take(i as int))[j],
                ),
        decreases sections@.len() - i,
    {
        let ghost ids = device_ids(all.take(i as int));
        assert(all.take(i + 1).drop_last() =~= all.take(i as int));
        assert(all.take(i + 1).last() == all[i as int]);
        if let Some((id, _)) = split_device_part(sections[i].name.as_str()) {
            match position(&devices, id.as_str()) {
                Some(k) => {
                    assert(devices@[k as int]@.id == ids[k as int]);
                    assert(ids.contains(id@));
                },
                None => {
                    proof {
                        if ids.contains(id@) {
                            let j = choose|j: int| 0 <= j < ids.len() && ids[j] == id@;
                            assert(devices@[j]@.id == ids[j]);
                        }
                    }
                    devices.push(DeviceConfig::new(id));
                },
            }
        }
        i += 1;
    }
    assert(all.take(i as int) =~= all);
    devices
}

pub proof fn lemma_ids_distinct(sections: SectionList)
    ensures
        device_ids(sections).no_duplicates(),
    decreases sections.len(),
{
    if sections.len() > 0 {
        lemma_ids_distinct(sections.drop_last());
    }
}

pub proof fn lemma_read_keeps_id(
    id: Seq<char>,
    sections: SectionList,
)
    ensures
        DeviceView::read(id, sections).id == id,
    decreases sections.len(),
{
    if sections.len() > 0 {
        lemma_read_keeps_id(id, sections.drop_last());
    }
}

proof fn lemma_id_listed(sections: SectionList, i: int, id: Seq<char>)
    requires
        0 <= i < sections.len(),
        device_part(sections[i].0) matches Some((d, _)) && d == id,
    ensures
        device_ids(sections).contains(id),
    decreases sections.len(),
{
    let before = device_ids(sections.drop_last());
    if i < sections.len() - 1 {
        lemma_id_listed(sections.drop_last(), i, id);
        assert(before.contains(id));
        let j = choose|j: int| 0 <= j < before.len() && before[j] == id;
        assert(device_ids(sections)[j] == id);
    } else if before.contains(id) {
    } else {
        assert(device_ids(sections) == before.push(id));
        assert(before.push(id)[before.len() as int] == id);
    }
}

/// Every device that the sections are about, with all its sections read.
fn read_devices(sections: &Vec<Section>) -> (r: Vec<DeviceConfig>)
    ensures
        device_views(r@) == all_devices(outside::section_views(sections@)),
{
    let ghost all = outside::section_views(sections@);
    let ghost ids = device_ids(all);
    let mut devices: Vec<DeviceConfig> = collect_devices(sections);
    let mut i: usize = 0;
    proof {
        assert(all.take(0) =~= seq![]);
        lemma_ids_distinct(all);
    }
    while i < sections.len()
        invariant
            i <= sections@.len(),
            all == outside::section_views(sections@),
            ids == device_ids(all),
            ids.no_duplicates(),
            devices@.len() == ids.len(),
            forall|j: int|
                0 <= j < devices@.len() ==> (#[trigger] devices@[j])@ == DeviceView::read(
                    ids[j],
                    all.take(i as int),
                ),
        decreases sections@.len() - i,
    {
        let ghost before = devices@;
        proof {
            assert(all.take(i + 1).drop_last() =~= all.take(i as int));
            assert(all.take(i + 1).last() == all[i as int]);
            assert forall|j: int| 0 <= j < before.len() implies (#[trigger] before[j]).id@
                == ids[j] by {
                assert(before[j]@ == DeviceView::read(ids[j], all.take(i as int)));
                lemma_read_keeps_id(ids[j], all.take(i as int));
            }
        }
        if let Some((id, part)) = split_device_part(sections[i].name.as_str()) {
            match position(&devices, id.as_str()) {
                Some(k) => {
                    devices[k].update(&part, &sections[i].entries);
                    assert forall|j: int| 0 <= j < devices@.len() implies (
                    #[trigger] devices@[j])@ == DeviceView::read(ids[j], all.take(i + 1)) by {
                        if j != k {
                            assert(devices@[j] == before[j]);
                            assert(ids[j] != ids[k as int]);
                        }
                    }
                },
                None => {
                    proof {
                        lemma_id_listed(all, i as int, id@);
                        let j = choose|j: int| 0 <= j < ids.len() && ids[j] == id@;
                        assert(before[j].id@ == ids[j]);
                    }
                },
            }
        }
        i += 1;
    }
    proof {
        assert(all.take(i as int) =~= all);
        assert(device_views(devices@) =~= all_devices(all));
    }
    devices
}

/// Leaves out the devices that the file does not say how to recognise.
fn keep_identified(devices: Vec<DeviceConfig>) -> (r: Vec<DeviceConfig>)
    ensures
        device_views(r@) == identified_only(device_views(devices@)),
{
    let ghost all = device_views(devices@);
    let mut out: Vec<DeviceConfig> = Vec::new();
    let mut i: usize = 0;
    assert(all.take(0) =~= seq![]);
    assert(device_views(out@) =~= seq![]);
    while i < devices.len()
        invariant
            i <= devices@.len(),
            all == device_views(devices@),
            device_views(out@) == identified_only(all.take(i as int)),
        decreases devices@.len() - i,
    {
        assert(all.take(i + 1).drop_last() =~= all.take(i as int));
        if devices[i].name.is_some() || devices[i].uniq.is_some() {
            let ghost before = out@;
            let dev: DeviceConfig = devices[i].clone();
            out.push(dev);
            assert(device_views(out@) =~= device_views(before).push(dev@));
        }
        i += 1;
    }
    assert(all.take(i as int) =~= all);
    out
}

/// What comes of the sections of a file: a configuration, or the refusal of
/// the format without device names.
pub open spec fn loads(sections: SectionList, result: Result<Config, LoadError>) -> bool {
    match result {
        Ok(config) => !old_format(sections) && config@ == ConfigView::read(sections),
        Err(e) => old_format(sections) && e == LoadError::OldFormat,
    }
}

/// What comes of the text of a file: what comes of its sections, or the
/// parser's message where it has none.
pub open spec fn loads_text(text: Seq<char>, result: Result<Config, LoadError>) -> bool {
    match outside::ini_sections(text) {
        Ok(sections) => loads(sections, result),
        Err(why) => match result {
            Err(LoadError::Read(e)) => e@ == why,
            _ => false,
        },
    }
}

impl Config {
    /// Reads the sections of a file.
    pub fn from_sections(sections: &Vec<Section>) -> (r: Result<Self, LoadError>)
        ensures
            loads(outside::section_views(sections@), r),
    {
        if has_old_section(sections) {
            return Err(LoadError::OldFormat);
        }
        let mut config: Config = Config::default();
        if let Some(s) = find_section(sections, "settings") {
            let s: &Vec<(String, Option<String>)> = &s.entries;
            config.debounce_ms = number_setting(get(s, "debounce_ms"), config.debounce_ms);
            config.long_press_ms = number_setting(get(s, "long_press_ms"), config.long_press_ms);
            config.repeat_ms = number_setting(get(s, "repeat_ms"), config.repeat_ms);
            if let Some(v) = get(s, "log_buttons") {
                config.log_buttons = parse_bool(v);
            }
            if let Some(v) = get(s, "keep_awake") {
                config.keep_awake = parse_bool(v);
            }
            config.on_connect = text_setting(get(s, "on_connect"));
            config.on_disconnect = text_setting(get(s, "on_disconnect"));
        }
        config.devices = keep_identified(read_devices(sections));
        Ok(config)
    }

    /// Reads the text of a configuration file.
    pub fn load(text: &str) -> (r: Result<Self, LoadError>)
        ensures
            loads_text(text@, r),
    {
        match outside::read_ini(text) {
            Ok(sections) => Config::from_sections(&sections),
            Err(why) => Err(LoadError::Read(why)),
        }
    }
}

} // verus!
