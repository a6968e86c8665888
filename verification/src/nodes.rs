//! Input device nodes: which is which, and how a missing one is made.

use crate::input;
use crate::outside;
use crate::text;
use vstd::prelude::*;
use vstd::slice::*;
use vstd::string::*;
use vstd::utf8::*;

verus! {

pub const DEV_INPUT: &'static str = "/dev/input";

pub const SYSFS_INPUT: &'static str = "/sys/devices/virtual/input";

pub const UINPUT_DEV: &'static str = "/dev/uinput";

/// The bus of what is built into the machine.
pub const BUS_HOST: u16 = 0x19;

/// The property of a surface that is touched where the image is.
pub const INPUT_PROP_DIRECT: u16 = 0x01;

pub const KEY_A: u16 = 30;

pub const ABS_MT_POSITION_X: u16 = 0x35;

pub const ABS_MT_POSITION_Y: u16 = 0x36;

/// The largest values of a panel's axes.
#[derive(Debug, Clone, Copy, PartialEq, Eq, Structural)]
pub struct AxisLimits {
    pub max_x: i32,
    pub max_y: i32,
    /// Of the size of a contact.
    pub max_touch: i32,
}

/// What an opened input device says of itself.
#[derive(Debug)]
pub struct InputDevice {
    pub name: Option<String>,
    pub bus_type: u16,
    pub properties: Vec<u16>,
    /// The codes of its keys, where it has any.
    pub keys: Option<Vec<u16>>,
    /// The codes of its absolute axes, where it has any.
    pub axes: Option<Vec<u16>>,
    /// The limits of its multitouch axes, where they could be read.
    pub limits: Option<AxisLimits>,
}

/// An entry of the directory of input devices.
#[derive(Debug)]
pub struct Candidate {
    pub file: String,
    /// What stands behind it, where it could be opened.
    pub device: Option<InputDevice>,
}

impl InputDevice {
    /// The device is the virtual keyboard itself.
    pub open spec fn own(&self) -> bool {
        self.name matches Some(name) && name@ == input::DEV_NAME@
    }

    pub open spec fn has_key(&self, code: u16) -> bool {
        self.keys matches Some(keys) && keys@.contains(code)
    }

    pub open spec fn has_axis(&self, code: u16) -> bool {
        self.axes matches Some(axes) && axes@.contains(code)
    }

    /// A real panel: absolute multitouch coordinates on a device that is
    /// touched directly, and not the virtual keyboard.
    pub open spec fn touchscreen(&self) -> bool {
        &&& !self.own()
        &&& self.properties@.contains(INPUT_PROP_DIRECT)
        &&& self.has_axis(ABS_MT_POSITION_X)
        &&& self.has_axis(ABS_MT_POSITION_Y)
    }

    /// The reader's own page buttons: built in, with page keys, and no
    /// keyboard.
    pub open spec fn page_buttons(&self) -> bool {
        &&& !self.own()
        &&& self.bus_type == BUS_HOST
        &&& self.has_key(input::KEY_PAGEUP)
        &&& self.has_key(input::KEY_PAGEDOWN)
        &&& !self.has_key(KEY_A)
    }

    fn is_own(&self) -> (r: bool)
        ensures
            r == self.own(),
    {
        match &self.name {
            Some(name) => text::same(name.as_str(), input::DEV_NAME),
            None => false,
        }
    }
}

fn lists(codes: &Vec<u16>, code: u16) -> (r: bool)
    ensures
        r == codes@.contains(code),
{
    let mut i: usize = 0;
    while i < codes.len()
        invariant
            i <= codes@.len(),
            forall|j: int| 0 <= j < i ==> codes@[j] != code,
        decreases codes@.len() - i,
    {
        if codes[i] == code {
            return true;
        }
        i += 1;
    }
    false
}

/// A real panel: absolute multitouch coordinates on a device you touch
/// directly, and not something we made ourselves.
///
/// INPUT_PROP_DIRECT is the check that matters, not the bus. Panels do not sit
/// on BUS_HOST the way the page buttons do — the Paperwhite 4's goodix-ts is
/// BUS_I2C — while a trackpad or a gamepad carries absolute axes without ever
/// claiming to be the surface under the image.
pub fn is_touchscreen(dev: &InputDevice) -> (r: bool)
    ensures
        r == dev.touchscreen(),
{
    if dev.is_own() || !lists(&dev.properties, INPUT_PROP_DIRECT) {
        return false;
    }
    match &dev.axes {
        Some(axes) => lists(axes, ABS_MT_POSITION_X) && lists(axes, ABS_MT_POSITION_Y),
        None => false,
    }
}

/// Built into the device, so a paired keyboard or gamepad that happens to
/// carry page keys is never mistaken for the reader's own buttons.
pub fn is_page_buttons(dev: &InputDevice) -> (r: bool)
    ensures
        r == dev.page_buttons(),
{
    if dev.is_own() || dev.bus_type != BUS_HOST {
        return false;
    }
    match &dev.keys {
        Some(keys) => lists(keys, input::KEY_PAGEUP) && lists(keys, input::KEY_PAGEDOWN) && !lists(
            keys,
            KEY_A,
        ),
        None => false,
    }
}

/// The name of an event node.
pub open spec fn event_file(file: Seq<char>) -> bool {
    "event"@.is_prefix_of(file)
}

/// What a node is wanted for.
#[derive(Debug, Clone, Copy, PartialEq, Eq, Structural)]
pub enum Role {
    /// To turn pages with the page buttons.
    PageButtons,
    /// To turn pages with a swipe.
    Touchscreen,
}

impl Candidate {
    /// The candidate can be used for a role: an event node of the right kind
    /// and, for a swipe, with a geometry.
    pub open spec fn eligible(&self, role: Role) -> bool {
        &&& event_file(self.file@)
        &&& self.device matches Some(dev) && match role {
            Role::PageButtons => dev.page_buttons(),
            Role::Touchscreen => dev.touchscreen() && (dev.limits matches Some(l) && l.max_x > 0
                && l.max_y > 0),
        }
    }

    fn is_eligible(&self, role: Role) -> (r: bool)
        ensures
            r == self.eligible(role),
    {
        if !is_event_file(self.file.as_str()) {
            return false;
        }
        match &self.device {
            None => false,
            Some(dev) => match role {
                Role::PageButtons => is_page_buttons(dev),
                Role::Touchscreen => is_touchscreen(dev) && match dev.limits {
                    Some(l) => l.max_x > 0 && l.max_y > 0,
                    None => false,
                },
            },
        }
    }
}

/// One text comes before another in the order of their characters.
pub open spec fn precedes(a: Seq<char>, b: Seq<char>) -> bool
    decreases a.len(),
{
    if b.len() == 0 {
        false
    } else if a.len() == 0 {
        true
    } else if a[0] != b[0] {
        a[0] < b[0]
    } else {
        precedes(a.skip(1), b.skip(1))
    }
}

proof fn lemma_precedes_one_way(a: Seq<char>, b: Seq<char>)
    ensures
        !(precedes(a, b) && precedes(b, a)),
        precedes(a, b) || precedes(b, a) || a == b,
    decreases a.len(),
{
    if a.len() > 0 && b.len() > 0 {
        if a[0] == b[0] {
            lemma_precedes_one_way(a.skip(1), b.skip(1));
            if a.skip(1) == b.skip(1) {
                assert(a =~= seq![a[0]] + a.skip(1));
                assert(b =~= seq![b[0]] + b.skip(1));
            }
        }
    } else if a.len() == 0 && b.len() == 0 {
        assert(a =~= b);
    }
}

proof fn lemma_precedes_chain(a: Seq<char>, b: Seq<char>, c: Seq<char>)
    requires
        precedes(a, b),
        precedes(b, c),
    ensures
        precedes(a, c),
    decreases a.len(),
{
    if a.len() > 0 && a[0] == b[0] && b[0] == c[0] {
        lemma_precedes_chain(a.skip(1), b.skip(1), c.skip(1));
    }
}

fn comes_before(a: &str, b: &str) -> (r: bool)
    ensures
        r == precedes(a@, b@),
{
    let x: Vec<char> = text::chars_of(a);
    let y: Vec<char> = text::chars_of(b);
    let mut i: usize = 0;
    assert(a@.skip(0) =~= a@);
    assert(b@.skip(0) =~= b@);
    while i < x.len() && i < y.len()
        invariant
            i <= x@.len(),
            i <= y@.len(),
            x@ == a@,
            y@ == b@,
            precedes(a@.skip(i as int), b@.skip(i as int)) == precedes(a@, b@),
        decreases x@.len() - i,
    {
        let ghost p = a@.skip(i as int);
        let ghost q = b@.skip(i as int);
        if x[i] != y[i] {
            return x[i] < y[i];
        }
        assert(p.skip(1) =~= a@.skip(i + 1));
        assert(q.skip(1) =~= b@.skip(i + 1));
        i += 1;
    }
    i < y.len()
}

/// Candidate `i` is the one to use for a role: it is eligible, and its name
/// comes before that of every other that is. Of two with the same name the
/// first counts.
pub open spec fn first_for(candidates: Seq<Candidate>, role: Role, i: int) -> bool {
    &&& 0 <= i < candidates.len()
    &&& candidates[i].eligible(role)
    &&& forall|j: int|
        0 <= j < candidates.len() && j != i && (#[trigger] candidates[j]).eligible(role)
            ==> precedes(candidates[i].file@, candidates[j].file@) || (candidates[i].file@
            == candidates[j].file@ && i < j)
}

/// No candidate can be used for a role.
pub open spec fn none_for(candidates: Seq<Candidate>, role: Role) -> bool {
    forall|j: int| 0 <= j < candidates.len() ==> !(#[trigger] candidates[j]).eligible(role)
}

/// Picks the candidate to use for a role.
pub fn pick(candidates: &Vec<Candidate>, role: Role) -> (r: Option<usize>)
    ensures
        match r {
            Some(i) => first_for(candidates@, role, i as int),
            None => none_for(candidates@, role),
        },
{
    let mut best: Option<usize> = None;
    let mut i: usize = 0;
    while i < candidates.len()
        invariant
            i <= candidates@.len(),
            match best {
                Some(k) => k < i && first_for(candidates@.take(i as int), role, k as int),
                None => none_for(candidates@.take(i as int), role),
            },
        decreases candidates@.len() - i,
    {
        let ghost seen = candidates@.take(i as int);
        let ghost now = candidates@.take(i + 1);
        assert(forall|j: int| 0 <= j < i ==> now[j] == #[trigger] seen[j]);
        assert(now[i as int] == candidates@[i as int]);
        if candidates[i].is_eligible(role) {
            match best {
                None => {
                    proof {
                        assert forall|j: int| 0 <= j < now.len() && j != i && (
                        #[trigger] now[j]).eligible(role) implies false by {
                            assert(!seen[j].eligible(role));
                        }
                    }
                    best = Some(i);
                },
                Some(k) => {
                    let newer: bool = comes_before(
                        candidates[i].file.as_str(),
                        candidates[k].file.as_str(),
                    );
                    proof {
                        lemma_precedes_one_way(
                            candidates@[i as int].file@,
                            candidates@[k as int].file@,
                        );
                        assert(seen[k as int] == now[k as int]);
                        if newer {
                            assert forall|j: int| 0 <= j < now.len() && j != i && (
                            #[trigger] now[j]).eligible(role) implies precedes(
                                now[i as int].file@,
                                now[j].file@,
                            ) by {
                                assert(seen[j].eligible(role));
                                if j != k && seen[k as int].file@ != seen[j].file@ {
                                    lemma_precedes_chain(
                                        now[i as int].file@,
                                        now[k as int].file@,
                                        now[j].file@,
                                    );
                                }
                            }
                        } else {
                            assert forall|j: int| 0 <= j < now.len() && j != k && (
                            #[trigger] now[j]).eligible(role) implies precedes(
                                now[k as int].file@,
                                now[j].file@,
                            ) || (now[k as int].file@ == now[j].file@ && k < j) by {
                                if j < i {
                                    assert(seen[j].eligible(role));
                                }
                            }
                        }
                    }
                    if newer {
                        best = Some(i);
                    }
                },
            }
        } else {
            proof {
                match best {
                    None => {
                        assert forall|j: int| 0 <= j < now.len() implies !(
                        #[trigger] now[j]).eligible(role) by {
                            if j < i {
                                assert(!seen[j].eligible(role));
                            }
                        }
                    },
                    Some(k) => {
                        assert(seen[k as int] == now[k as int]);
                        assert forall|j: int| 0 <= j < now.len() && j != k && (
                        #[trigger] now[j]).eligible(role) implies precedes(
                            now[k as int].file@,
                            now[j].file@,
                        ) || (now[k as int].file@ == now[j].file@ && k < j) by {
                            assert(seen[j].eligible(role));
                        }
                    },
                }
            }
        }
        i += 1;
    }
    assert(candidates@.take(i as int) =~= candidates@);
    best
}

/// At most one candidate is the one to use.
pub proof fn law_pick_is_unique(candidates: Seq<Candidate>, role: Role, i: int, j: int)
    requires
        first_for(candidates, role, i),
        first_for(candidates, role, j),
    ensures
        i == j,
{
    if i != j {
        lemma_precedes_one_way(candidates[i].file@, candidates[j].file@);
    }
}

/// The virtual keyboard is never taken for the panel or the page buttons.
pub proof fn law_own_device_is_never_picked(candidates: Seq<Candidate>, role: Role, i: int)
    requires
        first_for(candidates, role, i),
    ensures
        candidates[i].device matches Some(dev) && !dev.own(),
{
}

/// The path of an entry of a directory.
pub open spec fn joined(dir: Seq<char>, file: Seq<char>) -> Seq<char> {
    if dir.len() == 0 || dir.last() == '/' {
        dir + file
    } else {
        dir + seq!['/'] + file
    }
}

/// The path of an entry of a directory.
pub fn join(dir: &str, file: &str) -> (r: String)
    ensures
        r@ == joined(dir@, file@),
{
    let mut out: String = dir.to_owned();
    let n: usize = dir.unicode_len();
    if n > 0 && dir.get_char(n - 1) != '/' {
        proof {
            reveal_strlit("/");
        }
        assert("/"@ =~= seq!['/']);
        out.append("/");
    }
    out.append(file);
    out
}

/// The node of the page buttons.
pub fn page_button_node(candidates: &Vec<Candidate>) -> (r: Option<String>)
    ensures
        match r {
            Some(path) => exists|i: int| #[trigger]
                first_for(candidates@, Role::PageButtons, i) && path@ == joined(
                    DEV_INPUT@,
                    candidates@[i].file@,
                ),
            None => none_for(candidates@, Role::PageButtons),
        },
{
    match pick(candidates, Role::PageButtons) {
        Some(i) => Some(join(DEV_INPUT, candidates[i].file.as_str())),
        None => None,
    }
}

/// The bytes before the first zero.
pub open spec fn before_zero(s: Seq<u8>) -> Seq<u8>
    decreases s.len(),
{
    if s.len() == 0 || s[0] == 0 {
        seq![]
    } else {
        seq![s[0]] + before_zero(s.skip(1))
    }
}

/// The bytes of the device name in a buffer of which the kernel filled `len`
/// bytes.
pub open spec fn sysname_bytes(buf: Seq<u8>, len: nat) -> Seq<u8> {
    before_zero(
        buf.take(
            if len < buf.len() {
                len as int
            } else {
                buf.len() as int
            },
        ),
    )
}

/// The device name in a buffer of which the kernel filled `len` bytes.
pub open spec fn sysname_of(buf: Seq<u8>, len: nat) -> Option<Seq<char>> {
    let bytes = sysname_bytes(buf, len);
    if valid_utf8(bytes) {
        Some(decode_utf8(bytes))
    } else {
        None
    }
}

proof fn lemma_before_zero(s: Seq<u8>, n: int)
    requires
        0 <= n <= s.len(),
        forall|i: int| 0 <= i < n ==> #[trigger] s[i] != 0,
        n < s.len() ==> s[n] == 0,
    ensures
        before_zero(s) == s.take(n),
    decreases s.len(),
{
    if n > 0 {
        let t = s.skip(1);
        assert forall|i: int| 0 <= i < n - 1 implies #[trigger] t[i] != 0 by {
            assert(t[i] == s[i + 1]);
        }
        lemma_before_zero(t, n - 1);
        assert(seq![s[0]] + t.take(n - 1) =~= s.take(n));
    } else {
        assert(s.take(0) =~= seq![]);
    }
}

/// Reads the device name in a buffer of which the kernel filled `len` bytes.
/// Where the bytes are not text, hands them back.
pub fn sysname(buf: &[u8], len: usize) -> (r: Result<String, Vec<u8>>)
    ensures
        match r {
            Ok(name) => sysname_of(buf@, len as nat) == Some(name@),
            Err(bytes) => sysname_of(buf@, len as nat) is None && bytes@ == sysname_bytes(
                buf@,
                len as nat,
            ),
        },
{
    let filled: usize = if len < buf.len() {
        len
    } else {
        buf.len()
    };
    let mut end: usize = 0;
    while end < filled && buf[end] != 0
        invariant
            end <= filled <= buf@.len(),
            forall|i: int| 0 <= i < end ==> buf@[i] != 0,
        decreases filled - end,
    {
        end += 1;
    }
    let bytes: &[u8] = slice_subrange(buf, 0, end);
    proof {
        let all = buf@.take(filled as int);
        lemma_before_zero(all, end as int);
        assert(bytes@ =~= all.take(end as int));
    }
    match outside::utf8_text(bytes) {
        Some(name) => Ok(name.to_owned()),
        None => Err(slice_to_vec(bytes)),
    }
}

/// The node of the virtual keyboard.
#[derive(Debug)]
pub struct DevNode {
    /// The event node.
    pub path: String,
    /// What the kernel says of it.
    pub sysfs: String,
}

/// Entry `i` is the first event node of a list.
pub open spec fn first_event(entries: Seq<String>, i: int) -> bool {
    &&& 0 <= i < entries.len()
    &&& event_file(entries[i]@)
    &&& forall|j: int| 0 <= j < i ==> !event_file((#[trigger] entries[j])@)
}

/// The node of the virtual keyboard is the first event node of its directory,
/// or there is none.
pub open spec fn node_among(
    sysdir: Seq<char>,
    entries: Seq<String>,
    result: Result<DevNode, String>,
) -> bool {
    match result {
        Ok(node) => exists|i: int| #[trigger]
            first_event(entries, i) && node.path@ == joined(DEV_INPUT@, entries[i]@)
                && node.sysfs@ == joined(sysdir, entries[i]@),
        Err(why) => why@ == "no event node under "@ + sysdir && forall|i: int|
            0 <= i < entries.len() ==> !event_file((#[trigger] entries[i])@),
    }
}

/// Finds the node of the virtual keyboard among the entries of its directory,
/// in their order, or says that there is none.
pub fn dev_node(sysdir: &str, entries: &Vec<String>) -> (r: Result<DevNode, String>)
    ensures
        node_among(sysdir@, entries@, r),
{
    let mut i: usize = 0;
    while i < entries.len()
        invariant
            i <= entries@.len(),
            forall|j: int| 0 <= j < i ==> !event_file((#[trigger] entries@[j])@),
        decreases entries@.len() - i,
    {
        if is_event_file(entries[i].as_str()) {
            assert(first_event(entries@, i as int));
            return Ok(
                DevNode {
                    path: join(DEV_INPUT, entries[i].as_str()),
                    sysfs: join(sysdir, entries[i].as_str()),
                },
            );
        }
        i += 1;
    }
    let mut why: String = "no event node under ".to_owned();
    why.append(sysdir);
    Err(why)
}

/// Whether a directory entry is an event node.
pub fn is_event_file(file: &str) -> (r: bool)
    ensures
        r == event_file(file@),
{
    text::has_prefix(file, "event")
}

/// A command to run.
#[derive(Debug, PartialEq)]
pub struct Command {
    pub program: String,
    pub args: Vec<String>,
}

impl Command {
    /// The program and its arguments are these.
    pub open spec fn says(&self, program: Seq<char>, args: Seq<Seq<char>>) -> bool {
        self.program@ == program && text::views(self.args@) == args
    }
}

/// What came of a command.
#[derive(Debug)]
pub enum CommandResult {
    /// It could not be started.
    NotStarted(String),
    /// It ended, with an exit code unless a signal ended it.
    Exited { success: bool, code: Option<i32> },
}

/// What to do about a device node.
#[derive(Debug)]
pub enum NodeStep {
    /// Nothing: the node is there.
    Ready,
    /// Run the command, and see what comes of it.
    Run(Command),
    /// Run the command, and whatever comes of it the node is there.
    Finish(Command),
    /// The node cannot be made.
    Failed(String),
}

/// What to do about an event node.
#[derive(Debug)]
pub enum EventNodeStep {
    /// What is done about any node.
    Node(NodeStep),
    /// Read what the kernel states the device numbers as.
    ReadNumbers,
    /// The kernel's statement has no device numbers in it.
    BadNumbers,
}

fn mknod(path: &str, major: &str, minor: &str) -> (r: Command)
    ensures
        r.says("mknod"@, seq![path@, "c"@, major@, minor@]),
{
    let args: Vec<String> = vec![
        path.to_owned(),
        "c".to_owned(),
        major.to_owned(),
        minor.to_owned(),
    ];
    assert(text::views(args@) =~= seq![path@, "c"@, major@, minor@]);
    Command { program: "mknod".to_owned(), args }
}

fn chmod(path: &str) -> (r: Command)
    ensures
        r.says("chmod"@, seq!["600"@, path@]),
{
    let args: Vec<String> = vec!["600".to_owned(), path.to_owned()];
    assert(text::views(args@) =~= seq!["600"@, path@]);
    Command { program: "chmod".to_owned(), args }
}

/// The exit code of a command, where a signal that ended it counts as -1.
pub open spec fn code_or(code: Option<i32>) -> int {
    match code {
        Some(c) => c as int,
        None => -1,
    }
}

/// What is done about the uinput node.
pub open spec fn uinput_step(exists: bool, made: Option<CommandResult>, step: NodeStep) -> bool {
    if exists {
        step is Ready
    } else {
        match made {
            None => step matches NodeStep::Run(c) && c.says(
                "mknod"@,
                seq![UINPUT_DEV@, "c"@, "10"@, "223"@],
            ),
            Some(CommandResult::NotStarted(why)) => step matches NodeStep::Failed(w) && w@
                == "mknod missing: "@ + why@,
            Some(CommandResult::Exited { success, code }) => if success {
                step matches NodeStep::Finish(c) && c.says("chmod"@, seq!["600"@, UINPUT_DEV@])
            } else {
                step matches NodeStep::Failed(w) && w@ == "mknod exit "@ + text::signed_decimal(
                    code_or(code),
                )
            },
        }
    }
}

/// Decides about the uinput node, which a kernel with the driver built in may
/// have without a node for it: whether the node exists and, once it has been
/// run, what came of making it.
pub fn ensure_uinput_node(exists: bool, made: &Option<CommandResult>) -> (r: NodeStep)
    ensures
        uinput_step(exists, *made, r),
{
    if exists {
        return NodeStep::Ready;
    }
    match made {
        None => NodeStep::Run(mknod(UINPUT_DEV, "10", "223")),
        Some(CommandResult::NotStarted(why)) => {
            let mut w: String = "mknod missing: ".to_owned();
            w.append(why.as_str());
            NodeStep::Failed(w)
        },
        Some(CommandResult::Exited { success, code }) => if *success {
            NodeStep::Finish(chmod(UINPUT_DEV))
        } else {
            let mut w: String = "mknod exit ".to_owned();
            w.append(exit_text(*code).as_str());
            NodeStep::Failed(w)
        },
    }
}

fn exit_text(code: Option<i32>) -> (r: String)
    ensures
        r@ == text::signed_decimal(code_or(code)),
{
    match code {
        Some(c) => text::to_signed_decimal(c),
        None => text::to_signed_decimal(-1),
    }
}

/// The device numbers that the kernel states as `MAJOR:MINOR`.
pub open spec fn device_numbers(dev: Seq<char>) -> Option<(Seq<char>, Seq<char>)> {
    text::cut(text::trimmed(dev), ':')
}

/// What is done about an event node.
pub open spec fn event_step(
    path: Seq<char>,
    exists: bool,
    dev: Option<String>,
    made: Option<CommandResult>,
    step: EventNodeStep,
) -> bool {
    match (dev, made) {
        (None, _) => if exists {
            step matches EventNodeStep::Node(NodeStep::Ready)
        } else {
            step is ReadNumbers
        },
        (Some(dev), None) => match device_numbers(dev@) {
            Some((major, minor)) => step matches EventNodeStep::Node(NodeStep::Run(c)) && c.says(
                "mknod"@,
                seq![path, "c"@, major, minor],
            ),
            None => step is BadNumbers,
        },
        (Some(_), Some(CommandResult::NotStarted(why))) => step matches EventNodeStep::Node(
            NodeStep::Failed(w),
        ) && w@ == why@,
        (Some(_), Some(CommandResult::Exited { success, code })) => if success || exists {
            step matches EventNodeStep::Node(NodeStep::Finish(c)) && c.says(
                "chmod"@,
                seq!["600"@, path],
            )
        } else {
            step matches EventNodeStep::Node(NodeStep::Failed(w)) && w@ == "mknod "@ + path
                + " exit "@ + text::signed_decimal(code_or(code))
        },
    }
}

/// Decides about an event node: whether the node exists now, what the kernel
/// states its device numbers as, once that has been read, and what came of
/// making it, once that has been tried.
///
/// devtmpfs can beat us to the node between the first look and the command
/// that makes it, and that failure is not one worth losing the keyboard over.
pub fn ensure_event_node(
    path: &str,
    exists: bool,
    dev: &Option<String>,
    made: &Option<CommandResult>,
) -> (r: EventNodeStep)
    ensures
        event_step(path@, exists, *dev, *made, r),
{
    match (dev, made) {
        (None, _) => if exists {
            EventNodeStep::Node(NodeStep::Ready)
        } else {
            EventNodeStep::ReadNumbers
        },
        (Some(dev), None) => match text::split_once(text::trim(dev.as_str()), ':') {
            Some((major, minor)) => EventNodeStep::Node(
                NodeStep::Run(mknod(path, major.as_str(), minor.as_str())),
            ),
            None => EventNodeStep::BadNumbers,
        },
        (Some(_), Some(CommandResult::NotStarted(why))) => EventNodeStep::Node(
            NodeStep::Failed(why.clone()),
        ),
        (Some(_), Some(CommandResult::Exited { success, code })) => if *success || exists {
            EventNodeStep::Node(NodeStep::Finish(chmod(path)))
        } else {
            let mut w: String = "mknod ".to_owned();
            w.append(path);
            w.append(" exit ");
            w.append(exit_text(*code).as_str());
            EventNodeStep::Node(NodeStep::Failed(w))
        },
    }
}

} // verus!
