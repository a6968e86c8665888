//! Key injection: requests by name, page turns, and keys passed through.

use crate::config;
use crate::input;
use crate::input::Emit;
use crate::nodes;
use crate::nodes::{Candidate, Role};
use crate::text;
use crate::touch::Touchscreen;
use vstd::prelude::*;

verus! {

/// The device the reader takes page turns from.
///
/// Kindles with physical page buttons carry them on their own node, and the
/// framework only turns pages for that node, ignoring page keys from any
/// keyboard. Writing to an evdev node injects into the device itself, so a
/// page turn goes in as if the button had been pressed.
///
/// Models without the buttons get a swipe across the touchscreen. The native
/// reader ignores keys entirely — measured on a Paperwhite 4 running 5.18,
/// where fourteen different keycodes were injected, verified to reach a
/// properly tagged keyboard node, and not one moved the page.
///
/// A swipe rather than a tap because a tap is a stationary contact: two in
/// quick succession read as a double tap and a slow one as a long press,
/// either of which selects a word and opens the dictionary instead of turning
/// the page. A moving contact can be neither.
#[derive(Debug)]
pub enum Pager {
    /// The page buttons, and whether their node is held open.
    Buttons { path: String, open: bool },
    /// The panel.
    Touchscreen(Touchscreen),
    /// Neither was found.
    VirtualKeyboard,
}

/// How a page is turned.
#[derive(Debug)]
pub enum Turn {
    /// On a node of its own, which has to be opened first or is held open.
    Node { path: String, open_first: bool, emits: Vec<Emit> },
    /// On the virtual keyboard.
    Keyboard { emits: Vec<Emit> },
    /// Not at all: there is no virtual keyboard.
    NoKeyboard,
}

/// What came of turning a page on a node.
#[derive(Debug, Clone, Copy, PartialEq, Eq, Structural)]
pub enum Turned {
    /// The node could not be opened.
    OpenFailed,
    /// The node could not be written to.
    WriteFailed,
    /// The page was turned.
    Done,
}

impl Pager {
    /// A swipe, where it takes one, can be computed.
    pub open spec fn turnable(&self) -> bool {
        self matches Pager::Touchscreen(touch) ==> touch.swipeable()
    }

    /// Whether a swipe, where it takes one, can be computed.
    pub fn is_turnable(&self) -> (r: bool)
        ensures
            r == self.turnable(),
    {
        match self {
            Pager::Touchscreen(touch) => touch.is_swipeable(),
            _ => true,
        }
    }

    /// What pages are turned with is the page buttons where there are any, else
    /// the panel where there is one, else the virtual keyboard.
    pub open spec fn found_among(&self, candidates: Seq<Candidate>) -> bool {
        match self {
            Pager::Buttons { path, open } => !*open && exists|i: int| #[trigger]
                nodes::first_for(candidates, Role::PageButtons, i) && path@ == nodes::joined(
                    nodes::DEV_INPUT@,
                    candidates[i].file@,
                ),
            Pager::Touchscreen(touch) => nodes::none_for(candidates, Role::PageButtons)
                && exists|i: int| #[trigger]
                nodes::first_for(candidates, Role::Touchscreen, i) && touch.behind(candidates[i]),
            Pager::VirtualKeyboard => nodes::none_for(candidates, Role::PageButtons)
                && nodes::none_for(candidates, Role::Touchscreen),
        }
    }

    /// Finds what to turn pages with: the page buttons, else the panel, else
    /// the virtual keyboard.
    pub fn find(candidates: &Vec<Candidate>) -> (r: Self)
        ensures
            r.found_among(candidates@),
    {
        if let Some(path) = nodes::page_button_node(candidates) {
            return Pager::Buttons { path, open: false };
        }
        match Touchscreen::find(candidates) {
            Some(touch) => Pager::Touchscreen(touch),
            None => Pager::VirtualKeyboard,
        }
    }

    /// How a page turn goes: a page button's code on the page buttons, a swipe
    /// on the panel, and a key's code on the virtual keyboard.
    pub open spec fn turns(
        &self,
        keyboard: bool,
        button_code: u16,
        kbd_code: u16,
        forward: bool,
        turn: Turn,
    ) -> bool {
        match self {
            Pager::Buttons { path, open } => turn matches Turn::Node {
                path: p,
                open_first,
                emits,
            } && p@ == path@ && open_first == !*open && emits@ == input::tap_of(button_code),
            Pager::Touchscreen(touch) => turn matches Turn::Node { path: p, open_first, emits }
                && p@ == touch.path@ && open_first == !touch.open && emits@ == touch.swipe_of(
                forward,
            ),
            Pager::VirtualKeyboard => if keyboard {
                turn matches Turn::Keyboard { emits } && emits@ == input::tap_of(kbd_code)
            } else {
                turn is NoKeyboard
            },
        }
    }

    /// Decides how a page turn goes.
    pub fn turn(&self, keyboard: bool, button_code: u16, kbd_code: u16, forward: bool) -> (r: Turn)
        requires
            self.turnable(),
        ensures
            self.turns(keyboard, button_code, kbd_code, forward, r),
    {
        match self {
            Pager::Buttons { path, open } => Turn::Node {
                path: path.clone(),
                open_first: !*open,
                emits: input::tap(button_code),
            },
            Pager::Touchscreen(touch) => Turn::Node {
                path: touch.path.clone(),
                open_first: !touch.open,
                emits: touch.swipe(forward),
            },
            Pager::VirtualKeyboard => if keyboard {
                Turn::Keyboard { emits: input::tap(kbd_code) }
            } else {
                Turn::NoKeyboard
            },
        }
    }

    /// The pager with its node held open or not.
    pub open spec fn with_open(&self, held: bool) -> Self {
        match self {
            Pager::Buttons { path, open } => Pager::Buttons { path: *path, open: held },
            Pager::Touchscreen(touch) => Pager::Touchscreen(
                Touchscreen {
                    path: touch.path,
                    open: held,
                    max_x: touch.max_x,
                    max_y: touch.max_y,
                    touch_size: touch.touch_size,
                },
            ),
            Pager::VirtualKeyboard => Pager::VirtualKeyboard,
        }
    }

    /// Notes what came of turning a page on a node. After a failure the node is
    /// reopened next time, it may have gone away.
    pub fn turned(&mut self, outcome: Turned)
        ensures
            *final(self) == old(self).with_open(outcome is Done),
    {
        let done: bool = match outcome {
            Turned::Done => true,
            _ => false,
        };
        match self {
            Pager::Buttons { path, open } => {
                *open = done;
            },
            Pager::Touchscreen(touch) => {
                touch.open = done;
            },
            Pager::VirtualKeyboard => {},
        }
    }
}

/// A node is opened for a page turn exactly where the last turn on it failed
/// or there was none, and what is sent does not depend on that.
pub proof fn law_node_is_reopened_after_a_failure(
    pager: Pager,
    outcome: Turned,
    keyboard: bool,
    button_code: u16,
    kbd_code: u16,
    forward: bool,
    turn: Turn,
)
    requires
        pager.with_open(outcome is Done).turns(keyboard, button_code, kbd_code, forward, turn),
    ensures
        turn matches Turn::Node { path, open_first, emits } ==> open_first == !(outcome is Done),
        pager.turnable() == pager.with_open(outcome is Done).turnable(),
{
}

/// Shared by the FIFO thread and in-process callers.
#[derive(Debug)]
pub struct Injector {
    /// There is a uinput keyboard.
    pub keyboard: bool,
    pub pager: Pager,
}

/// What a request comes to.
#[derive(Debug)]
pub enum Injection {
    /// Nothing was asked for.
    Nothing,
    /// A page turn.
    Turn(Turn),
    /// A key typed on the virtual keyboard.
    Type { emits: Vec<Emit> },
    /// A key, but there is no virtual keyboard to type it on.
    NoKeyboard,
    /// Not a request that is known.
    UnknownKey,
}

/// The request is a page turn.
pub open spec fn page_request(line: Seq<char>) -> bool {
    line == "page_next"@ || line == "page_prev"@
}

impl Injector {
    /// What a request, without white space around it, comes to.
    pub open spec fn handles(&self, line: Seq<char>, injection: Injection) -> bool {
        if line.len() == 0 {
            injection is Nothing
        } else if line == "page_next"@ {
            injection matches Injection::Turn(turn) && self.pager.turns(
                self.keyboard,
                input::KEY_PAGEDOWN,
                input::KEY_DOWN,
                true,
                turn,
            )
        } else if line == "page_prev"@ {
            injection matches Injection::Turn(turn) && self.pager.turns(
                self.keyboard,
                input::KEY_PAGEUP,
                input::KEY_UP,
                false,
                turn,
            )
        } else {
            match config::key_of(line) {
                Some(key) => if self.keyboard {
                    injection matches Injection::Type { emits } && emits@ == input::tap_of(key.code)
                } else {
                    injection is NoKeyboard
                },
                None => injection is UnknownKey,
            }
        }
    }

    /// Whether a request, without white space around it, can be handled: only
    /// a page turn on a panel whose swipe cannot be computed is not.
    pub fn can_handle(&self, line: &str) -> (r: bool)
        ensures
            r == (page_request(line@) ==> self.pager.turnable()),
    {
        !(text::same(line, "page_next") || text::same(line, "page_prev"))
            || self.pager.is_turnable()
    }

    /// Decides what a request comes to.
    pub fn handle(&self, line: &str) -> (r: Injection)
        requires
            page_request(line@) ==> self.pager.turnable(),
        ensures
            self.handles(line@, r),
    {
        proof {
            reveal_strlit("page_next");
            reveal_strlit("page_prev");
        }
        if line.is_empty() {
            Injection::Nothing
        } else if text::same(line, "page_next") {
            Injection::Turn(
                self.pager.turn(self.keyboard, input::KEY_PAGEDOWN, input::KEY_DOWN, true),
            )
        } else if text::same(line, "page_prev") {
            Injection::Turn(self.pager.turn(self.keyboard, input::KEY_PAGEUP, input::KEY_UP, false))
        } else {
            match config::parse_key(line) {
                Some(key) => if self.keyboard {
                    Injection::Type { emits: input::tap(key.code) }
                } else {
                    Injection::NoKeyboard
                },
                None => Injection::UnknownKey,
            }
        }
    }
}

/// What injecting a request comes to: nothing where there is nothing to inject
/// into, else what the request, without white space around it, comes to.
pub open spec fn injects(
    injector: Option<Injector>,
    request: Seq<char>,
    result: Option<Injection>,
) -> bool {
    match injector {
        Some(i) => result matches Some(injection) && i.handles(text::trimmed(request), injection),
        None => result is None,
    }
}

/// Inject a key name, a key code, `page_next` or `page_prev`. None means there
/// is nothing to inject into, so the caller can fall back to a tap.
pub fn inject(injector: &Option<Injector>, request: &str) -> (r: Option<Injection>)
    requires
        injector matches Some(i) ==> page_request(text::trimmed(request@)) ==> i.pager.turnable(),
    ensures
        injects(*injector, request@, r),
{
    match injector {
        Some(i) => Some(i.handle(text::trim(request))),
        None => None,
    }
}

/// There is a uinput keyboard to emit into.
pub open spec fn has_keyboard(injector: Option<Injector>) -> bool {
    injector matches Some(i) && i.keyboard
}

/// What is emitted for a key that is passed through, if there is a keyboard.
pub open spec fn forwarded(
    injector: Option<Injector>,
    code: u16,
    value: i32,
) -> Option<Seq<Emit>> {
    if has_keyboard(injector) {
        Some(input::key_report(code, value))
    } else {
        None
    }
}

/// Whether there is a uinput keyboard to emit into at all. Passthrough is a
/// promise the daemon cannot keep without one.
pub fn available(injector: &Option<Injector>) -> (r: bool)
    ensures
        r == has_keyboard(*injector),
{
    match injector {
        Some(i) => i.keyboard,
        None => false,
    }
}

/// Re-emit a key the mapper grabbed but has no mapping for, so a device the
/// mapper owns exclusively still types. `value` is evdev's own: 1 press,
/// 0 release, 2 repeat. None means there is no uinput keyboard to emit into,
/// in which case the key is simply lost and the caller should say so.
pub fn forward(injector: &Option<Injector>, code: u16, value: i32) -> (r: Option<Vec<Emit>>)
    ensures
        match r {
            Some(emits) => forwarded(*injector, code, value) == Some(emits@),
            None => forwarded(*injector, code, value) is None,
        },
{
    if available(injector) {
        Some(input::report_key(code, value))
    } else {
        None
    }
}

/// Whether key injection is served.
#[derive(Debug, Clone, Copy, PartialEq, Eq, Structural)]
pub enum Served {
    /// There is nothing to inject into. The FIFO stays unopened, so key.sh
    /// fails and kindle.sh can fall back to a tap.
    Nothing,
    /// It already was.
    Already,
    /// It is from now on: the FIFO is to be opened.
    Open,
}

/// Whether key injection is served, and what it then injects into.
pub open spec fn serving(
    slot: Option<Injector>,
    keyboard: bool,
    pager: Pager,
) -> (Served, Option<Injector>) {
    if !keyboard && pager is VirtualKeyboard {
        (Served::Nothing, slot)
    } else if slot is Some {
        (Served::Already, slot)
    } else {
        (Served::Open, Some(Injector { keyboard, pager }))
    }
}

/// Starts serving key injection. The uinput keyboard is absent on firmware
/// without the driver. Page turns still go in through the page buttons or the
/// panel there, so serving is only pointless when there is neither.
pub fn serve(slot: &mut Option<Injector>, keyboard: bool, pager: Pager) -> (r: Served)
    ensures
        (r, *final(slot)) == serving(*old(slot), keyboard, pager),
{
    if !keyboard {
        if let Pager::VirtualKeyboard = pager {
            return Served::Nothing;
        }
    }
    if slot.is_some() {
        return Served::Already;
    }
    *slot = Some(Injector { keyboard, pager });
    Served::Open
}

/// What the FIFO has come to.
#[derive(Debug)]
pub enum FifoEvent {
    /// The thread has just started.
    Started,
    /// The FIFO was opened.
    Opened,
    /// The FIFO could not be opened.
    OpenFailed,
    /// A line was read.
    Line(String),
    /// The line was injected.
    Injected,
    /// Reading a line failed.
    ReadFailed,
    /// There are no more lines.
    Ended,
}

/// What to do about the FIFO.
#[derive(Debug, PartialEq)]
pub enum FifoMove {
    /// Open it, to read and to write: so a writer closing does not end the
    /// loop, and so key.sh never blocks on open while the daemon is alive.
    Open,
    /// Read a line.
    Read,
    /// Inject the line.
    Inject(String),
    /// Stop serving it.
    Stop,
}

/// What follows each event of the FIFO.
pub open spec fn fifo_move(event: FifoEvent) -> FifoMove {
    match event {
        FifoEvent::Started => FifoMove::Open,
        FifoEvent::Opened => FifoMove::Read,
        FifoEvent::OpenFailed => FifoMove::Stop,
        FifoEvent::Line(line) => FifoMove::Inject(line),
        FifoEvent::Injected => FifoMove::Read,
        FifoEvent::ReadFailed => FifoMove::Open,
        FifoEvent::Ended => FifoMove::Open,
    }
}

/// Serves the FIFO, one request per line, until it cannot be opened.
pub fn fifo_loop(event: FifoEvent) -> (r: FifoMove)
    ensures
        r == fifo_move(event),
{
    match event {
        FifoEvent::Started => FifoMove::Open,
        FifoEvent::Opened => FifoMove::Read,
        FifoEvent::OpenFailed => FifoMove::Stop,
        FifoEvent::Line(line) => FifoMove::Inject(line),
        FifoEvent::Injected => FifoMove::Read,
        FifoEvent::ReadFailed => FifoMove::Open,
        FifoEvent::Ended => FifoMove::Open,
    }
}

/// The event is one that a move can come to. Nothing follows a stop.
pub open spec fn fifo_answers(m: FifoMove, event: FifoEvent) -> bool {
    match m {
        FifoMove::Open => event is Opened || event is OpenFailed,
        FifoMove::Read => event is Line || event is ReadFailed || event is Ended,
        FifoMove::Inject(_) => event is Injected,
        FifoMove::Stop => false,
    }
}

/// Event `i` answers the move before it.
pub open spec fn fifo_answered(events: Seq<FifoEvent>, i: int) -> bool {
    fifo_answers(fifo_move(events[i - 1]), events[i])
}

/// The events so far of serving the FIFO, each an answer to the move before.
pub open spec fn fifo_run(events: Seq<FifoEvent>) -> bool {
    &&& events.len() > 0
    &&& events[0] is Started
    &&& forall|i: int| 0 < i < events.len() ==> #[trigger] fifo_answered(events, i)
}

/// The lines that were read, in order.
pub open spec fn lines_read(events: Seq<FifoEvent>) -> Seq<String>
    decreases events.len(),
{
    if events.len() == 0 {
        seq![]
    } else {
        match events.last() {
            FifoEvent::Line(line) => lines_read(events.drop_last()).push(line),
            _ => lines_read(events.drop_last()),
        }
    }
}

/// The requests that were to be injected, in order.
pub open spec fn lines_injected(events: Seq<FifoEvent>) -> Seq<String>
    decreases events.len(),
{
    if events.len() == 0 {
        seq![]
    } else {
        match fifo_move(events.last()) {
            FifoMove::Inject(line) => lines_injected(events.drop_last()).push(line),
            _ => lines_injected(events.drop_last()),
        }
    }
}

/// The FIFO is open after these events: it was opened, and since then no read
/// of it failed or came to an end.
pub open spec fn fifo_open(events: Seq<FifoEvent>) -> bool
    decreases events.len(),
{
    if events.len() == 0 {
        false
    } else {
        match events.last() {
            FifoEvent::Opened => true,
            FifoEvent::Line(_) => fifo_open(events.drop_last()),
            FifoEvent::Injected => fifo_open(events.drop_last()),
            _ => false,
        }
    }
}

/// Over a whole run, the lines that are read are the requests that are
/// injected, each once and in order.
pub proof fn law_every_line_is_injected_once(events: Seq<FifoEvent>)
    ensures
        lines_injected(events) == lines_read(events),
    decreases events.len(),
{
    if events.len() > 0 {
        law_every_line_is_injected_once(events.drop_last());
    }
}

/// Over a whole run, the FIFO is read only while it is open and opened only
/// while it is not, and serving it stops exactly where it could not be opened.
pub proof fn law_fifo_is_served_while_it_opens(events: Seq<FifoEvent>)
    requires
        fifo_run(events),
    ensures
        fifo_move(events.last()) is Read || fifo_move(events.last()) is Inject <==> fifo_open(
            events,
        ),
        fifo_move(events.last()) is Stop <==> events.last() is OpenFailed,
        forall|i: int|
            #![trigger events[i]]
            0 <= i < events.len() - 1 ==> !(events[i] is OpenFailed),
    decreases events.len(),
{
    let n = events.len() - 1;
    assert(events[n] == events.last());
    if n > 0 {
        let before = events.drop_last();
        assert forall|i: int| 0 < i < before.len() implies #[trigger] fifo_answered(before, i) by {
            assert(fifo_answered(events, i));
        }
        assert(fifo_answered(events, n));
        law_fifo_is_served_while_it_opens(before);
        assert(before.last() == events[n - 1]);
        assert forall|i: int| #![trigger events[i]] 0 <= i < n implies !(events[i] is OpenFailed) by {
            if i < n - 1 {
                assert(before[i] == events[i]);
            }
        }
    }
}

/// How far the virtual keyboard has got.
#[derive(Debug)]
pub enum InitEvent {
    Started,
    /// The uinput node is there, or cannot be had.
    NodeEnsured(bool),
    /// The device was created, or was not.
    Created(bool),
    /// The device's own node was found, or was not.
    Resolved(Option<String>),
    /// The path of the node was recorded, or could not be.
    Recorded(bool),
}

/// What to do next about the virtual keyboard.
#[derive(Debug, PartialEq)]
pub enum InitMove {
    /// See that the uinput node is there.
    EnsureNode,
    /// Create the device.
    CreateDevice,
    /// Find the device's own node.
    ResolveNode,
    /// Record the path of the node.
    Record(String),
    /// There is a virtual keyboard.
    Keep,
    /// There is none: keyboard mappings will not inject events.
    GiveUp,
}

/// What follows each event of the set-up.
pub open spec fn init_move(event: InitEvent) -> InitMove {
    match event {
        InitEvent::Started => InitMove::EnsureNode,
        InitEvent::NodeEnsured(ok) => if ok {
            InitMove::CreateDevice
        } else {
            InitMove::GiveUp
        },
        InitEvent::Created(ok) => if ok {
            InitMove::ResolveNode
        } else {
            InitMove::GiveUp
        },
        InitEvent::Resolved(path) => match path {
            Some(p) => InitMove::Record(p),
            None => InitMove::Keep,
        },
        InitEvent::Recorded(_) => InitMove::Keep,
    }
}

/// Sets the virtual keyboard up. It is kept once it is created, whether or not
/// its node is found and recorded.
pub fn try_init(event: InitEvent) -> (r: InitMove)
    ensures
        r == init_move(event),
{
    match event {
        InitEvent::Started => InitMove::EnsureNode,
        InitEvent::NodeEnsured(ok) => if ok {
            InitMove::CreateDevice
        } else {
            InitMove::GiveUp
        },
        InitEvent::Created(ok) => if ok {
            InitMove::ResolveNode
        } else {
            InitMove::GiveUp
        },
        InitEvent::Resolved(path) => match path {
            Some(p) => InitMove::Record(p),
            None => InitMove::Keep,
        },
        InitEvent::Recorded(_) => InitMove::Keep,
    }
}

/// The event is one that a move can come to. Nothing follows the last move.
pub open spec fn init_answers(m: InitMove, event: InitEvent) -> bool {
    match m {
        InitMove::EnsureNode => event is NodeEnsured,
        InitMove::CreateDevice => event is Created,
        InitMove::ResolveNode => event is Resolved,
        InitMove::Record(_) => event is Recorded,
        InitMove::Keep => false,
        InitMove::GiveUp => false,
    }
}

/// Event `i` answers the move before it.
pub open spec fn init_answered(events: Seq<InitEvent>, i: int) -> bool {
    init_answers(init_move(events[i - 1]), events[i])
}

/// The events so far of a set-up, each an answer to the move before.
pub open spec fn init_run(events: Seq<InitEvent>) -> bool {
    &&& events.len() > 0
    &&& events[0] is Started
    &&& forall|i: int| 0 < i < events.len() ==> #[trigger] init_answered(events, i)
}

/// The set-up has come to its end.
pub open spec fn init_over(events: Seq<InitEvent>) -> bool {
    init_move(events.last()) is Keep || init_move(events.last()) is GiveUp
}

/// A set-up ends after at most five events. It ends with a keyboard exactly
/// where the uinput node was there and the device was created, and without one
/// exactly where one of the two failed.
pub proof fn law_keyboard_is_kept_where_it_was_created(events: Seq<InitEvent>)
    requires
        init_run(events),
    ensures
        events.len() <= 5,
        events.len() == 5 ==> init_over(events),
        init_over(events) ==> (init_move(events.last()) is Keep <==> events.contains(
            InitEvent::NodeEnsured(true),
        ) && events.contains(InitEvent::Created(true))),
        init_move(events.last()) is GiveUp <==> events.contains(InitEvent::NodeEnsured(false))
            || events.contains(InitEvent::Created(false)),
{
    lemma_init_run(events);
}

/// A node is recorded only in a run that then keeps the keyboard: right after
/// it was found, under the path it was found at, and as the last move but one.
pub proof fn law_node_is_recorded_before_keeping(events: Seq<InitEvent>, i: int)
    requires
        init_run(events),
        0 <= i < events.len(),
        init_move(events[i]) is Record,
    ensures
        i == 3,
        events[3] == InitEvent::Resolved(Some(init_move(events[3])->Record_0)),
        events.contains(InitEvent::NodeEnsured(true)),
        events.contains(InitEvent::Created(true)),
        events.len() > 4 ==> events.len() == 5 && init_move(events[4]) is Keep,
{
    lemma_init_run(events);
}

proof fn lemma_init_run(events: Seq<InitEvent>)
    requires
        init_run(events),
    ensures
        events.len() <= 5,
        events.len() > 1 ==> events[1] is NodeEnsured,
        events.len() > 2 ==> events[1] == InitEvent::NodeEnsured(true) && events[2] is Created,
        events.len() > 3 ==> events[2] == InitEvent::Created(true) && events[3] is Resolved,
        events.len() > 4 ==> (events[3] matches InitEvent::Resolved(path) && path is Some)
            && events[4] is Recorded,
{
    let n = events.len() as int;
    if n > 1 {
        assert(init_answered(events, 1));
    }
    if n > 2 {
        assert(init_answered(events, 2));
    }
    if n > 3 {
        assert(init_answered(events, 3));
    }
    if n > 4 {
        assert(init_answered(events, 4));
    }
    if n > 5 {
        assert(init_answered(events, 5));
    }
}

} // verus!
