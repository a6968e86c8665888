//! The panel, and the swipe across it that turns a page.

use crate::input;
use crate::input::{Emit, InputEvent};
use crate::nodes;
use crate::nodes::{Candidate, Role};
use vstd::prelude::*;

verus! {

// Multitouch axes, for the swipe page turn. No ABS_MT_SLOT and no BTN_TOUCH:
// the panel reports neither, so sending them only tells the X driver a story
// its own hardware never would.
pub const ABS_MT_TOUCH_MAJOR: u16 = 0x30;

pub const ABS_MT_WIDTH_MAJOR: u16 = 0x32;

pub const ABS_MT_TRACKING_ID: u16 = 0x39;

pub const ABS_MT_PRESSURE: u16 = 0x3a;

/// A page turn's shape, taken from a recording of a real finger on the panel.
///
/// The sample spacing is the number that matters: the panel reports about
/// every 15ms, and the X multitouch driver is happiest fed at the rate it
/// expects. Fourteen samples at that spacing is a ~220ms swipe, inside the
/// 300-600ms a human takes but still quick enough not to feel laggy.
pub const SWIPE_STEPS: i32 = 14;

pub const SWIPE_STEP_MS: u64 = 16;

pub const SWIPE_FROM_PCT: i32 = 85;

pub const SWIPE_TO_PCT: i32 = 15;

pub const SWIPE_Y_PCT: i32 = 50;

/// The contact id every real touch on this panel carries.
///
/// Not a counter. The hardware reports 0 for the contact and -1 to release it,
/// and never anything else — a recording of seven finger gestures used exactly
/// {0, -1}. Handing the X multitouch driver a fresh id per swipe instead makes
/// it believe an unbounded number of distinct fingers have touched the screen,
/// and after a handful it segfaults and takes the whole framework down with
/// it. Emitting ABS_MT_SLOT has the same flavour of problem: the panel never
/// sends it, so neither do we.
pub const TOUCH_ID: i32 = 0;

pub const TOUCH_RELEASE: i32 = -1;

/// The contact size of a fingertip.
pub const TOUCH_SIZE: i32 = 24;

/// The panel, and the geometry a page-turn swipe needs.
#[derive(Debug)]
pub struct Touchscreen {
    pub path: String,
    /// The node is held open.
    pub open: bool,
    pub max_x: i32,
    pub max_y: i32,
    /// What a fingertip reports for pressure and contact size. Real touches on
    /// the Paperwhite 4 land between 16 and 30, so a middling value passes for
    /// one; panels with a smaller range get something inside theirs.
    pub touch_size: i32,
}

/// A quotient, rounded towards zero.
pub open spec fn quotient(a: int, b: int) -> int {
    if a < 0 {
        -((-a) / b)
    } else {
        a / b
    }
}

/// The contact size for a panel with a largest one.
pub open spec fn contact_size(max_touch: i32) -> i32 {
    if 0 < max_touch < TOUCH_SIZE {
        max_touch
    } else {
        TOUCH_SIZE
    }
}

/// An absolute axis takes a value.
pub open spec fn axis(code: u16, value: int) -> Emit {
    Emit::Event(InputEvent { kind: input::EV_ABS, code, value: value as i32 })
}

impl Touchscreen {
    /// The panel that a candidate is.
    pub open spec fn behind(&self, c: Candidate) -> bool {
        &&& self.path@ == nodes::joined(nodes::DEV_INPUT@, c.file@)
        &&& !self.open
        &&& c.device matches Some(dev) && dev.limits matches Some(l) && self.max_x == l.max_x
            && self.max_y == l.max_y && self.touch_size == contact_size(l.max_touch)
    }

    /// Finds the panel, and the geometry that a swipe needs.
    pub fn find(candidates: &Vec<Candidate>) -> (r: Option<Self>)
        ensures
            match r {
                Some(touch) => exists|i: int| #[trigger]
                    nodes::first_for(candidates@, Role::Touchscreen, i) && touch.behind(
                        candidates@[i],
                    ),
                None => nodes::none_for(candidates@, Role::Touchscreen),
            },
    {
        match nodes::pick(candidates, Role::Touchscreen) {
            None => None,
            Some(i) => match &candidates[i].device {
                None => None,
                Some(dev) => match dev.limits {
                    None => None,
                    Some(l) => {
                        let touch = Touchscreen {
                            path: nodes::join(nodes::DEV_INPUT, candidates[i].file.as_str()),
                            open: false,
                            max_x: l.max_x,
                            max_y: l.max_y,
                            touch_size: if 0 < l.max_touch && l.max_touch < TOUCH_SIZE {
                                l.max_touch
                            } else {
                                TOUCH_SIZE
                            },
                        };
                        assert(touch.behind(candidates@[i as int]));
                        Some(touch)
                    },
                },
            },
        }
    }

    /// The coordinates of a swipe can be computed in 32 bits.
    pub open spec fn swipeable(&self) -> bool {
        &&& i32::MIN <= self.max_x * SWIPE_FROM_PCT <= i32::MAX
        &&& i32::MIN <= self.max_y * SWIPE_Y_PCT <= i32::MAX
    }

    /// Whether the coordinates of a swipe can be computed in 32 bits.
    pub fn is_swipeable(&self) -> (r: bool)
        ensures
            r == self.swipeable(),
    {
        let x: i64 = self.max_x as i64 * SWIPE_FROM_PCT as i64;
        let y: i64 = self.max_y as i64 * SWIPE_Y_PCT as i64;
        i32::MIN as i64 <= x && x <= i32::MAX as i64 && i32::MIN as i64 <= y && y
            <= i32::MAX as i64
    }

    /// Where a swipe starts: at the right to turn forward, the same way a
    /// finger does.
    pub open spec fn start_x(&self, forward: bool) -> int {
        quotient(
            self.max_x * (if forward {
                SWIPE_FROM_PCT
            } else {
                SWIPE_TO_PCT
            }),
            100,
        )
    }

    /// Where a swipe ends.
    pub open spec fn end_x(&self, forward: bool) -> int {
        self.start_x(!forward)
    }

    /// The height of a swipe.
    pub open spec fn swipe_y(&self) -> int {
        quotient(self.max_y * SWIPE_Y_PCT, 100)
    }

    /// Where a swipe is at a sample.
    pub open spec fn x_at(&self, forward: bool, i: int) -> int {
        let x0 = self.start_x(forward);
        let x1 = self.end_x(forward);
        x0 + quotient((x1 - x0) * i, SWIPE_STEPS as int)
    }

    /// The opening report: the contact, its place and its size.
    pub open spec fn opening(&self, forward: bool) -> Seq<Emit> {
        seq![
            axis(ABS_MT_TRACKING_ID, TOUCH_ID as int),
            axis(ABS_MT_PRESSURE, self.touch_size as int),
            axis(nodes::ABS_MT_POSITION_X, self.start_x(forward)),
            axis(nodes::ABS_MT_POSITION_Y, self.swipe_y()),
            axis(ABS_MT_TOUCH_MAJOR, self.touch_size as int),
            axis(ABS_MT_WIDTH_MAJOR, self.touch_size as int),
            Emit::Event(input::syn()),
        ]
    }

    /// The first `n` samples, each a report of its own after a pause, with only
    /// the coordinate that moved.
    pub open spec fn samples(&self, forward: bool, n: nat) -> Seq<Emit>
        decreases n,
    {
        if n == 0 {
            seq![]
        } else {
            self.samples(forward, (n - 1) as nat) + seq![
                Emit::Pause(SWIPE_STEP_MS),
                axis(nodes::ABS_MT_POSITION_X, self.x_at(forward, n as int)),
                Emit::Event(input::syn()),
            ]
        }
    }

    /// A whole swipe: the opening report, the samples, and the release.
    pub open spec fn swipe_of(&self, forward: bool) -> Seq<Emit> {
        self.opening(forward) + self.samples(forward, SWIPE_STEPS as nat) + seq![
            Emit::Pause(SWIPE_STEP_MS),
            axis(ABS_MT_TRACKING_ID, TOUCH_RELEASE as int),
            Emit::Event(input::syn()),
        ]
    }

    /// Drag one contact across the screen: right-to-left turns forward, the
    /// same way a finger does.
    ///
    /// Shaped after a recording of a real finger: the opening report carries
    /// the contact and its size, each later report carries only the
    /// coordinate that moved, and the last one just releases. Sending more
    /// than the panel itself would is what upsets the X driver.
    ///
    /// One sample per report, spaced at the panel's own report rate. Batching
    /// them into a single write would give every position the same kernel
    /// timestamp, and a contact that crosses the screen instantly is not a
    /// swipe.
    pub fn swipe(&self, forward: bool) -> (r: Vec<Emit>)
        requires
            self.swipeable(),
        ensures
            r@ == self.swipe_of(forward),
    {
        let x0: i32 = share(
            self.max_x,
            if forward {
                SWIPE_FROM_PCT
            } else {
                SWIPE_TO_PCT
            },
            100,
        );
        let x1: i32 = share(
            self.max_x,
            if forward {
                SWIPE_TO_PCT
            } else {
                SWIPE_FROM_PCT
            },
            100,
        );
        let y: i32 = share(self.max_y, SWIPE_Y_PCT, 100);
        let mut out: Vec<Emit> = vec![
            abs_event(ABS_MT_TRACKING_ID, TOUCH_ID),
            abs_event(ABS_MT_PRESSURE, self.touch_size),
            abs_event(nodes::ABS_MT_POSITION_X, x0),
            abs_event(nodes::ABS_MT_POSITION_Y, y),
            abs_event(ABS_MT_TOUCH_MAJOR, self.touch_size),
            abs_event(ABS_MT_WIDTH_MAJOR, self.touch_size),
            end_report(),
        ];
        assert(out@ =~= self.opening(forward));
        assert(out@ + self.samples(forward, 0) =~= self.opening(forward));
        let mut i: i32 = 1;
        while i <= SWIPE_STEPS
            invariant
                1 <= i <= SWIPE_STEPS + 1,
                self.max_x >= 0 ==> 0 <= x0 <= self.max_x && 0 <= x1 <= self.max_x,
                self.max_x <= 0 ==> self.max_x <= x0 <= 0 && self.max_x <= x1 <= 0,
                -0x4000_0000 <= self.max_x <= 0x4000_0000,
                x0 == self.start_x(forward),
                x1 == self.end_x(forward),
                out@ == self.opening(forward) + self.samples(forward, (i - 1) as nat),
            decreases SWIPE_STEPS + 1 - i,
        {
            out.push(Emit::Pause(SWIPE_STEP_MS));
            let x: i32 = x0 + share(x1 - x0, i, SWIPE_STEPS);
            out.push(abs_event(nodes::ABS_MT_POSITION_X, x));
            out.push(end_report());
            assert(out@ =~= self.opening(forward) + self.samples(forward, i as nat));
            i += 1;
        }
        out.push(Emit::Pause(SWIPE_STEP_MS));
        out.push(abs_event(ABS_MT_TRACKING_ID, TOUCH_RELEASE));
        out.push(end_report());
        assert(out@ =~= self.swipe_of(forward));
        out
    }
}

fn abs_event(code: u16, value: i32) -> (r: Emit)
    ensures
        r == axis(code, value as int),
{
    Emit::Event(InputEvent { kind: input::EV_ABS, code, value })
}

fn end_report() -> (r: Emit)
    ensures
        r == Emit::Event(input::syn()),
{
    Emit::Event(InputEvent { kind: input::EV_SYN, code: input::SYN_REPORT, value: 0 })
}

/// `v * num / den`, rounded towards zero.
fn share(v: i32, num: i32, den: i32) -> (r: i32)
    requires
        0 < num <= den,
    ensures
        r == quotient(v * num, den as int),
        v >= 0 ==> 0 <= r <= v,
        v <= 0 ==> v <= r <= 0,
{
    proof {
        lemma_share(v as int, num as int, den as int);
        assert(-0x4000_0000_0000_0000 <= v * num <= 0x4000_0000_0000_0000) by (nonlinear_arith)
            requires
                -0x8000_0000 <= v <= 0x7fff_ffff,
                0 < num <= 0x7fff_ffff,
        ;
    }
    let wide: i64 = v as i64 * num as i64;
    if wide < 0 {
        -(((-wide) as u64 / den as u64) as i64) as i32
    } else {
        (wide as u64 / den as u64) as i32
    }
}

proof fn lemma_quotient_bounds(a: int, v: int, den: int)
    by (nonlinear_arith)
    requires
        0 < den,
        0 <= a <= v * den,
    ensures
        0 <= a / den <= v,
{
}

proof fn lemma_share(v: int, num: int, den: int)
    requires
        0 < num <= den,
    ensures
        v >= 0 ==> v * num >= 0,
        v < 0 ==> v * num < 0,
        v >= 0 ==> 0 <= quotient(v * num, den) <= v,
        v <= 0 ==> v <= quotient(v * num, den) <= 0,
{
    if v >= 0 {
        assert(0 <= v * num <= v * den) by (nonlinear_arith)
            requires
                v >= 0,
                0 < num <= den,
        ;
        lemma_quotient_bounds(v * num, v, den);
    } else {
        let w = -v;
        assert(0 < w * num <= w * den && v * num == -(w * num)) by (nonlinear_arith)
            requires
                w > 0,
                w == -v,
                0 < num <= den,
        ;
        lemma_quotient_bounds(w * num, w, den);
    }
}

/// A contact has a size, and one inside the panel's range where the panel
/// states one.
pub proof fn law_contact_size_suits_the_panel(max_touch: i32)
    ensures
        0 < contact_size(max_touch) <= TOUCH_SIZE,
        max_touch > 0 ==> contact_size(max_touch) <= max_touch,
{
}

/// What a real panel sends: the end of a report, or one of its axes. Neither
/// a slot nor a touch button.
pub open spec fn panel_sends(e: Emit) -> bool {
    match e {
        Emit::Pause(_) => true,
        Emit::Event(ev) => ev == input::syn() || (ev.kind == input::EV_ABS && (ev.code
            == ABS_MT_TRACKING_ID || ev.code == ABS_MT_PRESSURE || ev.code
            == nodes::ABS_MT_POSITION_X || ev.code == nodes::ABS_MT_POSITION_Y || ev.code
            == ABS_MT_TOUCH_MAJOR || ev.code == ABS_MT_WIDTH_MAJOR)),
    }
}

/// The event makes or ends a contact.
pub open spec fn contact(e: Emit) -> bool {
    e matches Emit::Event(ev) && ev.kind == input::EV_ABS && ev.code == ABS_MT_TRACKING_ID
}

proof fn lemma_samples(touch: Touchscreen, forward: bool, n: nat)
    ensures
        touch.samples(forward, n).len() == 3 * n,
        forall|i: int|
            #![trigger touch.samples(forward, n)[i]]
            0 <= i < 3 * n ==> panel_sends(touch.samples(forward, n)[i]) && !contact(
                touch.samples(forward, n)[i],
            ),
    decreases n,
{
    if n > 0 {
        lemma_samples(touch, forward, (n - 1) as nat);
        let before = touch.samples(forward, (n - 1) as nat);
        assert forall|i: int|
            #![trigger touch.samples(forward, n)[i]]
            0 <= i < 3 * n implies panel_sends(touch.samples(forward, n)[i]) && !contact(
            touch.samples(forward, n)[i],
        ) by {
            if i < before.len() {
                assert(touch.samples(forward, n)[i] == before[i]);
            }
        }
    }
}

/// A swipe is one contact: its first event makes it, its last report ends it,
/// and nothing in between touches it. The contact's id is never anything but 0
/// and -1, and nothing is sent that a real panel would not send.
pub proof fn law_swipe_is_one_contact(touch: Touchscreen, forward: bool)
    ensures
        ({
            let s = touch.swipe_of(forward);
            let n = 7 + 3 * SWIPE_STEPS + 3;
            &&& s.len() == n
            &&& s[0] == axis(ABS_MT_TRACKING_ID, TOUCH_ID as int)
            &&& s[n - 2] == axis(ABS_MT_TRACKING_ID, TOUCH_RELEASE as int)
            &&& s[n - 1] == Emit::Event(input::syn())
            &&& forall|i: int| 0 < i < n - 2 ==> !contact(#[trigger] s[i])
            &&& forall|i: int| 0 <= i < n ==> panel_sends(#[trigger] s[i])
        }),
{
    let s = touch.swipe_of(forward);
    let n = 7 + 3 * SWIPE_STEPS + 3;
    let a = touch.opening(forward);
    let b = touch.samples(forward, SWIPE_STEPS as nat);
    lemma_samples(touch, forward, SWIPE_STEPS as nat);
    assert forall|i: int| 0 <= i < n implies panel_sends(#[trigger] s[i]) && (0 < i < n - 2
        ==> !contact(s[i])) by {
        if i < 7 {
            assert(s[i] == a[i]);
        } else if i < n - 3 {
            assert(s[i] == b[i - 7]);
        }
    }
}

/// A swipe stays on the panel, never turns back, and ends where it should:
/// forward it runs from the right to the left, backward from the left to the
/// right.
pub proof fn law_swipe_crosses_the_panel(touch: Touchscreen, forward: bool, i: int, j: int)
    requires
        touch.max_x > 0,
        touch.max_y > 0,
        0 <= i <= j <= SWIPE_STEPS,
    ensures
        0 <= touch.x_at(forward, i) <= touch.max_x,
        0 <= touch.swipe_y() <= touch.max_y,
        forward ==> touch.x_at(forward, j) <= touch.x_at(forward, i),
        !forward ==> touch.x_at(forward, i) <= touch.x_at(forward, j),
        touch.x_at(forward, 0) == touch.start_x(forward),
        touch.x_at(forward, SWIPE_STEPS as int) == touch.end_x(forward),
        touch.end_x(true) == touch.start_x(false) <= touch.start_x(true) == touch.end_x(false),
{
    let m = touch.max_x as int;
    lemma_share(m, SWIPE_FROM_PCT as int, 100);
    lemma_share(m, SWIPE_TO_PCT as int, 100);
    lemma_share(touch.max_y as int, SWIPE_Y_PCT as int, 100);
    let x0 = touch.start_x(forward);
    let d = touch.end_x(forward) - x0;
    assert(m * 15 / 100 <= m * 85 / 100);
    lemma_along(d, i, j);
    lemma_along(d, 0, i);
    lemma_along(d, i, 14);
}

/// Every sample of a swipe lies on the panel, across its width.
pub proof fn law_swipe_crosses_the_panel_width(touch: Touchscreen, forward: bool, i: int)
    requires
        touch.max_x > 0,
        0 <= i <= SWIPE_STEPS,
    ensures
        0 <= touch.x_at(forward, i) <= touch.max_x,
        0 <= touch.start_x(forward) <= touch.max_x,
{
    let m = touch.max_x as int;
    lemma_share(m, SWIPE_FROM_PCT as int, 100);
    lemma_share(m, SWIPE_TO_PCT as int, 100);
    lemma_along(touch.end_x(forward) - touch.start_x(forward), i, 14);
}

/// A point on the way to `d` in fourteen steps.
proof fn lemma_along(d: int, i: int, j: int)
    requires
        0 <= i <= j <= 14,
    ensures
        d >= 0 ==> 0 <= quotient(d * i, 14) <= quotient(d * j, 14) <= d,
        d <= 0 ==> d <= quotient(d * j, 14) <= quotient(d * i, 14) <= 0,
        quotient(d * 0, 14) == 0,
        quotient(d * 14, 14) == d,
{
    let w = if d < 0 {
        -d
    } else {
        d
    };
    assert(0 <= w * i <= w * j <= w * 14) by (nonlinear_arith)
        requires
            w >= 0,
            0 <= i <= j <= 14,
    ;
    if d < 0 {
        assert(d * i == -(w * i) && d * j == -(w * j)) by (nonlinear_arith)
            requires
                w == -d,
        ;
    }
}

} // verus!
