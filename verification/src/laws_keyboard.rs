//! What holds of injecting keys, turning pages and finding the nodes for it.

use crate::config;
use crate::input;
use crate::input::{ByteOrder, Emit, InputEvent, SetupStep};
use crate::laws_text;
use crate::nodes;
use crate::nodes::{
    Candidate, Command, CommandResult, DevNode, EventNodeStep, InputDevice, NodeStep, Role,
};
use crate::text;
use crate::touch;
use crate::touch::Touchscreen;
use crate::vkeyboard;
use crate::vkeyboard::{Injection, Injector, Pager, Turn};
use vstd::prelude::*;
use vstd::string::*;
use vstd::utf8::*;

verus! {

/// An event with these numbers is written.
pub open spec fn writes(e: Emit, kind: u16, code: u16, value: int) -> bool {
    e matches Emit::Event(ev) && ev.kind == kind && ev.code == code && ev.value == value
}

/// A key changes, and the report ends: two events, whatever the value.
pub open spec fn one_report(emits: Seq<Emit>, code: u16, value: i32) -> bool {
    &&& emits.len() == 2
    &&& writes(emits[0], 1, code, value as int)
    &&& writes(emits[1], 0, 0, 0)
}

/// A key is pressed and let go, each in a report of its own: four events.
pub open spec fn one_tap(emits: Seq<Emit>, code: u16) -> bool {
    &&& emits.len() == 4
    &&& writes(emits[0], 1, code, 1)
    &&& writes(emits[1], 0, 0, 0)
    &&& writes(emits[2], 1, code, 0)
    &&& writes(emits[3], 0, 0, 0)
}

/// A forwarded key is emitted with its own code and value, press, release and
/// repeat alike, and then the report ends.
pub proof fn law_forwarded_key_is_emitted(code: u16, value: i32)
    ensures
        one_report(input::key_report(code, value), code, value),
{
}

/// No two changes of keys are emitted alike.
pub proof fn law_forwarded_keys_differ(a: u16, v: i32, b: u16, w: i32)
    ensures
        input::key_report(a, v) == input::key_report(b, w) ==> a == b && v == w,
{
    law_forwarded_key_is_emitted(a, v);
    law_forwarded_key_is_emitted(b, w);
}

/// A tap is the report of a press, then that of a release, of the same key.
pub proof fn law_tap_is_a_press_and_a_release(code: u16)
    ensures
        one_tap(input::tap_of(code), code),
        input::tap_of(code) == input::key_report(code, 1) + input::key_report(code, 0),
{
    assert(input::tap_of(code) =~= input::key_report(code, 1) + input::key_report(code, 0));
}

/// What a turn writes to a node, and where.
pub open spec fn taps_on(turn: Turn, path: Seq<char>, code: u16) -> bool {
    turn matches Turn::Node { path: p, open_first, emits } && p@ == path && one_tap(emits@, code)
}

/// On the page buttons the next page is a tap of PageDown (109) and the
/// previous one a tap of PageUp (104), both on the buttons' own node.
pub proof fn law_page_buttons_turn_pages(injector: Injector, injection: Injection)
    requires
        injector.pager is Buttons,
    ensures
        injector.handles("page_next"@, injection) ==> (injection matches Injection::Turn(turn)
            && taps_on(turn, injector.pager->Buttons_path@, 109)),
        injector.handles("page_prev"@, injection) ==> (injection matches Injection::Turn(turn)
            && taps_on(turn, injector.pager->Buttons_path@, 104)),
{
    reveal_strlit("page_next");
    reveal_strlit("page_prev");
    assert("page_next"@[5] == 'n' && "page_prev"@[5] == 'p');
    law_tap_is_a_press_and_a_release(109);
    law_tap_is_a_press_and_a_release(104);
}

/// Without page buttons and without a panel, the next page is a tap of Down
/// (108) and the previous one a tap of Up (103) on the virtual keyboard, if
/// there is one.
pub proof fn law_keyboard_turns_pages(injector: Injector, injection: Injection)
    requires
        injector.pager is VirtualKeyboard,
    ensures
        injector.keyboard && injector.handles("page_next"@, injection) ==> (
        injection matches Injection::Turn(Turn::Keyboard { emits }) && one_tap(emits@, 108)),
        injector.keyboard && injector.handles("page_prev"@, injection) ==> (
        injection matches Injection::Turn(Turn::Keyboard { emits }) && one_tap(emits@, 103)),
        !injector.keyboard && (injector.handles("page_next"@, injection) || injector.handles(
            "page_prev"@,
            injection,
        )) ==> injection matches Injection::Turn(Turn::NoKeyboard),
{
    reveal_strlit("page_next");
    reveal_strlit("page_prev");
    assert("page_next"@[5] == 'n' && "page_prev"@[5] == 'p');
    law_tap_is_a_press_and_a_release(108);
    law_tap_is_a_press_and_a_release(103);
}

/// On a panel the next page is a swipe from the right to the left, and the
/// previous one a swipe from the left to the right, on the panel's own node.
pub proof fn law_panel_turns_pages(injector: Injector, injection: Injection)
    requires
        injector.pager is Touchscreen,
    ensures
        ({
            let touch = injector.pager->Touchscreen_0;
            &&& injector.handles("page_next"@, injection) ==> (
            injection matches Injection::Turn(Turn::Node { path, open_first, emits }) && path@
                == touch.path@ && emits@ == touch.swipe_of(true))
            &&& injector.handles("page_prev"@, injection) ==> (
            injection matches Injection::Turn(Turn::Node { path, open_first, emits }) && path@
                == touch.path@ && emits@ == touch.swipe_of(false))
        }),
{
    reveal_strlit("page_next");
    reveal_strlit("page_prev");
    assert("page_next"@[5] == 'n' && "page_prev"@[5] == 'p');
}

/// What a page turn emits, if anything.
pub open spec fn emitted(injection: Injection) -> Option<Seq<Emit>> {
    match injection {
        Injection::Turn(Turn::Node { path, open_first, emits }) => Some(emits@),
        Injection::Turn(Turn::Keyboard { emits }) => Some(emits@),
        Injection::Type { emits } => Some(emits@),
        _ => None,
    }
}

/// The next page and the previous page are never turned alike, on any pager
/// that can tell right from left: a panel has to be at least two units wide
/// for that.
pub proof fn law_next_and_previous_differ(injector: Injector, next: Injection, prev: Injection)
    requires
        injector.handles("page_next"@, next),
        injector.handles("page_prev"@, prev),
        injector.pager matches Pager::Touchscreen(touch) ==> touch.max_x >= 2 && touch.swipeable(),
    ensures
        emitted(next) is Some ==> emitted(prev) is Some && emitted(next) != emitted(prev),
{
    law_tap_is_a_press_and_a_release(109);
    law_tap_is_a_press_and_a_release(104);
    law_tap_is_a_press_and_a_release(108);
    law_tap_is_a_press_and_a_release(103);
    match injector.pager {
        Pager::Buttons { path, open } => {
            law_page_buttons_turn_pages(injector, next);
            law_page_buttons_turn_pages(injector, prev);
        },
        Pager::Touchscreen(touch) => {
            law_panel_turns_pages(injector, next);
            law_panel_turns_pages(injector, prev);
            law_swipe_opens_at_its_side(touch, true);
            law_swipe_opens_at_its_side(touch, false);
            assert(touch.swipe_of(true)[2] != touch.swipe_of(false)[2]);
        },
        Pager::VirtualKeyboard => {
            law_keyboard_turns_pages(injector, next);
            law_keyboard_turns_pages(injector, prev);
        },
    }
}

/// A key is typed as a tap of its own code on the virtual keyboard. Without
/// one it is not typed, what is no key is not known, and nothing comes of
/// nothing.
pub proof fn law_keys_are_typed(injector: Injector, line: Seq<char>, injection: Injection)
    requires
        injector.handles(line, injection),
        line != "page_next"@,
        line != "page_prev"@,
    ensures
        line.len() == 0 <==> injection is Nothing,
        line.len() > 0 && injector.keyboard ==> (config::key_of(line) matches Some(key)
            ==> injection matches Injection::Type { emits } && one_tap(emits@, key.code)),
        line.len() > 0 && !injector.keyboard && config::key_of(line) is Some ==> injection
            is NoKeyboard,
        line.len() > 0 && config::key_of(line) is None ==> injection is UnknownKey,
{
    if let Some(key) = config::key_of(line) {
        law_tap_is_a_press_and_a_release(key.code);
    }
}

/// What came of a turn changes nothing of a pager but whether its node is held
/// open: it stays of its kind, on its node, with its geometry.
pub proof fn law_pager_stays_what_it_is(pager: Pager, held: bool)
    ensures
        pager matches Pager::Buttons { path, open } ==> pager.with_open(held) == (
        Pager::Buttons { path, open: held }),
        pager matches Pager::Touchscreen(t) ==> (pager.with_open(held) matches Pager::Touchscreen(u)
            && u.path == t.path && u.open == held && u.max_x == t.max_x && u.max_y == t.max_y
            && u.touch_size == t.touch_size),
        pager is VirtualKeyboard ==> pager.with_open(held) is VirtualKeyboard,
{
}

/// A turn on a node opens it first exactly where it is not held open.
pub proof fn law_turn_opens_what_is_not_open(
    pager: Pager,
    keyboard: bool,
    button_code: u16,
    kbd_code: u16,
    forward: bool,
    turn: Turn,
)
    requires
        pager.turns(keyboard, button_code, kbd_code, forward, turn),
    ensures
        pager matches Pager::Buttons { path, open } ==> (turn matches Turn::Node {
            path: p,
            open_first,
            emits,
        } && p@ == path@ && open_first == !open && one_tap(emits@, button_code)),
        pager matches Pager::Touchscreen(t) ==> (turn matches Turn::Node {
            path: p,
            open_first,
            emits,
        } && p@ == t.path@ && open_first == !t.open),
        pager is VirtualKeyboard && keyboard ==> (turn matches Turn::Keyboard { emits } && one_tap(
            emits@,
            kbd_code,
        )),
        pager is VirtualKeyboard && !keyboard ==> turn is NoKeyboard,
{
    law_tap_is_a_press_and_a_release(button_code);
    law_tap_is_a_press_and_a_release(kbd_code);
}

proof fn lemma_swipe_parts(touch: Touchscreen, forward: bool)
    ensures
        touch.opening(forward).len() == 7,
        touch.samples(forward, 14).len() == 42,
        touch.swipe_of(forward).len() == 52,
        forall|i: int|
            0 <= i < 7 ==> touch.swipe_of(forward)[i] == #[trigger] touch.opening(forward)[i],
        forall|i: int|
            0 <= i < 42 ==> touch.swipe_of(forward)[7 + i] == #[trigger] touch.samples(
                forward,
                14,
            )[i],
{
    touch::law_swipe_is_one_contact(touch, forward);
    lemma_sample(touch, forward, 14, 1);
}

/// Sample `k` of the first `n`.
proof fn lemma_sample(touch: Touchscreen, forward: bool, n: nat, k: int)
    requires
        1 <= k <= n,
    ensures
        touch.samples(forward, n).len() == 3 * n,
        touch.samples(forward, n)[3 * k - 3] == Emit::Pause(16),
        touch.samples(forward, n)[3 * k - 2] == touch::axis(0x35, touch.x_at(forward, k)),
        touch.samples(forward, n)[3 * k - 1] == Emit::Event(input::syn()),
    decreases n,
{
    if n == 1 {
        assert(touch.samples(forward, 0).len() == 0);
    } else if k < n {
        lemma_sample(touch, forward, (n - 1) as nat, k);
    } else {
        lemma_sample(touch, forward, (n - 1) as nat, k - 1);
    }
}

/// A place on an axis of a given length, in hundredths of it, rounded down.
pub open spec fn at_hundredths(x: int, max: int, hundredths: int) -> bool {
    100 * x <= hundredths * max < 100 * (x + 1)
}

/// A swipe opens with the contact, its pressure, its place and its size, all in
/// one report. Forward it starts at 85 hundredths of the width, backward at
/// 15, and always at half the height.
pub proof fn law_swipe_opens_at_its_side(touch: Touchscreen, forward: bool)
    requires
        touch.max_x >= 0,
    ensures
        ({
            let s = touch.swipe_of(forward);
            &&& writes(s[0], 3, 0x39, 0)
            &&& writes(s[1], 3, 0x3a, touch.touch_size as int)
            &&& s[2] matches Emit::Event(x) && x.kind == 3 && x.code == 0x35 && at_hundredths(
                x.value as int,
                touch.max_x as int,
                if forward {
                    85
                } else {
                    15
                },
            )
            &&& s[3] matches Emit::Event(y) && y.kind == 3 && y.code == 0x36 && (touch.max_y
                >= 0 ==> at_hundredths(y.value as int, touch.max_y as int, 50))
            &&& writes(s[4], 3, 0x30, touch.touch_size as int)
            &&& writes(s[5], 3, 0x32, touch.touch_size as int)
            &&& writes(s[6], 0, 0, 0)
        }),
        touch.max_x >= 2 ==> touch.swipe_of(true)[2] != touch.swipe_of(false)[2],
{
    lemma_swipe_parts(touch, true);
    lemma_swipe_parts(touch, false);
    let a = touch.opening(true);
    let b = touch.opening(false);
    assert(touch.swipe_of(true)[2] == a[2]);
    assert(touch.swipe_of(false)[2] == b[2]);
    let o = touch.opening(forward);
    let s = touch.swipe_of(forward);
    assert(s[0] == o[0] && s[1] == o[1] && s[2] == o[2] && s[3] == o[3]);
    assert(s[4] == o[4] && s[5] == o[5] && s[6] == o[6]);
}

/// Each of the 14 samples follows a pause of 16 milliseconds, and reports
/// nothing but a place on the straight way from where the swipe starts to where
/// the opposite swipe starts: less than one unit off it, and at its end with the
/// last sample.
pub proof fn law_samples_run_straight(touch: Touchscreen, forward: bool, k: int)
    requires
        touch.max_x > 0,
        1 <= k <= 14,
    ensures
        ({
            let s = touch.swipe_of(forward);
            let from = s[2]->Event_0.value;
            let to = touch.swipe_of(!forward)[2]->Event_0.value;
            &&& s[7 + 3 * k - 3] == Emit::Pause(16)
            &&& s[7 + 3 * k - 2] matches Emit::Event(x) && x.kind == 3 && x.code == 0x35 && -14 < 14
                * (x.value - from) - (to - from) * k < 14 && (k == 14 ==> x.value == to)
            &&& writes(s[7 + 3 * k - 1], 0, 0, 0)
        }),
{
    lemma_swipe_parts(touch, forward);
    lemma_swipe_parts(touch, !forward);
    lemma_sample(touch, forward, 14, k);
    let s = touch.swipe_of(forward);
    let b = touch.samples(forward, 14);
    assert(s[7 + (3 * k - 3)] == b[3 * k - 3]);
    assert(s[7 + (3 * k - 2)] == b[3 * k - 2]);
    assert(s[7 + (3 * k - 1)] == b[3 * k - 1]);
    assert(s[2] == touch.opening(forward)[2]);
    assert(touch.swipe_of(!forward)[2] == touch.opening(!forward)[2]);
    let x0 = touch.start_x(forward);
    let d = touch.start_x(!forward) - x0;
    let p = d * k;
    touch::law_swipe_crosses_the_panel_width(touch, forward, k);
    touch::law_swipe_crosses_the_panel_width(touch, !forward, k);
    let from = s[2]->Event_0.value;
    let to = touch.swipe_of(!forward)[2]->Event_0.value;
    assert(from == x0);
    assert(to - from == d);
    assert((to - from) * k == p);
    assert(k == 14 ==> p == 14 * d);
    let q = touch::quotient(p, 14);
    assert(-14 < 14 * q - p < 14);
    assert(touch.x_at(forward, k) == x0 + q);
    let x = s[7 + 3 * k - 2]->Event_0;
    assert(x.value - from == q);
}

/// A swipe ends, after a last pause, with the release of the contact.
pub proof fn law_swipe_releases_its_contact(touch: Touchscreen, forward: bool)
    ensures
        ({
            let s = touch.swipe_of(forward);
            &&& s.len() == 52
            &&& s[49] == Emit::Pause(16)
            &&& writes(s[50], 3, 0x39, -1)
            &&& writes(s[51], 0, 0, 0)
        }),
{
    lemma_swipe_parts(touch, forward);
    touch::law_swipe_is_one_contact(touch, forward);
}

/// A fingertip is 24 units, or the panel's largest contact where that is
/// smaller and stated.
pub proof fn law_contact_size(max_touch: i32)
    ensures
        1 <= max_touch <= 24 ==> touch::contact_size(max_touch) == max_touch,
        max_touch < 1 || max_touch > 24 ==> touch::contact_size(max_touch) == 24,
{
}

/// The panel that is found is the candidate's: its node, its two lengths, and
/// a contact size that suits it. The node is not open yet.
pub proof fn law_panel_is_the_candidates(touch: Touchscreen, c: Candidate)
    requires
        touch.behind(c),
    ensures
        touch.path@ == "/dev/input/"@ + c.file@,
        !touch.open,
        c.device matches Some(dev) && dev.limits matches Some(l) && touch.max_x == l.max_x
            && touch.max_y == l.max_y && touch.touch_size == touch::contact_size(l.max_touch),
{
    law_paths_of_nodes(c.file@);
}

/// The path of a node in the directory of input devices.
pub proof fn law_paths_of_nodes(file: Seq<char>)
    ensures
        nodes::joined("/dev/input"@, file) == "/dev/input/"@ + file,
        nodes::joined(nodes::DEV_INPUT@, file) == "/dev/input/"@ + file,
{
    reveal_strlit("/dev/input");
    reveal_strlit("/dev/input/");
    assert("/dev/input"@ + seq!['/'] =~= "/dev/input/"@);
    assert("/dev/input"@.last() == 't');
}

/// A directory and an entry of it are joined by one slash.
pub proof fn law_joined_paths(dir: Seq<char>, file: Seq<char>)
    ensures
        dir.len() > 0 && dir.last() != '/' ==> nodes::joined(dir, file) == dir + "/"@ + file,
        nodes::joined(dir + "/"@, file) == dir + "/"@ + file,
        nodes::joined(seq![], file) == file,
{
    reveal_strlit("/");
    assert("/"@ =~= seq!['/']);
    assert((dir + "/"@).last() == '/');
    assert(Seq::<char>::empty() + file =~= file);
}

/// A device has a code among its keys.
pub open spec fn lists(codes: Option<Vec<u16>>, code: u16) -> bool {
    codes matches Some(v) && v@.contains(code)
}

/// The page buttons are built in (bus 0x19), have PageUp (104) and PageDown
/// (109) but no letter A (30), and are not the daemon's own keyboard.
pub proof fn law_page_buttons(dev: InputDevice)
    ensures
        dev.page_buttons() <==> dev.bus_type == 0x19 && lists(dev.keys, 104) && lists(
            dev.keys,
            109,
        ) && !lists(dev.keys, 30) && !(dev.name matches Some(n) && n@ == "kindle-button-mapper"@),
{
}

/// A panel is touched where the image is (property 1), has both multitouch
/// coordinates (axes 0x35 and 0x36), and is not the daemon's own keyboard.
pub proof fn law_touchscreens(dev: InputDevice)
    ensures
        dev.touchscreen() <==> dev.properties@.contains(1) && lists(dev.axes, 0x35) && lists(
            dev.axes,
            0x36,
        ) && !(dev.name matches Some(n) && n@ == "kindle-button-mapper"@),
{
}

/// An event node is one whose name begins with `event`.
pub proof fn law_event_files(file: Seq<char>)
    ensures
        nodes::event_file("event"@ + file),
        nodes::event_file(file) <==> file.len() >= 5 && file.take(5) == "event"@,
{
    reveal_strlit("event");
    assert(("event"@ + file).subrange(0, 5) =~= "event"@);
    if file.len() >= 5 {
        assert(file.subrange(0, 5) =~= file.take(5));
    }
}

/// A candidate can be used where it is an event node that could be opened, of
/// the right kind, and for a swipe with both lengths above zero.
pub proof fn law_eligible_candidates(c: Candidate)
    ensures
        c.eligible(Role::PageButtons) <==> nodes::event_file(c.file@) && (
        c.device matches Some(dev) && dev.page_buttons()),
        c.eligible(Role::Touchscreen) <==> nodes::event_file(c.file@) && (
        c.device matches Some(dev) && dev.touchscreen() && (dev.limits matches Some(l) && l.max_x
            >= 1 && l.max_y >= 1)),
{
}

/// Names are ordered by the first character in which they differ, and a name
/// comes before those that go on from it.
pub proof fn law_names_are_ordered(p: Seq<char>, a: Seq<char>, b: Seq<char>)
    ensures
        a.len() > 0 && b.len() > 0 && a[0] != b[0] ==> nodes::precedes(p + a, p + b) == (a[0]
            < b[0]),
        b.len() > 0 ==> nodes::precedes(p, p + b),
        !nodes::precedes(p + b, p),
    decreases p.len(),
{
    let x = p + a;
    let y = p + b;
    if p.len() > 0 {
        law_names_are_ordered(p.skip(1), a, b);
        assert(x.skip(1) =~= p.skip(1) + a);
        assert(y.skip(1) =~= p.skip(1) + b);
    } else {
        assert(x =~= a);
        assert(y =~= b);
    }
}

/// No other usable candidate has a name before that of the one to use.
pub proof fn law_used_candidate_comes_first(
    candidates: Seq<Candidate>,
    role: Role,
    i: int,
    j: int,
)
    requires
        nodes::first_for(candidates, role, i),
        0 <= j < candidates.len(),
        candidates[j].eligible(role),
    ensures
        candidates[i].eligible(role),
        i == j || nodes::precedes(candidates[i].file@, candidates[j].file@) || candidates[i].file@
            == candidates[j].file@,
{
}

/// There is no candidate to use exactly where none can be used.
pub proof fn law_none_is_used_where_none_can_be(candidates: Seq<Candidate>, role: Role, j: int)
    requires
        nodes::none_for(candidates, role),
        0 <= j < candidates.len(),
    ensures
        !candidates[j].eligible(role),
{
}

/// The device name is what stands before the first zero byte, in what the
/// kernel filled of the buffer.
pub proof fn law_sysname(name: Seq<u8>, rest: Seq<u8>, len: nat)
    requires
        forall|i: int| 0 <= i < name.len() ==> #[trigger] name[i] != 0,
    ensures
        nodes::before_zero(name) == name,
        nodes::before_zero(name + seq![0u8] + rest) == name,
        len > name.len() ==> nodes::sysname_bytes(name + seq![0u8] + rest, len) == name,
        len <= name.len() ==> nodes::sysname_bytes(name + rest, len) == name.take(len as int),
        valid_utf8(name) ==> nodes::sysname_of(name, name.len()) == Some(decode_utf8(name)),
        !valid_utf8(name) ==> nodes::sysname_of(name, name.len()) is None,
{
    lemma_before_zero(name, rest);
    assert(name.take(name.len() as int) =~= name);
    let all = name + seq![0u8] + rest;
    if len > name.len() {
        if len < all.len() {
            let part = rest.take(len - name.len() - 1);
            assert(all.take(len as int) =~= name + seq![0u8] + part);
            lemma_before_zero(name, part);
        } else {
            assert(all.take(all.len() as int) =~= all);
        }
    } else {
        let head = name.take(len as int);
        assert forall|i: int| 0 <= i < head.len() implies #[trigger] head[i] != 0 by {
            assert(head[i] == name[i]);
        }
        lemma_before_zero(head, rest);
        if len < (name + rest).len() {
            assert((name + rest).take(len as int) =~= head);
        } else {
            assert((name + rest).take((name + rest).len() as int) =~= head);
        }
    }
}

proof fn lemma_before_zero(name: Seq<u8>, rest: Seq<u8>)
    requires
        forall|i: int| 0 <= i < name.len() ==> #[trigger] name[i] != 0,
    ensures
        nodes::before_zero(name) == name,
        nodes::before_zero(name + seq![0u8] + rest) == name,
    decreases name.len(),
{
    let all = name + seq![0u8] + rest;
    if name.len() > 0 {
        let t = name.skip(1);
        assert forall|i: int| 0 <= i < t.len() implies #[trigger] t[i] != 0 by {
            assert(t[i] == name[i + 1]);
        }
        lemma_before_zero(t, rest);
        assert(name[0] != 0);
        assert(all.skip(1) =~= t + seq![0u8] + rest);
        assert(seq![name[0]] + t =~= name);
    } else {
        assert(all[0] == 0);
        assert(nodes::before_zero(name) =~= name);
        assert(nodes::before_zero(all) =~= name);
    }
}

/// The device numbers are what the kernel writes before and after a colon, on
/// a line of its own.
pub proof fn law_device_numbers(major: nat, minor: nat)
    ensures
        nodes::device_numbers(text::decimal(major) + ":"@ + text::decimal(minor) + "\n"@) == Some(
            (text::decimal(major), text::decimal(minor)),
        ),
        nodes::device_numbers(text::decimal(major)) is None,
{
    reveal_strlit(":");
    reveal_strlit("\n");
    let a = text::decimal(major);
    let b = text::decimal(minor);
    let w = a + seq![':'] + b;
    text::lemma_decimal(major);
    text::lemma_decimal(minor);
    assert(":"@ =~= seq![':']);
    assert(laws_text::blank("\n"@));
    let none = Seq::<char>::empty();
    assert(laws_text::blank(none));
    assert(w[0] == a[0]);
    assert(w.last() == b[b.len() - 1]);
    assert(none + w + "\n"@ =~= a + ":"@ + b + "\n"@);
    laws_text::law_trimming_takes_white_space(none, w, "\n"@);
    assert(laws_text::without(a, ':'));
    laws_text::law_cut_at_the_first_separator(a, ':', b);
    assert(laws_text::solid(a));
    laws_text::law_solid_text_is_one_word(a);
}

/// An exit code is itself, and a signal counts as -1.
pub proof fn law_exit_codes(code: i32)
    ensures
        nodes::code_or(Some(code)) == code,
        nodes::code_or(None) == -1,
{
}

/// An event in the memory of a little-endian machine: the time is zero, and
/// the kind, the code and the value follow, the lowest byte first.
pub proof fn law_event_in_memory(ev: InputEvent, long: nat, i: int)
    ensures
        ({
            let b = input::event_bytes(ev, long, ByteOrder::Little);
            let n = 2 * long as int;
            &&& b.len() == n + 8
            &&& 0 <= i < n ==> b[i] == 0
            &&& b[n] + 256 * b[n + 1] == ev.kind
            &&& b[n + 2] + 256 * b[n + 3] == ev.code
            &&& b[n + 4] + 256 * b[n + 5] + 65536 * b[n + 6] + 16777216 * b[n + 7] == if ev.value
                < 0 {
                ev.value + 4294967296
            } else {
                ev.value as int
            }
        }),
        ({
            let b = input::event_bytes(ev, long, ByteOrder::Big);
            let n = 2 * long as int;
            &&& b.len() == n + 8
            &&& 0 <= i < n ==> b[i] == 0
            &&& 256 * b[n] + b[n + 1] == ev.kind
            &&& 256 * b[n + 2] + b[n + 3] == ev.code
            &&& 16777216 * b[n + 4] + 65536 * b[n + 5] + 256 * b[n + 6] + b[n + 7] == if ev.value
                < 0 {
                ev.value + 4294967296
            } else {
                ev.value as int
            }
        }),
{
    lemma_two_bytes(ev.kind as nat);
    lemma_two_bytes(ev.code as nat);
    lemma_four_bytes(input::two_complement(ev.value));
}

proof fn lemma_two_bytes(v: nat)
    requires
        v < 65536,
    ensures
        input::number_bytes(v, 2, ByteOrder::Little) == seq![(v % 256) as u8, (v / 256) as u8],
        input::number_bytes(v, 2, ByteOrder::Big) == seq![(v / 256) as u8, (v % 256) as u8],
{
    reveal_with_fuel(input::number_bytes, 3);
    assert((v / 256) % 256 == v / 256);
    assert(input::number_bytes(v, 2, ByteOrder::Little) =~= seq![
        (v % 256) as u8,
        (v / 256) as u8,
    ]);
    assert(input::number_bytes(v, 2, ByteOrder::Big) =~= seq![(v / 256) as u8, (v % 256) as u8]);
}

proof fn lemma_four_bytes(v: nat)
    requires
        v < 4294967296,
    ensures
        ({
            let b = input::number_bytes(v, 4, ByteOrder::Little);
            &&& b.len() == 4
            &&& b[0] + 256 * b[1] + 65536 * b[2] + 16777216 * b[3] == v
        }),
        ({
            let b = input::number_bytes(v, 4, ByteOrder::Big);
            &&& b.len() == 4
            &&& 16777216 * b[0] + 65536 * b[1] + 256 * b[2] + b[3] == v
        }),
{
    reveal_with_fuel(input::number_bytes, 5);
    let b0 = (v % 256) as u8;
    let b1 = (v / 256 % 256) as u8;
    let b2 = (v / 256 / 256 % 256) as u8;
    let b3 = (v / 256 / 256 / 256 % 256) as u8;
    assert(input::number_bytes(v, 4, ByteOrder::Little) =~= seq![b0, b1, b2, b3]);
    assert(input::number_bytes(v, 4, ByteOrder::Big) =~= seq![b3, b2, b1, b0]);
}

/// The setup of the keyboard: its name and zeros in the first 80 bytes, then
/// its bus (3), vendor (0x1234), product (0x5678) and version (0x111), and
/// zeros up to the end.
pub proof fn law_setup_in_memory(i: int)
    ensures
        ({
            let b = input::setup_bytes(ByteOrder::Little);
            &&& b.len() == 1116
            &&& b.take(20) == "kindle-button-mapper".spec_bytes()
            &&& 20 <= i < 80 || 88 <= i < 1116 ==> b[i] == 0
            &&& b.subrange(80, 88) == seq![0x03u8, 0x00, 0x34, 0x12, 0x78, 0x56, 0x11, 0x01]
        }),
        ({
            let b = input::setup_bytes(ByteOrder::Big);
            &&& b.len() == 1116
            &&& b.take(20) == "kindle-button-mapper".spec_bytes()
            &&& 20 <= i < 80 || 88 <= i < 1116 ==> b[i] == 0
            &&& b.subrange(80, 88) == seq![0x00u8, 0x03, 0x12, 0x34, 0x56, 0x78, 0x01, 0x11]
        }),
{
    reveal_strlit("kindle-button-mapper");
    assert(is_ascii_chars("kindle-button-mapper"@));
    is_ascii_chars_encode_utf8("kindle-button-mapper"@);
    lemma_two_bytes(0x03);
    lemma_two_bytes(0x1234);
    lemma_two_bytes(0x5678);
    lemma_two_bytes(0x111);
    lemma_four_zeros();
    let little = input::setup_bytes(ByteOrder::Little);
    let big = input::setup_bytes(ByteOrder::Big);
    assert(little.take(20) =~= "kindle-button-mapper".spec_bytes());
    assert(big.take(20) =~= "kindle-button-mapper".spec_bytes());
    assert(little.subrange(80, 88) =~= seq![0x03u8, 0x00, 0x34, 0x12, 0x78, 0x56, 0x11, 0x01]);
    assert(big.subrange(80, 88) =~= seq![0x00u8, 0x03, 0x12, 0x34, 0x56, 0x78, 0x01, 0x11]);
}

proof fn lemma_four_zeros()
    ensures
        input::number_bytes(0, 4, ByteOrder::Little) == seq![0u8, 0, 0, 0],
        input::number_bytes(0, 4, ByteOrder::Big) == seq![0u8, 0, 0, 0],
{
    reveal_with_fuel(input::number_bytes, 5);
    assert(input::number_bytes(0, 4, ByteOrder::Little) =~= seq![0u8, 0, 0, 0]);
    assert(input::number_bytes(0, 4, ByteOrder::Big) =~= seq![0u8, 0, 0, 0]);
}

/// The keyboard is created by enabling key events, then each key code in
/// ascending order, then writing the setup, and only then creating it.
pub proof fn law_creation_order(steps: Seq<SetupStep>, order: ByteOrder, i: int)
    requires
        input::creation_steps(steps, order),
    ensures
        steps.len() == 610,
        steps[0] == SetupStep::EventKind(1),
        1 <= i <= 255 ==> steps[i] == SetupStep::KeyCode(i as u32),
        256 <= i <= 607 ==> steps[i] == SetupStep::KeyCode((i - 256 + 0x160) as u32),
        steps[608] matches SetupStep::Write(bytes) && bytes@ == input::setup_bytes(order),
        steps[609] == SetupStep::Create,
{
}

/// A key is passed on exactly where there is a keyboard, as one report with its
/// own code and value.
pub proof fn law_keys_are_passed_on(injector: Option<Injector>, code: u16, value: i32)
    ensures
        injector is None ==> !vkeyboard::has_keyboard(injector),
        injector matches Some(i) ==> vkeyboard::has_keyboard(injector) == i.keyboard,
        vkeyboard::has_keyboard(injector) ==> (vkeyboard::forwarded(
            injector,
            code,
            value,
        ) matches Some(emits) && one_report(emits, code, value)),
        !vkeyboard::has_keyboard(injector) ==> vkeyboard::forwarded(injector, code, value) is None,
{
    law_forwarded_key_is_emitted(code, value);
}

/// What injecting comes to does not depend on white space around the request,
/// and without an injector it comes to nothing.
pub proof fn law_requests_are_trimmed(
    injector: Option<Injector>,
    a: Seq<char>,
    request: Seq<char>,
    b: Seq<char>,
    result: Option<Injection>,
)
    requires
        laws_text::blank(a),
        laws_text::blank(b),
        laws_text::solid(request),
        vkeyboard::injects(injector, a + request + b, result),
    ensures
        injector is None <==> result is None,
        injector matches Some(i) ==> (result matches Some(injection) && i.handles(
            request,
            injection,
        )),
        vkeyboard::injects(injector, request, result),
{
    assert(!text::white_space(request[0]));
    assert(!text::white_space(request[request.len() - 1]));
    laws_text::law_trimming_takes_white_space(a, request, b);
    laws_text::law_solid_text_is_one_word(request);
}

/// Key injection is served once, with what it was first given: a keyboard, or
/// something else to turn pages with. Serving it again changes nothing.
pub proof fn law_injection_is_served_once(
    slot: Option<Injector>,
    keyboard: bool,
    pager: Pager,
    again: bool,
    other: Pager,
)
    ensures
        vkeyboard::serving(slot, keyboard, pager).0 is Nothing <==> !keyboard && pager
            is VirtualKeyboard,
        vkeyboard::serving(slot, keyboard, pager).0 is Open <==> slot is None && (keyboard || !(
        pager is VirtualKeyboard)),
        vkeyboard::serving(slot, keyboard, pager).0 is Open ==> vkeyboard::serving(
            slot,
            keyboard,
            pager,
        ).1 == Some(Injector { keyboard, pager }),
        !(vkeyboard::serving(slot, keyboard, pager).0 is Open) ==> vkeyboard::serving(
            slot,
            keyboard,
            pager,
        ).1 == slot,
        slot is Some ==> vkeyboard::serving(slot, again, other).1 == slot,
{
}

/// Pages are turned with the page buttons where there are any, and with the
/// panel where there are none but a panel.
pub proof fn law_what_turns_pages(pager: Pager, candidates: Seq<Candidate>, j: int)
    requires
        pager.found_among(candidates),
    ensures
        0 <= j < candidates.len() && candidates[j].eligible(Role::PageButtons) ==> pager is Buttons,
        0 <= j < candidates.len() && candidates[j].eligible(Role::Touchscreen) ==> !(pager
            is VirtualKeyboard),
        pager matches Pager::Buttons { path, open } ==> !open && exists|i: int|
            0 <= i < candidates.len() && (#[trigger] candidates[i]).eligible(Role::PageButtons)
                && path@ == "/dev/input/"@ + candidates[i].file@,
        pager matches Pager::Touchscreen(touch) ==> !touch.open && exists|i: int|
            0 <= i < candidates.len() && (#[trigger] candidates[i]).eligible(Role::Touchscreen)
                && touch.path@ == "/dev/input/"@ + candidates[i].file@,
{
    match pager {
        Pager::Buttons { path, open } => {
            let i = choose|i: int| #[trigger]
                nodes::first_for(candidates, Role::PageButtons, i) && path@ == nodes::joined(
                    nodes::DEV_INPUT@,
                    candidates[i].file@,
                );
            law_paths_of_nodes(candidates[i].file@);
            assert(candidates[i].eligible(Role::PageButtons));
        },
        Pager::Touchscreen(touch) => {
            let i = choose|i: int| #[trigger]
                nodes::first_for(candidates, Role::Touchscreen, i) && touch.behind(candidates[i]);
            law_panel_is_the_candidates(touch, candidates[i]);
            assert(candidates[i].eligible(Role::Touchscreen));
            if 0 <= j < candidates.len() && candidates[j].eligible(Role::PageButtons) {
                assert(!candidates[j].eligible(Role::PageButtons));
            }
        },
        Pager::VirtualKeyboard => {
            if 0 <= j < candidates.len() {
                assert(!candidates[j].eligible(Role::PageButtons));
                assert(!candidates[j].eligible(Role::Touchscreen));
            }
        },
    }
}

/// A command has a program and, in order, its arguments.
pub open spec fn runs(c: Command, program: Seq<char>, args: Seq<Seq<char>>) -> bool {
    &&& c.program@ == program
    &&& c.args@.len() == args.len()
    &&& forall|i: int| 0 <= i < args.len() ==> c.args@[i]@ == #[trigger] args[i]
}

proof fn lemma_runs(c: Command, program: Seq<char>, args: Seq<Seq<char>>)
    requires
        c.says(program, args),
    ensures
        runs(c, program, args),
{
    assert forall|i: int| 0 <= i < args.len() implies c.args@[i]@ == #[trigger] args[i] by {
        assert(text::views(c.args@)[i] == c.args@[i]@);
    }
}

/// A uinput node that is there is left alone. A missing one is made as the
/// character device 10, 223, and given to its owner alone. It cannot be had
/// where making it fails.
pub proof fn law_uinput_node(exists: bool, made: Option<CommandResult>, step: NodeStep)
    requires
        nodes::uinput_step(exists, made, step),
    ensures
        exists <==> step is Ready,
        !exists && made is None ==> (step matches NodeStep::Run(c) && runs(
            c,
            "mknod"@,
            seq!["/dev/uinput"@, "c"@, "10"@, "223"@],
        )),
        !exists ==> (made matches Some(CommandResult::Exited { success, code }) ==> if success {
            step matches NodeStep::Finish(c) && runs(c, "chmod"@, seq!["600"@, "/dev/uinput"@])
        } else {
            step matches NodeStep::Failed(w) && w@ == "mknod exit "@ + match code {
                Some(n) => text::signed_decimal(n as int),
                None => "-1"@,
            }
        }),
        !exists ==> (made matches Some(CommandResult::NotStarted(why))
            ==> step matches NodeStep::Failed(w) && w@ == "mknod missing: "@ + why@),
{
    lemma_minus_one();
    match step {
        NodeStep::Run(c) => {
            lemma_runs(c, "mknod"@, seq!["/dev/uinput"@, "c"@, "10"@, "223"@]);
        },
        NodeStep::Finish(c) => {
            lemma_runs(c, "chmod"@, seq!["600"@, "/dev/uinput"@]);
        },
        _ => {},
    }
}

proof fn lemma_minus_one()
    ensures
        text::signed_decimal(-1) == "-1"@,
{
    reveal_strlit("-1");
    reveal_strlit("-");
    reveal_strlit("0123456789");
    laws_text::law_signed_decimal(1);
    laws_text::law_decimal_digits(0, 1);
    assert("-"@ + text::decimal(1) =~= "-1"@);
}

/// An event node that is there is left alone. For a missing one the device
/// numbers are read, and it is made with them, in their order, and given to
/// its owner alone. A failure to make it counts only where the node is still
/// missing.
pub proof fn law_event_node(
    path: Seq<char>,
    exists: bool,
    dev: Option<String>,
    made: Option<CommandResult>,
    step: EventNodeStep,
    major: Seq<char>,
    minor: Seq<char>,
)
    requires
        nodes::event_step(path, exists, dev, made, step),
    ensures
        dev is None && exists ==> step matches EventNodeStep::Node(NodeStep::Ready),
        dev is None && !exists ==> step is ReadNumbers,
        made is None ==> (dev matches Some(d) ==> nodes::device_numbers(d@) == Some((major, minor))
            ==> (step matches EventNodeStep::Node(NodeStep::Run(c)) && runs(
            c,
            "mknod"@,
            seq![path, "c"@, major, minor],
        ))),
        made is None ==> (dev matches Some(d) ==> nodes::device_numbers(d@) is None ==> step
            is BadNumbers),
        dev is Some ==> (made matches Some(CommandResult::Exited { success, code }) ==> success
            || exists ==> (step matches EventNodeStep::Node(NodeStep::Finish(c)) && runs(
            c,
            "chmod"@,
            seq!["600"@, path],
        ))),
        dev is Some ==> (made matches Some(CommandResult::Exited { success, code }) ==> !success
            && !exists ==> (step matches EventNodeStep::Node(NodeStep::Failed(w)) && w@ == "mknod "@
            + path + " exit "@ + match code {
            Some(n) => text::signed_decimal(n as int),
            None => "-1"@,
        })),
        dev is Some ==> (made matches Some(CommandResult::NotStarted(why))
            ==> step matches EventNodeStep::Node(NodeStep::Failed(w)) && w@ == why@),
{
    lemma_minus_one();
    match step {
        EventNodeStep::Node(NodeStep::Run(c)) => {
            if dev matches Some(d) && nodes::device_numbers(d@) == Some((major, minor)) {
                lemma_runs(c, "mknod"@, seq![path, "c"@, major, minor]);
            }
        },
        EventNodeStep::Node(NodeStep::Finish(c)) => {
            lemma_runs(c, "chmod"@, seq!["600"@, path]);
        },
        _ => {},
    }
}

/// The node of the virtual keyboard is an event node that its directory lists,
/// and none before it is one. It is known under that name in the directory of
/// input devices. Where there is none, the message names the directory.
pub proof fn law_node_of_the_keyboard(
    sysdir: Seq<char>,
    entries: Seq<String>,
    result: Result<DevNode, String>,
)
    requires
        nodes::node_among(sysdir, entries, result),
        sysdir.len() > 0,
        sysdir.last() != '/',
    ensures
        result is Ok <==> exists|i: int|
            0 <= i < entries.len() && nodes::event_file((#[trigger] entries[i])@),
        result matches Ok(node) ==> exists|i: int|
            0 <= i < entries.len() && nodes::event_file((#[trigger] entries[i])@) && node.path@
                == "/dev/input/"@ + entries[i]@ && node.sysfs@ == sysdir + "/"@ + entries[i]@ && (
            forall|j: int| 0 <= j < i ==> !nodes::event_file((#[trigger] entries[j])@)),
        result matches Err(why) ==> why@ == "no event node under "@ + sysdir,
{
    if let Ok(node) = result {
        let i = choose|i: int| #[trigger]
            nodes::first_event(entries, i) && node.path@ == nodes::joined(
                nodes::DEV_INPUT@,
                entries[i]@,
            ) && node.sysfs@ == nodes::joined(sysdir, entries[i]@);
        law_paths_of_nodes(entries[i]@);
        law_joined_paths(sysdir, entries[i]@);
        assert(nodes::event_file(entries[i]@));
    }
}

/// A swipe can be computed exactly where 85 times the width and 50 times the
/// height fit in 32 bits. Nothing else stands in the way of a page turn.
pub proof fn law_turnable_pagers(pager: Pager)
    ensures
        pager matches Pager::Touchscreen(t) ==> (pager.turnable() <==> -2147483648 <= 85 * t.max_x
            <= 2147483647 && -2147483648 <= 50 * t.max_y <= 2147483647),
        !(pager is Touchscreen) ==> pager.turnable(),
{
}

/// The two page turns are asked for by name.
pub proof fn law_page_requests(line: Seq<char>)
    ensures
        vkeyboard::page_request(line) <==> line == "page_next"@ || line == "page_prev"@,
{
}

/// Two keys are typed alike only where they have the same code.
pub proof fn law_typed_keys_differ(
    injector: Injector,
    a: Seq<char>,
    b: Seq<char>,
    x: Injection,
    y: Injection,
)
    requires
        injector.keyboard,
        injector.handles(a, x),
        injector.handles(b, y),
        x is Type,
        y is Type,
        emitted(x) == emitted(y),
    ensures
        config::key_of(a) is Some,
        config::key_of(a) == config::key_of(b),
{
    law_keys_are_typed(injector, a, x);
    law_keys_are_typed(injector, b, y);
}

} // verus!
