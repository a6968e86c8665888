//! What holds of planning a script and of talking to KOReader.

use crate::action;
use crate::action::{Dispatch, Move, MoveView, Step, StepView};
use crate::config;
use crate::koreader;
use crate::koreader::{Exchange, Reply};
use crate::laws_text;
use crate::text;
use vstd::prelude::*;
use vstd::utf8::*;

verus! {

/// The script is a call of a reader script with one command, and has nothing
/// in it that means something to the shell.
pub open spec fn calls(script: Seq<char>, name: Seq<char>, cmd: Seq<char>) -> bool {
    &&& text::words(script).len() == 2
    &&& action::base_name(text::words(script)[0]) == name
    &&& text::words(script)[1] == cmd
    &&& !action::shell_syntax(script)
}

/// The characters that mean something to the shell.
pub proof fn law_shell_characters(script: Seq<char>)
    ensures
        action::shell_syntax(script) <==> exists|i: int|
            0 <= i < script.len() && "|&;<>()$`\\\"'*?[#~=%\n"@.contains(#[trigger] script[i]),
{
}

/// The base name of a path is what follows its last slash.
pub proof fn law_base_name(dir: Seq<char>, name: Seq<char>)
    requires
        laws_text::without(name, '/'),
    ensures
        action::base_name(name) == name,
        action::base_name(dir + seq!['/'] + name) == name,
{
    let path = dir + seq!['/'] + name;
    let n = dir.len() as int;
    laws_text::law_separators_part_pieces(name, '/', seq![]);
    assert forall|i: int| n < i < path.len() implies #[trigger] path[i] != '/' by {
        assert(path[i] == name[i - n - 1]);
    }
    text::lemma_last_piece(path, '/', n);
    assert(path.skip(n + 1) =~= name);
}

proof fn lemma_script_names()
    ensures
        "koreader.sh"@ != "kindle.sh"@,
        "koreader.sh"@ != "key.sh"@,
        "koreader.sh"@ != "auto.sh"@,
        "kindle.sh"@ != "key.sh"@,
        "kindle.sh"@ != "auto.sh"@,
        "key.sh"@ != "auto.sh"@,
{
    reveal_strlit("koreader.sh");
    reveal_strlit("kindle.sh");
    reveal_strlit("key.sh");
    reveal_strlit("auto.sh");
    assert("koreader.sh"@.len() == 11 && "kindle.sh"@.len() == 9 && "key.sh"@.len() == 6
        && "auto.sh"@.len() == 7);
}

proof fn lemma_commands()
    ensures
        "next_page"@ != "prev_page"@,
        "next_page"@ != "brightness_toggle"@,
        "next_page"@ != "night_mode"@,
        "next_page"@ != "menu"@,
        "next_page"@ != "toggle_status_bar"@,
        "next_page"@ != "rotate"@,
        "prev_page"@ != "brightness_toggle"@,
        "prev_page"@ != "night_mode"@,
        "prev_page"@ != "menu"@,
        "prev_page"@ != "toggle_status_bar"@,
        "prev_page"@ != "rotate"@,
        "brightness_toggle"@ != "night_mode"@,
        "brightness_toggle"@ != "menu"@,
        "brightness_toggle"@ != "toggle_status_bar"@,
        "brightness_toggle"@ != "rotate"@,
        "night_mode"@ != "menu"@,
        "night_mode"@ != "toggle_status_bar"@,
        "night_mode"@ != "rotate"@,
        "menu"@ != "toggle_status_bar"@,
        "menu"@ != "rotate"@,
        "toggle_status_bar"@ != "rotate"@,
        "home"@ != "next_page"@,
        "home"@ != "prev_page"@,
        "home"@ != "brightness_toggle"@,
        "home"@ != "night_mode"@,
        "home"@ != "menu"@,
        "home"@ != "toggle_status_bar"@,
        "home"@ != "rotate"@,
{
    reveal_strlit("next_page");
    reveal_strlit("prev_page");
    reveal_strlit("brightness_toggle");
    reveal_strlit("night_mode");
    reveal_strlit("menu");
    reveal_strlit("toggle_status_bar");
    reveal_strlit("rotate");
    reveal_strlit("home");
    assert("next_page"@[0] == 'n' && "prev_page"@[0] == 'p');
    assert("brightness_toggle"@[0] == 'b' && "toggle_status_bar"@[0] == 't');
    assert("next_page"@.len() == 9 && "prev_page"@.len() == 9 && "night_mode"@.len() == 10);
    assert("menu"@[0] == 'm' && "home"@[0] == 'h');
    assert("menu"@.len() == 4 && "home"@.len() == 4 && "rotate"@.len() == 6);
    assert("brightness_toggle"@.len() == 17 && "toggle_status_bar"@.len() == 17);
}

/// Each shortcut of `koreader.sh` is one event for KOReader, and any other
/// command of it goes to the shell.
pub proof fn law_koreader_shortcuts(script: Seq<char>, cmd: Seq<char>)
    requires
        calls(script, "koreader.sh"@, cmd),
    ensures
        cmd == "next_page"@ ==> action::plan_of(script) == Some(
            seq![StepView::Koreader("GotoViewRel/1"@)],
        ),
        cmd == "prev_page"@ ==> action::plan_of(script) == Some(
            seq![StepView::Koreader("GotoViewRel/-1"@)],
        ),
        cmd == "brightness_toggle"@ ==> action::plan_of(script) == Some(
            seq![StepView::Koreader("ToggleFrontlight"@)],
        ),
        cmd == "night_mode"@ ==> action::plan_of(script) == Some(
            seq![StepView::Koreader("ToggleNightMode"@)],
        ),
        cmd == "menu"@ ==> action::plan_of(script) == Some(seq![StepView::Koreader("ShowMenu"@)]),
        cmd == "toggle_status_bar"@ ==> action::plan_of(script) == Some(
            seq![StepView::Koreader("ToggleFooterMode"@)],
        ),
        cmd == "rotate"@ ==> action::plan_of(script) == Some(
            seq![StepView::Koreader("IterateRotation"@)],
        ),
        cmd != "next_page"@ && cmd != "prev_page"@ && cmd != "brightness_toggle"@ && cmd
            != "night_mode"@ && cmd != "menu"@ && cmd != "toggle_status_bar"@ && cmd != "rotate"@
            ==> action::plan_of(script) is None,
{
    lemma_script_names();
    lemma_commands();
}

/// Each shortcut of `kindle.sh` is one injection, and any other command of it
/// goes to the shell.
pub proof fn law_kindle_shortcuts(script: Seq<char>, cmd: Seq<char>)
    requires
        calls(script, "kindle.sh"@, cmd),
    ensures
        cmd == "next_page"@ ==> action::plan_of(script) == Some(seq![StepView::Key("page_next"@)]),
        cmd == "prev_page"@ ==> action::plan_of(script) == Some(seq![StepView::Key("page_prev"@)]),
        cmd == "home"@ ==> action::plan_of(script) == Some(seq![StepView::Key("KEY_HOME"@)]),
        cmd != "next_page"@ && cmd != "prev_page"@ && cmd != "home"@ ==> action::plan_of(
            script,
        ) is None,
{
    lemma_script_names();
    lemma_commands();
}

/// `auto.sh` does what `koreader.sh` would with the same command and, after
/// that, what `kindle.sh` would. Where either of them would need the shell, so
/// does `auto.sh`.
pub proof fn law_auto_is_both_readers(
    auto: Seq<char>,
    koreader: Seq<char>,
    kindle: Seq<char>,
    cmd: Seq<char>,
)
    requires
        calls(auto, "auto.sh"@, cmd),
        calls(koreader, "koreader.sh"@, cmd),
        calls(kindle, "kindle.sh"@, cmd),
    ensures
        match (action::plan_of(koreader), action::plan_of(kindle)) {
            (Some(a), Some(b)) => action::plan_of(auto) == Some(a + b),
            _ => action::plan_of(auto) is None,
        },
{
    lemma_script_names();
    if let (Some(a), Some(b)) = (action::plan_of(koreader), action::plan_of(kindle)) {
        assert(a + b =~= seq![a[0], b[0]]);
    }
}

/// `auto.sh` turns the page in KOReader and, failing that, in the native
/// reader: forward in both, or back in both. Any other command of it goes to
/// the shell.
pub proof fn law_auto_turns_pages(script: Seq<char>, cmd: Seq<char>)
    requires
        calls(script, "auto.sh"@, cmd),
    ensures
        cmd == "next_page"@ ==> action::plan_of(script) == Some(
            seq![StepView::Koreader("GotoViewRel/1"@), StepView::Key("page_next"@)],
        ),
        cmd == "prev_page"@ ==> action::plan_of(script) == Some(
            seq![StepView::Koreader("GotoViewRel/-1"@), StepView::Key("page_prev"@)],
        ),
        cmd != "next_page"@ && cmd != "prev_page"@ ==> action::plan_of(script) is None,
{
    lemma_script_names();
    lemma_commands();
}

/// `key.sh` injects exactly its command where that is a page turn or a key,
/// and goes to the shell where it is neither.
pub proof fn law_key_sh_injects_its_command(script: Seq<char>, cmd: Seq<char>)
    requires
        calls(script, "key.sh"@, cmd),
    ensures
        cmd == "page_next"@ || cmd == "page_prev"@ || config::key_of(cmd) is Some
            ==> action::plan_of(script) == Some(seq![StepView::Key(cmd)]),
        cmd != "page_next"@ && cmd != "page_prev"@ && config::key_of(cmd) is None
            ==> action::plan_of(script) is None,
{
    lemma_script_names();
}

/// A call of any other script goes to the shell.
pub proof fn law_other_scripts_stay_shell(script: Seq<char>, name: Seq<char>, cmd: Seq<char>)
    requires
        calls(script, name, cmd),
        name != "koreader.sh"@,
        name != "kindle.sh"@,
        name != "key.sh"@,
        name != "auto.sh"@,
    ensures
        action::plan_of(script) is None,
{
}

/// A letter of ASCII.
pub open spec fn letter(c: char) -> bool {
    "ABCDEFGHIJKLMNOPQRSTUVWXYZ"@.contains(c) || "abcdefghijklmnopqrstuvwxyz"@.contains(c)
}

proof fn lemma_letter(c: char)
    ensures
        letter(c) <==> action::ascii_letter(c),
        "0123456789"@.contains(c) <==> '0' <= c <= '9',
{
    reveal_strlit("ABCDEFGHIJKLMNOPQRSTUVWXYZ");
    reveal_strlit("abcdefghijklmnopqrstuvwxyz");
    reveal_strlit("0123456789");
    let large = "ABCDEFGHIJKLMNOPQRSTUVWXYZ"@;
    let small = "abcdefghijklmnopqrstuvwxyz"@;
    let ten = "0123456789"@;
    assert forall|k: int| 0 <= k < 26 implies (#[trigger] large[k]) as int == 'A' as int + k by {}
    assert forall|k: int| 0 <= k < 26 implies (#[trigger] small[k]) as int == 'a' as int + k by {}
    assert forall|k: int| 0 <= k < 10 implies (#[trigger] ten[k]) as int == '0' as int + k by {}
    if 'A' <= c <= 'Z' {
        assert(large[c as int - 'A' as int] == c);
    }
    if 'a' <= c <= 'z' {
        assert(small[c as int - 'a' as int] == c);
    }
    if '0' <= c <= '9' {
        assert(ten[c as int - '0' as int] == c);
    }
}

/// The name of an event begins with a letter, and has letters, digits and
/// underscores in it.
pub proof fn law_event_names(s: Seq<char>)
    ensures
        action::event_name(s) <==> s.len() > 0 && letter(s[0]) && forall|i: int|
            0 <= i < s.len() ==> letter(#[trigger] s[i]) || "0123456789"@.contains(s[i]) || s[i]
                == '_',
{
    assert forall|i: int| 0 <= i < s.len() implies #[trigger] action::ascii_word(s[i]) == (letter(
        s[i],
    ) || "0123456789"@.contains(s[i]) || s[i] == '_') by {
        lemma_letter(s[i]);
    }
    if s.len() > 0 {
        lemma_letter(s[0]);
    }
    if s.len() > 0 && letter(s[0]) && forall|i: int|
        0 <= i < s.len() ==> letter(#[trigger] s[i]) || "0123456789"@.contains(s[i]) || s[i]
            == '_' {
        assert forall|i: int| 0 <= i < s.len() implies action::ascii_word(#[trigger] s[i]) by {
            assert(letter(s[i]) || "0123456789"@.contains(s[i]) || s[i] == '_');
        }
    }
    if action::event_name(s) {
        assert forall|i: int| 0 <= i < s.len() implies letter(#[trigger] s[i])
            || "0123456789"@.contains(s[i]) || s[i] == '_' by {
            assert(action::ascii_word(s[i]));
        }
    }
}

/// `koreader.sh event NAME` sends exactly that event, and no other call with
/// two arguments is handled in-process. Nor is one with none, or with more.
pub proof fn law_calls_with_more_words(script: Seq<char>)
    ensures
        ({
            let w = text::words(script);
            &&& w.len() == 3 && !action::shell_syntax(script) && action::base_name(w[0])
                == "koreader.sh"@ && w[1] == "event"@ && action::event_name(w[2])
                ==> action::plan_of(script) == Some(seq![StepView::Koreader(w[2])])
            &&& w.len() == 3 && (action::base_name(w[0]) != "koreader.sh"@ || w[1] != "event"@
                || !action::event_name(w[2])) ==> action::plan_of(script) is None
            &&& w.len() < 2 || w.len() > 3 ==> action::plan_of(script) is None
        }),
{
}

/// What two calls are planned as does not depend on where the script lies nor
/// on the white space between the words.
pub proof fn law_same_call_same_plan(a: Seq<char>, b: Seq<char>, name: Seq<char>, cmd: Seq<char>)
    requires
        calls(a, name, cmd),
        calls(b, name, cmd),
    ensures
        action::plan_of(a) == action::plan_of(b),
{
}

/// A step for KOReader is tried by sending its own event, and a key by
/// injecting its own request.
pub proof fn law_steps_are_tried_as_they_are(
    script: Seq<char>,
    steps: Seq<StepView>,
    tried: int,
    said: Seq<char>,
)
    requires
        0 <= tried < steps.len(),
        tried > 0 ==> steps[tried - 1] is Koreader,
    ensures
        steps[tried] == StepView::Koreader(said) ==> action::move_after(
            script,
            steps,
            tried,
            false,
        ) == MoveView::Send(said),
        steps[tried] == StepView::Key(said) ==> action::move_after(script, steps, tried, false)
            == MoveView::Inject(said),
{
}

/// Once a step has landed nothing more is done. A key that did not land leaves
/// the script to the shell, and an event that did not land is let go where no
/// step follows.
pub proof fn law_how_a_run_ends(script: Seq<char>, steps: Seq<StepView>, tried: int)
    requires
        0 < tried <= steps.len(),
    ensures
        action::move_after(script, steps, tried, true) == MoveView::Landed,
        steps[tried - 1] is Key ==> action::move_after(script, steps, tried, false)
            == MoveView::Shell(script),
        steps[tried - 1] is Koreader && tried == steps.len() ==> action::move_after(
            script,
            steps,
            tried,
            false,
        ) == MoveView::NoneLanded,
{
}

/// Steps and moves say what they hold.
pub proof fn law_steps_and_moves_show_their_text(s: String)
    ensures
        Step::Koreader(s)@ == StepView::Koreader(s@),
        Step::Key(s)@ == StepView::Key(s@),
        Move::Send(s)@ == MoveView::Send(s@),
        Move::Inject(s)@ == MoveView::Inject(s@),
        Move::Shell(s)@ == MoveView::Shell(s@),
        Move::Landed@ == MoveView::Landed,
        Move::NoneLanded@ == MoveView::NoneLanded,
{
}

/// A list of steps says what each of them says.
pub proof fn law_step_lists(steps: Seq<Step>, i: int)
    requires
        0 <= i < steps.len(),
    ensures
        action::step_views(steps).len() == steps.len(),
        action::step_views(steps)[i] == steps[i]@,
{
}

proof fn lemma_port()
    ensures
        text::decimal(koreader::PORT as nat) == "8080"@,
{
    reveal_strlit("8080");
    reveal_strlit("0123456789");
    laws_text::law_decimal_digits(0, 8);
    laws_text::law_decimal_digits(8, 0);
    laws_text::law_decimal_digits(80, 8);
    laws_text::law_decimal_digits(808, 0);
    assert(text::decimal(8080) =~= "8080"@);
}

/// The request for an event, line by line: it asks for the event's own path,
/// names the host and closes the connection.
pub proof fn law_request_lines(event: Seq<char>)
    ensures
        koreader::request_of(event) == "GET /koreader/event/"@ + event + " HTTP/1.1\r\n"@
            + "Host: 127.0.0.1:8080\r\n"@ + "Connection: close\r\n"@ + "\r\n"@,
{
    lemma_port();
    reveal_strlit("GET /koreader/event/");
    reveal_strlit(" HTTP/1.1\r\nHost: 127.0.0.1:");
    reveal_strlit("8080");
    reveal_strlit("\r\nConnection: close\r\n\r\n");
    reveal_strlit(" HTTP/1.1\r\n");
    reveal_strlit("Host: 127.0.0.1:8080\r\n");
    reveal_strlit("Connection: close\r\n");
    reveal_strlit("\r\n");
    assert(" HTTP/1.1\r\nHost: 127.0.0.1:"@ + "8080"@ + "\r\nConnection: close\r\n\r\n"@
        =~= " HTTP/1.1\r\n"@ + "Host: 127.0.0.1:8080\r\n"@ + "Connection: close\r\n"@ + "\r\n"@);
    let head = "GET /koreader/event/"@ + event;
    assert(koreader::request_of(event) =~= head + (" HTTP/1.1\r\nHost: 127.0.0.1:"@ + "8080"@
        + "\r\nConnection: close\r\n\r\n"@));
}

proof fn lemma_gap(a: Seq<char>, gap: Seq<char>, rest: Seq<char>)
    requires
        laws_text::solid(a),
        laws_text::blank(gap),
        gap.len() > 0,
    ensures
        text::words(a + gap + rest) == seq![a] + text::words(rest),
{
    laws_text::law_solid_text_is_one_word(a);
    laws_text::law_white_space_parts_words(a, gap, rest);
}

/// The second word of the request for an event without white space is the path
/// of that very event.
pub proof fn law_request_asks_for_its_event(event: Seq<char>)
    requires
        forall|i: int| 0 <= i < event.len() ==> !text::white_space(#[trigger] event[i]),
    ensures
        text::words(koreader::request_of(event)).len() >= 2,
        text::words(koreader::request_of(event))[0] == "GET"@,
        text::words(koreader::request_of(event))[1] == "/koreader/event/"@ + event,
{
    reveal_strlit("GET");
    reveal_strlit(" ");
    reveal_strlit("/koreader/event/");
    reveal_strlit("GET /koreader/event/");
    reveal_strlit(" HTTP/1.1\r\n");
    reveal_strlit("HTTP/1.1\r\n");
    law_request_lines(event);
    let path = "/koreader/event/"@ + event;
    let tail = "HTTP/1.1\r\n"@ + "Host: 127.0.0.1:8080\r\n"@ + "Connection: close\r\n"@
        + "\r\n"@;
    assert(laws_text::blank(" "@));
    assert forall|i: int| 0 <= i < path.len() implies !text::white_space(#[trigger] path[i]) by {
        if i < 16 {
            assert(path[i] == "/koreader/event/"@[i]);
        } else {
            assert(path[i] == event[i - 16]);
        }
    }
    lemma_gap(path, " "@, tail);
    lemma_gap("GET"@, " "@, path + " "@ + tail);
    assert("GET /koreader/event/"@ =~= "GET"@ + " "@ + "/koreader/event/"@);
    assert(" HTTP/1.1\r\n"@ =~= " "@ + "HTTP/1.1\r\n"@);
    assert(koreader::request_of(event) =~= "GET"@ + " "@ + (path + " "@ + tail));
}

/// No two events have the same request.
pub proof fn law_requests_tell_events_apart(a: Seq<char>, b: Seq<char>)
    ensures
        koreader::request_of(a) == koreader::request_of(b) ==> a == b,
{
    law_request_lines(a);
    law_request_lines(b);
    let head = "GET /koreader/event/"@;
    let n = head.len() as int;
    let x = koreader::request_of(a);
    let y = koreader::request_of(b);
    let tail = " HTTP/1.1\r\n"@ + "Host: 127.0.0.1:8080\r\n"@ + "Connection: close\r\n"@
        + "\r\n"@;
    assert(x =~= head + a + tail);
    assert(y =~= head + b + tail);
    if x == y {
        assert(x.len() == n + a.len() + tail.len());
        assert(y.len() == n + b.len() + tail.len());
        assert(x.subrange(n, n + a.len()) =~= a);
        assert(y.subrange(n, n + b.len()) =~= b);
    }
}

/// The status of a reply is the number in its second word, whatever follows.
/// A reply that is no text, or has no second word, or none that is a number of
/// 16 bits, has no status.
pub proof fn law_status_is_the_second_word(
    response: Seq<u8>,
    first: Seq<char>,
    gap: Seq<char>,
    second: Seq<char>,
    rest: Seq<char>,
)
    requires
        laws_text::solid(first),
        laws_text::blank(gap),
        gap.len() > 0,
        laws_text::solid(second),
        rest.len() > 0 ==> text::white_space(rest[0]),
    ensures
        valid_utf8(response) && decode_utf8(response) == first + gap + second + rest
            ==> koreader::status_of(response) == match text::unsigned(second, 10, 65535) {
            Some(code) => Some(code as u16),
            None => None,
        },
        valid_utf8(response) && decode_utf8(response) == first + gap ==> koreader::status_of(
            response,
        ) is None,
        !valid_utf8(response) ==> koreader::status_of(response) is None,
{
    let tail = second + rest;
    assert(first + gap + second + rest =~= first + gap + tail);
    lemma_gap(first, gap, tail);
    laws_text::law_solid_text_is_one_word(second);
    if rest.len() > 0 {
        let one = rest.take(1);
        assert(laws_text::blank(one));
        assert(second + rest =~= second + one + rest.skip(1));
        lemma_gap(second, one, rest.skip(1));
    } else {
        assert(tail =~= second);
    }
    assert(text::words(first + gap + tail)[1] == second);
    lemma_gap(first, gap, seq![]);
    laws_text::law_blank_text_has_no_words(seq![]);
    assert(first + gap + seq![] =~= first + gap);
}

/// A number of 16 bits in the second word is the status.
pub proof fn law_status_reads_back(response: Seq<u8>, first: Seq<char>, code: u16)
    requires
        laws_text::solid(first),
        valid_utf8(response),
        decode_utf8(response) == first + " "@ + text::decimal(code as nat) + " OK\r\n"@,
    ensures
        koreader::status_of(response) == Some(code),
{
    reveal_strlit(" ");
    reveal_strlit(" OK\r\n");
    text::lemma_decimal(code as nat);
    text::law_decimal_reads_back(code as nat, 65535);
    let digits = text::decimal(code as nat);
    assert(laws_text::solid(digits));
    assert(laws_text::blank(" "@));
    law_status_is_the_second_word(response, first, " "@, digits, " OK\r\n"@);
}

/// What an exchange with KOReader comes to: a status from 200 to 299 is an
/// acceptance and any other a rejection, of that very code.
pub proof fn law_replies(exchange: Exchange)
    ensures
        exchange is Unreachable || exchange is Unsent <==> koreader::reply_of(exchange)
            == Reply::NotDelivered,
        exchange is Unanswered <==> koreader::reply_of(exchange) == Reply::NoReply,
        exchange matches Exchange::Answered(bytes) ==> {
            &&& bytes@.len() == 0 <==> koreader::reply_of(exchange) == Reply::Closed
            &&& forall|code: u16|
                bytes@.len() > 0 && #[trigger] koreader::status_of(bytes@) == Some(code) && 200
                    <= code <= 299 <==> koreader::reply_of(exchange) == Reply::Accepted(code)
            &&& forall|code: u16|
                bytes@.len() > 0 && #[trigger] koreader::status_of(bytes@) == Some(code) && !(200
                    <= code <= 299) <==> koreader::reply_of(exchange) == Reply::Rejected(code)
            &&& bytes@.len() > 0 && koreader::status_of(bytes@) is None <==> koreader::reply_of(
                exchange,
            ) == Reply::NoStatus
        },
{
}

/// KOReader took the event exactly where the request was delivered: an answer
/// of any kind, or none at all, counts as taken.
pub proof fn law_delivered_events_are_taken(exchange: Exchange)
    ensures
        koreader::taken(exchange) <==> exchange is Unanswered || exchange is Answered,
        koreader::taken(exchange) <==> koreader::reply_of(exchange) != Reply::NotDelivered,
{
}

/// A script goes on as it is. It goes to the action thread with its own steps
/// exactly where it has a plan, and to the shell where it has none.
pub proof fn law_dispatch_follows_the_plan(script: Seq<char>, d: Dispatch)
    requires
        action::dispatched(script, d),
    ensures
        action::plan_of(script) is Some <==> d is Queue,
        action::plan_of(script) is None <==> d is Shell,
        d matches Dispatch::Queue { script: s, steps } ==> s@ == script && steps@.len()
            == action::plan_of(script)->0.len() && forall|i: int|
            0 <= i < steps@.len() ==> (#[trigger] steps@[i])@ == action::plan_of(script)->0[i],
        d matches Dispatch::Shell { script: s } ==> s@ == script,
{
    if let Dispatch::Queue { script: s, steps } = d {
        assert forall|i: int| 0 <= i < steps@.len() implies (#[trigger] steps@[i])@
            == action::plan_of(script)->0[i] by {
            law_step_lists(steps@, i);
        }
    }
}

} // verus!
