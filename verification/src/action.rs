//! What a configured script comes to: steps taken in the process itself, or a
//! call of the shell.

use crate::config;
use crate::text;
use vstd::prelude::*;

verus! {

/// Steps run in order until one lands, which is how `auto.sh` picks a reader.
#[derive(Debug, PartialEq)]
pub enum Step {
    /// HTTP Inspector event path, e.g. `GotoViewRel/1`.
    Koreader(String),
    /// Injection request, e.g. `page_next` or `KEY_LEFT`.
    Key(String),
}

/// What a step says.
pub enum StepView {
    Koreader(Seq<char>),
    Key(Seq<char>),
}

impl View for Step {
    type V = StepView;

    open spec fn view(&self) -> StepView {
        match self {
            Step::Koreader(event) => StepView::Koreader(event@),
            Step::Key(request) => StepView::Key(request@),
        }
    }
}

/// What a list of steps says.
pub open spec fn step_views(v: Seq<Step>) -> Seq<StepView> {
    Seq::new(v.len(), |i: int| v[i]@)
}

/// What becomes of a script.
#[derive(Debug, PartialEq)]
pub enum Dispatch {
    /// The steps go to the action thread, with the script they came from.
    Queue { script: String, steps: Vec<Step> },
    /// The script goes to the shell.
    Shell { script: String },
}

/// What becomes of a script: its steps go to the action thread where it has a
/// plan, and else it goes to the shell, as it is either way.
pub open spec fn dispatched(script: Seq<char>, d: Dispatch) -> bool {
    match d {
        Dispatch::Queue { script: s, steps } => s@ == script && plan_of(script) == Some(
            step_views(steps@),
        ),
        Dispatch::Shell { script: s } => s@ == script && plan_of(script) is None,
    }
}

/// Decides how a configured action is run. The shipped reader scripts are
/// handled in-process: a `/bin/sh` plus a `curl` per press costs more than the
/// page turn itself. Everything else goes to the shell.
pub fn run(script: &str) -> (r: Dispatch)
    ensures
        dispatched(script@, r),
{
    match plan(script) {
        Some(steps) => Dispatch::Queue { script: script.to_owned(), steps },
        None => Dispatch::Shell { script: script.to_owned() },
    }
}

/// The characters that mean something to the shell.
pub const SHELL_SYNTAX: &'static str = "|&;<>()$`\\\"'*?[#~=%\n";

/// Some character of the script means something to the shell.
pub open spec fn shell_syntax(script: Seq<char>) -> bool {
    exists|i: int| 0 <= i < script.len() && SHELL_SYNTAX@.contains(#[trigger] script[i])
}

/// What follows the last slash of a path.
pub open spec fn base_name(path: Seq<char>) -> Seq<char> {
    text::pieces(path, '/').last()
}

/// The steps that a script comes to, if it is one of the shipped reader
/// scripts: a path, a command, and for a KOReader event its name.
pub open spec fn plan_of(script: Seq<char>) -> Option<Seq<StepView>> {
    let w = text::words(script);
    if shell_syntax(script) {
        None
    } else if w.len() == 2 {
        command_steps(base_name(w[0]), w[1])
    } else if w.len() == 3 {
        if base_name(w[0]) == "koreader.sh"@ && w[1] == "event"@ && event_name(w[2]) {
            Some(seq![StepView::Koreader(w[2])])
        } else {
            None
        }
    } else {
        None
    }
}

/// The steps of a shipped script given one command.
pub open spec fn command_steps(name: Seq<char>, cmd: Seq<char>) -> Option<Seq<StepView>> {
    if name == "koreader.sh"@ {
        match event_of(cmd) {
            Some(event) => Some(seq![StepView::Koreader(event)]),
            None => None,
        }
    } else if name == "kindle.sh"@ {
        match native_of(cmd) {
            Some(request) => Some(seq![StepView::Key(request)]),
            None => None,
        }
    } else if name == "key.sh"@ {
        if accepted(cmd) {
            Some(seq![StepView::Key(cmd)])
        } else {
            None
        }
    } else if name == "auto.sh"@ {
        match (event_of(cmd), native_of(cmd)) {
            (Some(event), Some(request)) => Some(
                seq![StepView::Koreader(event), StepView::Key(request)],
            ),
            _ => None,
        }
    } else {
        None
    }
}

/// Translate the shipped reader scripts into steps. Shell syntax, an unknown
/// script or anything needing lipc returns None and stays a shell call.
pub fn plan(script: &str) -> (r: Option<Vec<Step>>)
    ensures
        match r {
            Some(steps) => plan_of(script@) == Some(step_views(steps@)),
            None => plan_of(script@) is None,
        },
{
    if text::has_any(script, SHELL_SYNTAX) {
        return None;
    }
    let words: Vec<String> = text::split_words(script);
    let ghost w = text::words(script@);
    assert(w == text::views(words@));
    assert(forall|i: int| 0 <= i < words@.len() ==> w[i] == #[trigger] words@[i]@);
    if words.len() < 2 || words.len() > 3 {
        // More than one argument is never a hot path.
        return None;
    }
    let path: Vec<String> = text::split(words[0].as_str(), '/');
    let name: &str = path[path.len() - 1].as_str();
    assert(name@ == text::views(path@).last());
    let cmd: &str = words[1].as_str();
    if words.len() == 3 {
        // `koreader.sh event <Name>` is any Dispatcher action the plugin
        // offers, so it is the common case rather than an exotic one.
        // Everything else taking an argument (brightness, font size) stays a
        // shell call.
        let arg: &str = words[2].as_str();
        if text::same(name, "koreader.sh") && text::same(cmd, "event") && is_event_name(arg) {
            let steps: Vec<Step> = vec![Step::Koreader(arg.to_owned())];
            assert(step_views(steps@) =~= seq![StepView::Koreader(w[2])]);
            return Some(steps);
        }
        return None;
    }
    plan_command(name, cmd)
}

fn plan_command(name: &str, cmd: &str) -> (r: Option<Vec<Step>>)
    ensures
        match r {
            Some(steps) => command_steps(name@, cmd@) == Some(step_views(steps@)),
            None => command_steps(name@, cmd@) is None,
        },
{
    if text::same(name, "koreader.sh") {
        match koreader_event(cmd) {
            Some(event) => {
                let steps: Vec<Step> = vec![Step::Koreader(event.to_owned())];
                assert(step_views(steps@) =~= seq![StepView::Koreader(event@)]);
                Some(steps)
            },
            None => None,
        }
    } else if text::same(name, "kindle.sh") {
        match native_key(cmd) {
            Some(request) => {
                let steps: Vec<Step> = vec![Step::Key(request.to_owned())];
                assert(step_views(steps@) =~= seq![StepView::Key(request@)]);
                Some(steps)
            },
            None => None,
        }
    } else if text::same(name, "key.sh") {
        // The FIFO round trip key.sh does ends in the same injection, so the
        // shell only ever cost a fork. Held keys go through here.
        match injectable(cmd) {
            Some(request) => {
                let ghost said = request@;
                let steps: Vec<Step> = vec![Step::Key(request)];
                assert(step_views(steps@) =~= seq![StepView::Key(said)]);
                Some(steps)
            },
            None => None,
        }
    } else if text::same(name, "auto.sh") {
        match (koreader_event(cmd), native_key(cmd)) {
            (Some(event), Some(request)) => {
                let steps: Vec<Step> = vec![
                    Step::Koreader(event.to_owned()),
                    Step::Key(request.to_owned()),
                ];
                assert(step_views(steps@) =~= seq![
                    StepView::Koreader(event@),
                    StepView::Key(request@),
                ]);
                Some(steps)
            },
            _ => None,
        }
    } else {
        None
    }
}

pub open spec fn ascii_letter(c: char) -> bool {
    'a' <= c <= 'z' || 'A' <= c <= 'Z'
}

pub open spec fn ascii_word(c: char) -> bool {
    ascii_letter(c) || '0' <= c <= '9' || c == '_'
}

/// A bare KOReader event name: an ASCII letter, then letters, digits and
/// underscores.
pub open spec fn event_name(s: Seq<char>) -> bool {
    &&& s.len() > 0
    &&& ascii_letter(s[0])
    &&& forall|i: int| 0 <= i < s.len() ==> ascii_word(#[trigger] s[i])
}

/// A bare KOReader event name. Anything with a slash already carries its own
/// argument and is left to the shell, which url-encodes it.
pub fn is_event_name(s: &str) -> (r: bool)
    ensures
        r == event_name(s@),
{
    let chars: Vec<char> = text::chars_of(s);
    if chars.len() == 0 {
        return false;
    }
    let first: char = chars[0];
    if !(('a' <= first && first <= 'z') || ('A' <= first && first <= 'Z')) {
        return false;
    }
    let mut i: usize = 0;
    while i < chars.len()
        invariant
            i <= chars@.len(),
            chars@ == s@,
            forall|j: int| 0 <= j < i ==> ascii_word(#[trigger] s@[j]),
        decreases chars@.len() - i,
    {
        let c: char = chars[i];
        if !(('a' <= c && c <= 'z') || ('A' <= c && c <= 'Z') || ('0' <= c && c <= '9') || c
            == '_') {
            assert(!ascii_word(s@[i as int]));
            return false;
        }
        i += 1;
    }
    true
}

/// The injector accepts the request: a page turn, or a key it can read.
pub open spec fn accepted(request: Seq<char>) -> bool {
    request == "page_next"@ || request == "page_prev"@ || config::key_of(request) is Some
}

/// Only what the injector itself accepts, so an unknown name still reaches
/// key.sh and its evemu fallback rather than being dropped in-process.
pub fn injectable(cmd: &str) -> (r: Option<String>)
    ensures
        match r {
            Some(request) => accepted(cmd@) && request@ == cmd@,
            None => !accepted(cmd@),
        },
{
    if text::same(cmd, "page_next") || text::same(cmd, "page_prev") {
        return Some(cmd.to_owned());
    }
    match config::parse_key(cmd) {
        Some(_) => Some(cmd.to_owned()),
        None => None,
    }
}

/// The KOReader event of a named shortcut.
pub open spec fn event_of(cmd: Seq<char>) -> Option<Seq<char>> {
    if cmd == "next_page"@ {
        Some("GotoViewRel/1"@)
    } else if cmd == "prev_page"@ {
        Some("GotoViewRel/-1"@)
    } else if cmd == "brightness_toggle"@ {
        Some("ToggleFrontlight"@)
    } else if cmd == "night_mode"@ {
        Some("ToggleNightMode"@)
    } else if cmd == "menu"@ {
        Some("ShowMenu"@)
    } else if cmd == "toggle_status_bar"@ {
        Some("ToggleFooterMode"@)
    } else if cmd == "rotate"@ {
        Some("IterateRotation"@)
    } else {
        None
    }
}

/// The KOReader event of a named shortcut.
pub fn koreader_event(cmd: &str) -> (r: Option<&'static str>)
    ensures
        match r {
            Some(event) => event_of(cmd@) == Some(event@),
            None => event_of(cmd@) is None,
        },
{
    if text::same(cmd, "next_page") {
        Some("GotoViewRel/1")
    } else if text::same(cmd, "prev_page") {
        Some("GotoViewRel/-1")
    } else if text::same(cmd, "brightness_toggle") {
        Some("ToggleFrontlight")
    } else if text::same(cmd, "night_mode") {
        Some("ToggleNightMode")
    } else if text::same(cmd, "menu") {
        Some("ShowMenu")
    } else if text::same(cmd, "toggle_status_bar") {
        Some("ToggleFooterMode")
    } else if text::same(cmd, "rotate") {
        Some("IterateRotation")
    } else {
        None
    }
}

/// The injection request of a named shortcut of the native reader.
pub open spec fn native_of(cmd: Seq<char>) -> Option<Seq<char>> {
    if cmd == "next_page"@ {
        Some("page_next"@)
    } else if cmd == "prev_page"@ {
        Some("page_prev"@)
    } else if cmd == "home"@ {
        Some("KEY_HOME"@)
    } else {
        None
    }
}

/// The injection request of a named shortcut of the native reader.
pub fn native_key(cmd: &str) -> (r: Option<&'static str>)
    ensures
        match r {
            Some(request) => native_of(cmd@) == Some(request@),
            None => native_of(cmd@) is None,
        },
{
    if text::same(cmd, "next_page") {
        Some("page_next")
    } else if text::same(cmd, "prev_page") {
        Some("page_prev")
    } else if text::same(cmd, "home") {
        Some("KEY_HOME")
    } else {
        None
    }
}

/// What to do next with a list of steps.
#[derive(Debug, PartialEq)]
pub enum Move {
    /// Send the event to KOReader, and say whether KOReader took it.
    Send(String),
    /// Inject the request, and say whether there was something to inject into.
    Inject(String),
    /// Hand the script to the shell, and stop.
    Shell(String),
    /// Stop: the last step landed.
    Landed,
    /// Stop: no step landed.
    NoneLanded,
}

/// What a move says.
pub enum MoveView {
    Send(Seq<char>),
    Inject(Seq<char>),
    Shell(Seq<char>),
    Landed,
    NoneLanded,
}

impl View for Move {
    type V = MoveView;

    open spec fn view(&self) -> MoveView {
        match self {
            Move::Send(event) => MoveView::Send(event@),
            Move::Inject(request) => MoveView::Inject(request@),
            Move::Shell(script) => MoveView::Shell(script@),
            Move::Landed => MoveView::Landed,
            Move::NoneLanded => MoveView::NoneLanded,
        }
    }
}

/// The move that tries a step.
pub open spec fn attempt(step: StepView) -> MoveView {
    match step {
        StepView::Koreader(event) => MoveView::Send(event),
        StepView::Key(request) => MoveView::Inject(request),
    }
}

/// What follows once `tried` steps have been tried, the last of which landed
/// or not. Where a key has nothing to be injected into on this firmware, the
/// script gets it back, and taps the screen instead.
pub open spec fn move_after(
    script: Seq<char>,
    steps: Seq<StepView>,
    tried: int,
    landed: bool,
) -> MoveView {
    if tried > 0 && landed {
        MoveView::Landed
    } else if tried > 0 && steps[tried - 1] is Key {
        MoveView::Shell(script)
    } else if tried < steps.len() {
        attempt(steps[tried])
    } else {
        MoveView::NoneLanded
    }
}

/// Decides the next move: `tried` steps have been tried, and `landed` says
/// whether the last of them did.
pub fn execute(script: &str, steps: &Vec<Step>, tried: usize, landed: bool) -> (r: Move)
    requires
        tried <= steps@.len(),
    ensures
        r@ == move_after(script@, step_views(steps@), tried as int, landed),
{
    if tried > 0 {
        if landed {
            return Move::Landed;
        }
        if let Step::Key(_) = &steps[tried - 1] {
            return Move::Shell(script.to_owned());
        }
    }
    if tried < steps.len() {
        match &steps[tried] {
            Step::Koreader(event) => Move::Send(event.clone()),
            Step::Key(request) => Move::Inject(request.clone()),
        }
    } else {
        Move::NoneLanded
    }
}

/// All the moves, from the one after `tried` steps on, where `lands[i]` says
/// whether step `i` lands when it is tried.
pub open spec fn moves_from(
    script: Seq<char>,
    steps: Seq<StepView>,
    lands: Seq<bool>,
    tried: int,
) -> Seq<MoveView>
    decreases steps.len() - tried,
{
    let next = move_after(script, steps, tried, tried > 0 && lands[tried - 1]);
    if tried < steps.len() && (next is Send || next is Inject) {
        seq![next] + moves_from(script, steps, lands, tried + 1)
    } else {
        seq![next]
    }
}

/// Steps run in order until one lands. A key that does not land ends the run
/// in a shell call, and nothing runs after that.
pub proof fn law_steps_run_until_one_lands(
    script: Seq<char>,
    steps: Seq<StepView>,
    lands: Seq<bool>,
    last: int,
)
    requires
        lands.len() == steps.len(),
        0 <= last < steps.len(),
        forall|i: int|
            #![trigger steps[i]]
            0 <= i < last ==> steps[i] is Koreader && !lands[i],
        lands[last] || steps[last] is Key,
    ensures
        moves_from(script, steps, lands, 0) == Seq::new(
            (last + 1) as nat,
            |i: int| attempt(steps[i]),
        ).push(
            if lands[last] {
                MoveView::Landed
            } else {
                MoveView::Shell(script)
            },
        ),
{
    lemma_moves(script, steps, lands, last, 0);
    assert(Seq::new((last + 1) as nat, |i: int| attempt(steps[i])) =~= Seq::new(
        (last + 1) as nat,
        |i: int| attempt(steps[0 + i]),
    ));
}

proof fn lemma_moves(
    script: Seq<char>,
    steps: Seq<StepView>,
    lands: Seq<bool>,
    last: int,
    from: int,
)
    requires
        lands.len() == steps.len(),
        0 <= from <= last < steps.len(),
        forall|i: int|
            #![trigger steps[i]]
            0 <= i < last ==> steps[i] is Koreader && !lands[i],
        lands[last] || steps[last] is Key,
    ensures
        moves_from(script, steps, lands, from) == Seq::new(
            (last + 1 - from) as nat,
            |i: int| attempt(steps[from + i]),
        ).push(
            if lands[last] {
                MoveView::Landed
            } else {
                MoveView::Shell(script)
            },
        ),
    decreases last - from,
{
    let end = if lands[last] {
        MoveView::Landed
    } else {
        MoveView::Shell(script)
    };
    let tail = moves_from(script, steps, lands, from + 1);
    if from > 0 {
        assert(steps[from - 1] is Koreader && !lands[from - 1]);
    }
    assert(moves_from(script, steps, lands, from) == seq![attempt(steps[from])] + tail);
    if from < last {
        lemma_moves(script, steps, lands, last, from + 1);
    } else {
        assert(tail == seq![end]);
    }
    assert(seq![attempt(steps[from])] + tail =~= Seq::new(
        (last + 1 - from) as nat,
        |i: int| attempt(steps[from + i]),
    ).push(end));
}

/// Where KOReader takes none of the steps, each of them has been sent to it
/// once, in order, and nothing else has been done.
pub proof fn law_no_step_lands(script: Seq<char>, steps: Seq<StepView>, lands: Seq<bool>)
    requires
        lands.len() == steps.len(),
        forall|i: int|
            #![trigger steps[i]]
            0 <= i < steps.len() ==> steps[i] is Koreader && !lands[i],
    ensures
        moves_from(script, steps, lands, 0) == Seq::new(
            steps.len(),
            |i: int| attempt(steps[i]),
        ).push(MoveView::NoneLanded),
{
    lemma_no_moves(script, steps, lands, 0);
    assert(Seq::new(steps.len(), |i: int| attempt(steps[i])) =~= Seq::new(
        steps.len(),
        |i: int| attempt(steps[0 + i]),
    ));
}

proof fn lemma_no_moves(script: Seq<char>, steps: Seq<StepView>, lands: Seq<bool>, from: int)
    requires
        lands.len() == steps.len(),
        0 <= from <= steps.len(),
        forall|i: int|
            #![trigger steps[i]]
            0 <= i < steps.len() ==> steps[i] is Koreader && !lands[i],
    ensures
        moves_from(script, steps, lands, from) == Seq::new(
            (steps.len() - from) as nat,
            |i: int| attempt(steps[from + i]),
        ).push(MoveView::NoneLanded),
    decreases steps.len() - from,
{
    let said = Seq::new((steps.len() - from) as nat, |i: int| attempt(steps[from + i])).push(
        MoveView::NoneLanded,
    );
    if from > 0 {
        assert(steps[from - 1] is Koreader && !lands[from - 1]);
    }
    if from < steps.len() {
        assert(steps[from] is Koreader && !lands[from]);
        lemma_no_moves(script, steps, lands, from + 1);
        let tail = moves_from(script, steps, lands, from + 1);
        assert(moves_from(script, steps, lands, from) == seq![attempt(steps[from])] + tail);
        assert(seq![attempt(steps[from])] + tail =~= said);
    } else {
        assert(moves_from(script, steps, lands, from) =~= said);
    }
}

/// A script with shell syntax in it always goes to the shell.
pub proof fn law_shell_syntax_stays_shell(script: Seq<char>, i: int)
    requires
        0 <= i < script.len(),
        SHELL_SYNTAX@.contains(script[i]),
    ensures
        plan_of(script) is None,
{
}

} // verus!
