use vstd::prelude::*;
use crate::keys::{InputEvent, KeyCode};
use crate::summary::opt_text;
use crate::text::{append_str, chars_of, contains_sub, has_substring, spec_lines, split_lines, string_from_chars};
use std::sync::mpsc::Receiver;

verus! {

broadcast use vstd::string::group_string_axioms;

/// The receiving end of a std channel, declared so that the screen can hold one.
#[verifier::external_type_specification]
#[verifier::external_body]
#[verifier::reject_recursive_types(T)]
pub struct ExReceiver<T>(Receiver<T>);

/// What a running task reports to the execution screen.
#[derive(Debug)]
pub enum ExecutionEvent {
    Log(String),
    Error(String),
    Done,
}

/// The execution screen: the log so far, the error if one came, whether the task is done,
/// the channel it reports on, whether the user asked to go back or to quit, the answer
/// typed to a `[y/N]` prompt and not yet passed to the task, and how many log lines there
/// were when the last answer was typed.
#[derive(Debug)]
pub struct ExecutingState {
    pub logs: Vec<String>,
    pub error: Option<String>,
    pub is_done: bool,
    pub rx: Receiver<ExecutionEvent>,
    pub go_back: bool,
    pub should_quit: bool,
    pub answer: Option<String>,
    pub answered_lines: usize,
}

/// The answer that a key gives to a `[y/N]` prompt: `y` or `n` (either case), or the
/// empty answer (the default) for Enter; other keys give none.
pub open spec fn answer_for(code: KeyCode) -> Option<Seq<char>> {
    match code {
        KeyCode::Char('y') | KeyCode::Char('Y') => Some("y"@),
        KeyCode::Char('n') | KeyCode::Char('N') => Some("n"@),
        KeyCode::Enter => Some(""@),
        _ => None,
    }
}

/// The screen's data that events change: the log, the error and whether it is done.
pub struct ProgressView {
    pub logs: Seq<Seq<char>>,
    pub error: Option<Seq<char>>,
    pub is_done: bool,
}

/// The progress after one event: a log line is appended, an error is kept (the last
/// one wins), Done marks the task done.
pub open spec fn after_event(p: ProgressView, e: ExecutionEvent) -> ProgressView {
    match e {
        ExecutionEvent::Log(m) => ProgressView { logs: p.logs.push(m@), ..p },
        ExecutionEvent::Error(m) => ProgressView { error: Some(m@), ..p },
        ExecutionEvent::Done => ProgressView { is_done: true, ..p },
    }
}

/// The progress after the events `es`, in order.
pub open spec fn after_events(p: ProgressView, es: Seq<ExecutionEvent>) -> ProgressView
    decreases es.len(),
{
    if es.len() == 0 {
        p
    } else {
        after_event(after_events(p, es.drop_last()), es.last())
    }
}

/// The events that have arrived on the channel and not been taken yet
/// (`Receiver::try_iter`, collected). What arrives depends on the tasks that send, so
/// nothing is claimed of the result.
#[verifier::external_body]
fn receive_pending(rx: &Receiver<ExecutionEvent>) -> Vec<ExecutionEvent> {
    rx.try_iter().collect()
}

/// Where a reader of terminal output stands: in plain text; just after an escape
/// character; among the intermediate characters of an escape sequence; inside a control
/// sequence (escape and `[`); inside an operating-system command (escape and `]`).
#[derive(Debug, Clone, Copy, PartialEq, Eq, Structural)]
pub enum EscapeState {
    Plain,
    Escape,
    Intermediate,
    Control,
    Command,
}

/// The character that ends a control sequence (`@` to `~`).
pub open spec fn is_final_char(c: char) -> bool {
    0x40 <= (c as u32) <= 0x7e
}

/// An intermediate character of an escape sequence (space to `/`).
pub open spec fn is_intermediate_char(c: char) -> bool {
    0x20 <= (c as u32) <= 0x2f
}

/// The state after reading `c` in state `st`. After an escape: `[` opens a control
/// sequence, `]` a command, an intermediate character leads to more of them, and any other
/// character ends the sequence. Intermediate characters run until a character that is none
/// ends the sequence. A control sequence runs to its final character (`is_final_char`). A
/// command runs to a bell, or to an escape (which starts the escape that ends it, or a new
/// sequence).
pub open spec fn next_state(st: EscapeState, c: char) -> EscapeState {
    match st {
        EscapeState::Plain => if c == '\x1b' { EscapeState::Escape } else { EscapeState::Plain },
        EscapeState::Escape => if c == '[' {
            EscapeState::Control
        } else if c == ']' {
            EscapeState::Command
        } else if is_intermediate_char(c) {
            EscapeState::Intermediate
        } else {
            EscapeState::Plain
        },
        EscapeState::Intermediate => if is_intermediate_char(c) { EscapeState::Intermediate } else { EscapeState::Plain },
        EscapeState::Control => if is_final_char(c) { EscapeState::Plain } else { EscapeState::Control },
        EscapeState::Command => if c == '\x07' {
            EscapeState::Plain
        } else if c == '\x1b' {
            EscapeState::Escape
        } else {
            EscapeState::Command
        },
    }
}

/// A character read in state `st` is shown: plain text other than an escape character.
pub open spec fn shown(st: EscapeState, c: char) -> bool {
    st == EscapeState::Plain && c != '\x1b'
}

/// The text of `s` that a terminal shows, read from state `st`: the characters that
/// `shown` keeps, the states moving on by `next_state`.
pub open spec fn strip_from(s: Seq<char>, st: EscapeState) -> Seq<char>
    decreases s.len(),
{
    if s.len() == 0 {
        Seq::empty()
    } else {
        let c = s[0];
        (if shown(st, c) { seq![c] } else { Seq::empty() }) + strip_from(s.skip(1), next_state(st, c))
    }
}

/// `s` with its ANSI escape sequences taken out (see `strip_from`).
pub open spec fn strip_ansi(s: Seq<char>) -> Seq<char> {
    strip_from(s, EscapeState::Plain)
}

/// The state after reading `c` in state `st` (see `next_state`).
fn step_state(st: EscapeState, c: char) -> (r: EscapeState)
    ensures
        r == next_state(st, c),
{
    let u = c as u32;
    match st {
        EscapeState::Plain => if c == '\x1b' { EscapeState::Escape } else { EscapeState::Plain },
        EscapeState::Escape => if c == '[' {
            EscapeState::Control
        } else if c == ']' {
            EscapeState::Command
        } else if 0x20 <= u && u <= 0x2f {
            EscapeState::Intermediate
        } else {
            EscapeState::Plain
        },
        EscapeState::Intermediate => if 0x20 <= u && u <= 0x2f { EscapeState::Intermediate } else { EscapeState::Plain },
        EscapeState::Control => if 0x40 <= u && u <= 0x7e { EscapeState::Plain } else { EscapeState::Control },
        EscapeState::Command => if c == '\x07' {
            EscapeState::Plain
        } else if c == '\x1b' {
            EscapeState::Escape
        } else {
            EscapeState::Command
        },
    }
}

/// Appends `line` with its escape sequences taken out (see `strip_ansi`).
pub fn push_stripped(text: &mut Vec<char>, line: &str)
    ensures
        final(text)@ == old(text)@ + strip_ansi(line@),
{
    let cs = chars_of(line);
    let mut st = EscapeState::Plain;
    let mut i: usize = 0;
    assert(cs@.skip(0) =~= cs@);
    while i < cs.len()
        invariant
            i <= cs@.len(),
            cs@ == line@,
            old(text)@ + strip_ansi(line@) == text@ + strip_from(cs@.skip(i as int), st),
        decreases cs@.len() - i,
    {
        let c = cs[i];
        let ghost before = text@;
        let ghost st0 = st;
        proof {
            let t = cs@.skip(i as int);
            assert(t[0] == c);
            assert(t.skip(1) =~= cs@.skip(i + 1));
        }
        if st == EscapeState::Plain && c != '\x1b' {
            text.push(c);
        }
        st = step_state(st, c);
        proof {
            let tail = strip_from(cs@.skip(i + 1), st);
            if shown(st0, c) {
                assert(before + (seq![c] + tail) =~= text@ + tail);
            } else {
                assert(before + (Seq::<char>::empty() + tail) =~= text@ + tail);
            }
        }
        i = i + 1;
    }
    assert(cs@.skip(i as int) =~= Seq::<char>::empty());
    assert(text@ + Seq::<char>::empty() =~= text@);
}

/// The log lines with their escape sequences taken out, each ended by a line feed.
pub open spec fn logs_text(logs: Seq<Seq<char>>) -> Seq<char>
    decreases logs.len(),
{
    if logs.len() == 0 {
        Seq::empty()
    } else {
        logs_text(logs.drop_last()) + strip_ansi(logs.last()) + seq!['\n']
    }
}

/// How far the log window scrolls so that its end shows: with more lines than the window
/// is high, the excess and two more (as a `u16`, cut to its low 16 bits); else none.
pub open spec fn spec_scroll(num_lines: nat, height: nat) -> u16 {
    if num_lines > height {
        (num_lines - height + 2) as u16
    } else {
        0
    }
}

/// How far the log window of height `height` scrolls for `text`.
pub fn scroll_offset(text: &str, height: u16) -> (r: u16)
    requires
        spec_lines(text@).len() + 2 <= usize::MAX,
    ensures
        r == spec_scroll(spec_lines(text@).len(), height as nat),
{
    let lines = split_lines(&chars_of(text));
    let num_lines = lines.len();
    assert(crate::text::char_views(lines@).len() == lines@.len());
    let h = height as usize;
    if num_lines > h {
        (num_lines - h + 2) as u16
    } else {
        0
    }
}

/// The number of lines of a text (`str::lines().count()`).
pub fn line_count(text: &str) -> (r: usize)
    ensures
        r == spec_lines(text@).len(),
{
    let lines = split_lines(&chars_of(text));
    assert(crate::text::char_views(lines@).len() == lines@.len());
    lines.len()
}

impl ExecutingState {
    /// The screen's progress.
    pub open spec fn progress(&self) -> ProgressView {
        ProgressView {
            logs: crate::collections::views(self.logs@),
            error: match self.error { Some(e) => Some(e@), None => None },
            is_done: self.is_done,
        }
    }

    /// A screen that waits for reports on `rx`.
    pub fn new(rx: Receiver<ExecutionEvent>) -> (r: ExecutingState)
        ensures
            r.logs@.len() == 0,
            r.error is None,
            !r.is_done,
            r.rx == rx,
            !r.go_back,
            !r.should_quit,
            r.answer is None,
            r.answered_lines == 0,
    {
        ExecutingState {
            logs: Vec::new(),
            error: None,
            is_done: false,
            rx,
            go_back: false,
            should_quit: false,
            answer: None,
            answered_lines: 0,
        }
    }

    /// Everything but the progress is as in `prev`: the channel, the requests to go back
    /// and to quit, the answer and when it was typed.
    pub open spec fn same_controls(&self, prev: &ExecutingState) -> bool {
        &&& self.rx == prev.rx
        &&& self.go_back == prev.go_back
        &&& self.should_quit == prev.should_quit
        &&& opt_text(self.answer) == opt_text(prev.answer)
        &&& self.answered_lines == prev.answered_lines
    }

    /// The task runs and its last log line, escape sequences taken out, holds a `[y/N]`
    /// prompt that has not been answered since that line came.
    pub open spec fn awaiting_answer(&self) -> bool {
        &&& !self.is_done
        &&& self.error is None
        &&& self.logs@.len() > 0
        &&& self.answered_lines != self.logs@.len()
        &&& contains_sub(strip_ansi(self.logs@.last()@), "[y/N]"@)
    }

    /// Whether a `[y/N]` prompt waits for an answer (see `awaiting_answer`).
    pub fn awaits_answer(&self) -> (r: bool)
        ensures
            r == self.awaiting_answer(),
    {
        if self.is_done || self.error.is_some() || self.logs.len() == 0 || self.answered_lines == self.logs.len() {
            return false;
        }
        let mut last: Vec<char> = Vec::new();
        push_stripped(&mut last, self.logs[self.logs.len() - 1].as_str());
        assert(last@ =~= strip_ansi(self.logs@.last()@));
        let marker = chars_of("[y/N]");
        has_substring(&last, &marker)
    }

    /// Applies reports, in order.
    pub fn apply_events(&mut self, events: Vec<ExecutionEvent>)
        ensures
            final(self).progress() == after_events(old(self).progress(), events@),
            final(self).same_controls(old(self)),
    {
        let mut events = events;
        let ghost all = events@;
        let ghost start = self.progress();
        let ghost mut k: int = 0;
        assert(all.skip(0) =~= all);
        while events.len() > 0
            invariant
                0 <= k <= all.len(),
                events@ == all.skip(k),
                self.progress() == after_events(start, all.take(k)),
                self.same_controls(old(self)),
            decreases events@.len(),
        {
            let ghost before = self.progress();
            let e = events.remove(0);
            let ghost ev = e;
            assert(ev == all[k]);
            match e {
                ExecutionEvent::Log(msg) => self.logs.push(msg),
                ExecutionEvent::Error(err) => self.error = Some(err),
                ExecutionEvent::Done => self.is_done = true,
            }
            proof {
                assert(crate::collections::views(self.logs@) =~= match ev {
                    ExecutionEvent::Log(m) => before.logs.push(m@),
                    _ => before.logs,
                });
                assert(self.progress() == after_event(before, ev));
                let nd = all.take(k + 1);
                assert(nd.drop_last() =~= all.take(k));
                assert(events@ =~= all.skip(k + 1));
                k = k + 1;
            }
        }
        assert(all.take(k) =~= all);
    }

    /// Takes the reports that have arrived, unless the task is done or failed already.
    /// Whatever arrived, the screen's progress is that after some sequence of reports.
    pub fn poll_events(&mut self)
        ensures
            final(self).same_controls(old(self)),
            old(self).is_done || old(self).error is Some ==> final(self).progress() == old(self).progress(),
            exists|es: Seq<ExecutionEvent>| final(self).progress() == after_events(old(self).progress(), es),
    {
        if self.is_done || self.error.is_some() {
            assert(self.progress() == after_events(self.progress(), Seq::empty()));
            return;
        }
        let events = receive_pending(&self.rx);
        let ghost es = events@;
        self.apply_events(events);
        assert(self.progress() == after_events(old(self).progress(), es));
    }

    /// The text of the log window: each log line, its escape sequences taken out, ended by
    /// a line feed; then the error and how to go back, or the success note and how to quit,
    /// or that the task still runs.
    pub open spec fn spec_log_text(&self) -> Seq<char> {
        logs_text(crate::collections::views(self.logs@)) + match self.error {
            Some(e) => "\n[ERROR]\n"@ + e@ + "\n\nPress ESC or 'b' to go back and retry."@,
            None => if self.is_done {
                "\n[SUCCESS]\n"@ + "All operations completed successfully!\n\nPress Enter or 'q' to quit."@
            } else {
                "\n[RUNNING...]\n"@
            },
        }
    }

    /// The text of the log window.
    pub fn log_text(&self) -> (r: String)
        ensures
            r@ == self.spec_log_text(),
    {
        let mut text: Vec<char> = Vec::new();
        let mut i: usize = 0;
        while i < self.logs.len()
            invariant
                i <= self.logs@.len(),
                text@ == logs_text(crate::collections::views(self.logs@).take(i as int)),
            decreases self.logs@.len() - i,
        {
            push_stripped(&mut text, self.logs[i].as_str());
            text.push('\n');
            proof {
                let t = crate::collections::views(self.logs@).take(i + 1);
                assert(t.drop_last() =~= crate::collections::views(self.logs@).take(i as int));
                assert(t.last() == self.logs@[i as int]@);
            }
            i = i + 1;
        }
        assert(crate::collections::views(self.logs@).take(self.logs@.len() as int) =~= crate::collections::views(self.logs@));
        match &self.error {
            Some(err) => {
                append_str(&mut text, "\n[ERROR]\n");
                append_str(&mut text, err.as_str());
                append_str(&mut text, "\n\nPress ESC or 'b' to go back and retry.");
            },
            None => {
                if self.is_done {
                    append_str(&mut text, "\n[SUCCESS]\n");
                    append_str(&mut text, "All operations completed successfully!\n\nPress Enter or 'q' to quit.");
                } else {
                    append_str(&mut text, "\n[RUNNING...]\n");
                }
            },
        }
        string_from_chars(text.as_slice())
    }

    /// With an error shown, Esc or `b` asks to go back (result `true`); when done, Enter or
    /// `q` asks to quit (result `true`); while a `[y/N]` prompt waits (`awaiting_answer`),
    /// `y`, `n` or Enter types the answer of `answer_for` for the task (result `true`).
    /// Anything else does nothing.
    pub fn handle_event(&mut self, ev: &InputEvent) -> (r: bool)
        ensures
            final(self).progress() == old(self).progress(),
            match *ev {
                InputEvent::Key(key) => if old(self).error is Some {
                    if key.code == KeyCode::Esc || key.code == KeyCode::Char('b') {
                        r && *final(self) == (ExecutingState { go_back: true, ..*old(self) })
                    } else {
                        !r && *final(self) == *old(self)
                    }
                } else if old(self).is_done && (key.code == KeyCode::Enter || key.code == KeyCode::Char('q')) {
                    r && *final(self) == (ExecutingState { should_quit: true, ..*old(self) })
                } else if old(self).awaiting_answer() && answer_for(key.code) is Some {
                    &&& r
                    &&& opt_text(final(self).answer) == answer_for(key.code)
                    &&& final(self).answered_lines == old(self).logs@.len()
                    &&& *final(self) == (ExecutingState {
                        answer: final(self).answer,
                        answered_lines: final(self).answered_lines,
                        ..*old(self)
                    })
                } else {
                    !r && *final(self) == *old(self)
                },
                InputEvent::Other => !r && *final(self) == *old(self),
            },
    {
        if let InputEvent::Key(key) = ev {
            if self.error.is_some() {
                if key.code == KeyCode::Esc || key.code == KeyCode::Char('b') {
                    self.go_back = true;
                    return true;
                }
            } else if self.is_done && (key.code == KeyCode::Enter || key.code == KeyCode::Char('q')) {
                self.should_quit = true;
                return true;
            } else if self.awaits_answer() {
                let typed = match key.code {
                    KeyCode::Char('y') | KeyCode::Char('Y') => Some("y"),
                    KeyCode::Char('n') | KeyCode::Char('N') => Some("n"),
                    KeyCode::Enter => Some(""),
                    _ => None,
                };
                if let Some(t) = typed {
                    self.answer = Some(t.to_owned());
                    self.answered_lines = self.logs.len();
                    return true;
                }
            }
        }
        false
    }
}

/// The answer to a prompt is the letter typed, in lower case: `y` or `Y` accepts with
/// "y", `n` or `N` declines with "n", Enter gives the empty answer (the prompt's default),
/// and no other letter answers.
pub proof fn lemma_answer_letters(c: char)
    ensures
        answer_for(KeyCode::Char(c)) is Some <==> (c == 'y' || c == 'Y' || c == 'n' || c == 'N'),
        (c == 'y' || c == 'Y') ==> answer_for(KeyCode::Char(c)) == Some(seq!['y']),
        (c == 'n' || c == 'N') ==> answer_for(KeyCode::Char(c)) == Some(seq!['n']),
        answer_for(KeyCode::Enter) == Some(Seq::<char>::empty()),
{
    reveal_strlit("y");
    reveal_strlit("n");
    reveal_strlit("");
    assert("y"@ =~= seq!['y']);
    assert("n"@ =~= seq!['n']);
    assert(""@ =~= Seq::<char>::empty());
}


} // verus!
