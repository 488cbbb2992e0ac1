//! The studio's command console: the command line with its cursor, the
//! command history, and the program-input session that borrows the line.

use vstd::prelude::*;
use crate::editor::{insert_at, remove_at, insert_char_at, remove_char_at};
use crate::text::{chars_of, string_of_range, text_char_len, trim, trim_range, strings_view};

verus! {

/// A key of the terminal, as the studio reads it.
#[derive(Debug, Clone, Copy, PartialEq, Eq, Structural)]
pub enum Key {
    Char(char),
    F(u8),
    Tab,
    Enter,
    Esc,
    Backspace,
    Delete,
    Left,
    Right,
    Up,
    Down,
    Home,
    End,
    PageUp,
    PageDown,
    Other,
}

/// A key press: the key, and whether the control modifier was held.
#[derive(Debug, Clone, Copy, PartialEq, Eq, Structural)]
pub struct KeyPress {
    pub code: Key,
    pub control: bool,
}

/// What the console asks of the studio after a key.
#[derive(Debug, Clone, Copy, PartialEq, Eq, Structural)]
pub enum ConsoleAction {
    /// Nothing beyond the edit of the line.
    Nothing,
    /// Run the line: a shell command, or the program input awaited.
    Execute,
    /// The program-input session was cancelled.
    Cancelled,
}

/// The mathematical state of the console.
pub struct ConsoleView {
    pub input: Seq<char>,
    pub cursor: nat,
    pub history: Seq<Seq<char>>,
    pub history_index: Option<nat>,
    pub session: Option<nat>,
}

/// The command line of the studio's terminal panel.
#[derive(Debug, Clone)]
pub struct CommandConsole {
    input: String,
    cursor: usize,
    history: Vec<String>,
    history_index: Option<usize>,
    session: Option<usize>,
}

/// A `usize` option as a `nat` option.
pub open spec fn opt_nat(o: Option<usize>) -> Option<nat> {
    match o {
        Some(i) => Some(i as nat),
        None => None,
    }
}

/// The console after a cancelled or finished program-input session: no
/// session, an empty line, no history position.
pub open spec fn cleared(s: ConsoleView) -> ConsoleView {
    ConsoleView { input: Seq::empty(), cursor: 0, history: s.history, history_index: None, session: None }
}

/// The console after moving back in the history: to the last command from
/// the live line, else one command back, staying on the first; unchanged
/// without a history.
pub open spec fn history_previous(s: ConsoleView) -> ConsoleView {
    if s.history.len() == 0 {
        s
    } else {
        let next: nat = match s.history_index {
            Some(i) => if i > 0 { (i - 1) as nat } else { i },
            None => (s.history.len() - 1) as nat,
        };
        ConsoleView {
            input: s.history[next as int],
            cursor: s.history[next as int].len(),
            history_index: Some(next),
            ..s
        }
    }
}

/// The console after moving forward in the history: one command on, or past
/// the last command back to an empty live line; unchanged without a history
/// or a history position.
pub open spec fn history_next(s: ConsoleView) -> ConsoleView {
    match s.history_index {
        None => s,
        Some(i) => if s.history.len() == 0 {
            s
        } else if i + 1 >= s.history.len() {
            ConsoleView { input: Seq::empty(), cursor: 0, history_index: None, ..s }
        } else {
            ConsoleView {
                input: s.history[i + 1 as int],
                cursor: s.history[i + 1 as int].len(),
                history_index: Some((i + 1) as nat),
                ..s
            }
        },
    }
}

/// The console after a key press, and what it asks of the studio.
pub open spec fn console_key(s: ConsoleView, key: KeyPress) -> (ConsoleView, ConsoleAction) {
    if s.session is Some && key.control && key.code == Key::Char('c') {
        (cleared(s), ConsoleAction::Cancelled)
    } else {
        match key.code {
            Key::Enter => (s, ConsoleAction::Execute),
            Key::Backspace => if s.cursor > 0 {
                (ConsoleView { input: remove_at(s.input, s.cursor - 1), cursor: (s.cursor - 1) as nat, ..s }, ConsoleAction::Nothing)
            } else {
                (s, ConsoleAction::Nothing)
            },
            Key::Delete => if s.cursor < s.input.len() {
                (ConsoleView { input: remove_at(s.input, s.cursor as int), ..s }, ConsoleAction::Nothing)
            } else {
                (s, ConsoleAction::Nothing)
            },
            Key::Left => (ConsoleView { cursor: if s.cursor > 0 { (s.cursor - 1) as nat } else { 0 }, ..s }, ConsoleAction::Nothing),
            Key::Right => (ConsoleView { cursor: if s.cursor < s.input.len() { s.cursor + 1 } else { s.cursor }, ..s }, ConsoleAction::Nothing),
            Key::Home => (ConsoleView { cursor: 0, ..s }, ConsoleAction::Nothing),
            Key::End => (ConsoleView { cursor: s.input.len(), ..s }, ConsoleAction::Nothing),
            Key::Up => (if s.session is None { history_previous(s) } else { s }, ConsoleAction::Nothing),
            Key::Down => (if s.session is None { history_next(s) } else { s }, ConsoleAction::Nothing),
            Key::Esc => if s.session is Some {
                (cleared(s), ConsoleAction::Cancelled)
            } else {
                (ConsoleView { input: Seq::empty(), cursor: 0, history_index: None, ..s }, ConsoleAction::Nothing)
            },
            Key::Char(c) => if !key.control {
                (ConsoleView { input: insert_at(s.input, s.cursor as int, c), cursor: s.cursor + 1, ..s }, ConsoleAction::Nothing)
            } else {
                (s, ConsoleAction::Nothing)
            },
            _ => (s, ConsoleAction::Nothing),
        }
    }
}

impl CommandConsole {
    /// The state of the console.
    pub closed spec fn view(&self) -> ConsoleView {
        ConsoleView {
            input: self.input@,
            cursor: self.cursor as nat,
            history: strings_view(self.history@),
            history_index: opt_nat(self.history_index),
            session: opt_nat(self.session),
        }
    }

    /// The cursor lies within the line and the history position within the
    /// history.
    pub closed spec fn wf(&self) -> bool {
        &&& self.cursor <= self.input@.len()
        &&& match self.history_index {
            Some(i) => i < self.history@.len(),
            None => true,
        }
    }

    /// An empty console with no history.
    pub fn new() -> (c: Self)
        ensures
            c.wf(),
            c.view() == (ConsoleView { input: Seq::empty(), cursor: 0, history: Seq::empty(), history_index: None, session: None }),
    {
        let c = CommandConsole { input: String::new(), cursor: 0, history: Vec::new(), history_index: None, session: None };
        assert(strings_view(c.history@) =~= Seq::<Seq<char>>::empty());
        c
    }

    /// The command line.
    pub fn input(&self) -> (s: &str)
        ensures
            s@ == self.view().input,
    {
        self.input.as_str()
    }

    /// The cursor, in characters.
    pub fn cursor(&self) -> (c: usize)
        ensures
            c == self.view().cursor,
    {
        self.cursor
    }

    /// The program-input line awaited, if a session is open.
    pub fn session(&self) -> (s: Option<usize>)
        ensures
            opt_nat(s) == self.view().session,
    {
        self.session
    }

    /// Puts a command on the line with the cursor at its end.
    pub fn prime_command(&mut self, command: &str)
        requires
            old(self).wf(),
        ensures
            final(self).wf(),
            final(self).view() == (ConsoleView { input: command@, cursor: command@.len(), history_index: None, ..old(self).view() }),
    {
        self.input = crate::text::owned(command);
        self.cursor = text_char_len(command);
        self.history_index = None;
    }

    /// Moves back in the history.
    pub fn command_history_previous(&mut self)
        requires
            old(self).wf(),
        ensures
            final(self).wf(),
            final(self).view() == history_previous(old(self).view()),
    {
        if self.history.len() == 0 {
            return;
        }
        let next = match self.history_index {
            Some(index) => if index > 0 { index - 1 } else { index },
            None => self.history.len() - 1,
        };
        self.history_index = Some(next);
        self.input = self.history[next].clone();
        self.cursor = text_char_len(self.input.as_str());
    }

    /// Moves forward in the history.
    pub fn command_history_next(&mut self)
        requires
            old(self).wf(),
        ensures
            final(self).wf(),
            final(self).view() == history_next(old(self).view()),
    {
        if self.history.len() == 0 {
            return;
        }
        let index = match self.history_index {
            Some(index) => index,
            None => return,
        };
        if index + 1 >= self.history.len() {
            self.history_index = None;
            self.input = String::new();
            self.cursor = 0;
            return;
        }
        let next = index + 1;
        self.history_index = Some(next);
        self.input = self.history[next].clone();
        self.cursor = text_char_len(self.input.as_str());
    }

    /// Ends the program-input session, clearing the line.
    pub fn cancel_run_session(&mut self)
        requires
            old(self).wf(),
        ensures
            final(self).wf(),
            final(self).view() == cleared(old(self).view()),
    {
        self.session = None;
        self.input = String::new();
        self.cursor = 0;
        self.history_index = None;
    }

    /// Applies a key press to the console.
    pub fn handle_command_key(&mut self, key: KeyPress) -> (action: ConsoleAction)
        requires
            old(self).wf(),
            old(self).view().cursor < usize::MAX,
        ensures
            final(self).wf(),
            (final(self).view(), action) == console_key(old(self).view(), key),
    {
        if self.session.is_some() && key.control && key.code == Key::Char('c') {
            self.cancel_run_session();
            return ConsoleAction::Cancelled;
        }
        match key.code {
            Key::Enter => ConsoleAction::Execute,
            Key::Backspace => {
                if self.cursor > 0 {
                    remove_char_at(&mut self.input, self.cursor - 1);
                    self.cursor = self.cursor - 1;
                }
                ConsoleAction::Nothing
            },
            Key::Delete => {
                if self.cursor < text_char_len(self.input.as_str()) {
                    remove_char_at(&mut self.input, self.cursor);
                }
                ConsoleAction::Nothing
            },
            Key::Left => {
                if self.cursor > 0 {
                    self.cursor = self.cursor - 1;
                }
                ConsoleAction::Nothing
            },
            Key::Right => {
                if self.cursor < text_char_len(self.input.as_str()) {
                    self.cursor = self.cursor + 1;
                }
                ConsoleAction::Nothing
            },
            Key::Home => {
                self.cursor = 0;
                ConsoleAction::Nothing
            },
            Key::End => {
                self.cursor = text_char_len(self.input.as_str());
                ConsoleAction::Nothing
            },
            Key::Up => {
                if self.session.is_none() {
                    self.command_history_previous();
                }
                ConsoleAction::Nothing
            },
            Key::Down => {
                if self.session.is_none() {
                    self.command_history_next();
                }
                ConsoleAction::Nothing
            },
            Key::Esc => {
                if self.session.is_some() {
                    self.cancel_run_session();
                    ConsoleAction::Cancelled
                } else {
                    self.input = String::new();
                    self.cursor = 0;
                    self.history_index = None;
                    ConsoleAction::Nothing
                }
            },
            Key::Char(ch) => {
                if !key.control {
                    insert_char_at(&mut self.input, self.cursor, ch);
                    self.cursor = self.cursor + 1;
                }
                ConsoleAction::Nothing
            },
            _ => ConsoleAction::Nothing,
        }
    }
}

impl CommandConsole {
    /// Takes the trimmed command line to run it as a shell command: it joins
    /// the history and the line is cleared. A blank line is left as it is
    /// and gives nothing.
    pub fn take_command(&mut self) -> (command: Option<String>)
        requires
            old(self).wf(),
        ensures
            final(self).wf(),
            match command {
                Some(c) => {
                    &&& trim(old(self).view().input).len() > 0
                    &&& c@ == trim(old(self).view().input)
                    &&& final(self).view() == (ConsoleView {
                        input: Seq::empty(),
                        cursor: 0,
                        history: old(self).view().history.push(c@),
                        history_index: None,
                        session: old(self).view().session,
                    })
                },
                None => trim(old(self).view().input).len() == 0 && final(self).view() == old(self).view(),
            },
    {
        let chars = chars_of(self.input.as_str());
        let (lo, hi) = trim_range(&chars, 0, chars.len());
        assert(chars@.subrange(0, chars@.len() as int) =~= chars@);
        if lo == hi {
            return None;
        }
        let command = string_of_range(&chars, lo, hi);
        let ghost before = strings_view(self.history@);
        self.history.push(command.clone());
        assert(strings_view(self.history@) =~= before.push(command@));
        self.history_index = None;
        self.input = String::new();
        self.cursor = 0;
        Some(command)
    }

    /// Opens a program-input session for an input line, with the line
    /// prefilled and the cursor at its end.
    pub fn enter_run_session(&mut self, line_index: usize, prefill: &str)
        requires
            old(self).wf(),
        ensures
            final(self).wf(),
            final(self).view() == (ConsoleView {
                input: prefill@,
                cursor: prefill@.len(),
                history: old(self).view().history,
                history_index: None,
                session: Some(line_index as nat),
            }),
    {
        self.session = Some(line_index);
        self.history_index = None;
        self.input = crate::text::owned(prefill);
        self.cursor = text_char_len(prefill);
    }

    /// Ends the program-input session, handing out the awaited line's index
    /// and the typed text; nothing without a session.
    pub fn take_session_input(&mut self) -> (r: Option<(usize, String)>)
        requires
            old(self).wf(),
        ensures
            final(self).wf(),
            match r {
                Some((i, text)) => old(self).view().session == Some(i as nat) && text@ == old(self).view().input
                    && final(self).view() == cleared(old(self).view()),
                None => old(self).view().session is None && final(self).view() == old(self).view(),
            },
    {
        match self.session {
            None => None,
            Some(index) => {
                let text = self.input.clone();
                self.cancel_run_session();
                Some((index, text))
            },
        }
    }
}

/// The program input with `input` as line `index`, padded with empty lines
/// up to it.
pub open spec fn placed_line(lines: Seq<Seq<char>>, index: nat, input: Seq<char>) -> Seq<Seq<char>> {
    if index < lines.len() {
        lines.update(index as int, input)
    } else {
        lines + Seq::new((index - lines.len()) as nat, |i: int| Seq::<char>::empty()) + seq![input]
    }
}

/// Puts an input line at its place among the program's input lines.
pub fn place_input_line(lines: Vec<String>, index: usize, input: String) -> (r: Vec<String>)
    ensures
        strings_view(r@) == placed_line(strings_view(lines@), index as nat, input@),
{
    let mut lines = lines;
    let ghost orig = strings_view(lines@);
    while lines.len() < index
        invariant
            orig.len() <= lines@.len() <= index || (orig.len() > index && lines@.len() == orig.len()),
            strings_view(lines@) == orig + Seq::new((lines@.len() - orig.len()) as nat, |i: int| Seq::<char>::empty()),
        decreases index - lines@.len(),
    {
        let ghost before = strings_view(lines@);
        lines.push(String::new());
        assert(strings_view(lines@) =~= before.push(Seq::empty()));
        assert(orig + Seq::new((lines@.len() - orig.len()) as nat, |i: int| Seq::<char>::empty())
            =~= before.push(Seq::empty()));
    }
    if lines.len() == index {
        let ghost before = strings_view(lines@);
        lines.push(input);
        assert(strings_view(lines@) =~= before.push(input@));
    } else {
        assert(orig.len() > index);
        assert(strings_view(lines@) =~= orig);
        lines.set(index, input);
        assert(strings_view(lines@) =~= orig.update(index as int, input@));
    }
    lines
}

/// The prompt of the command line: the awaited input line's number in a
/// session, else `> `.
pub open spec fn prompt_prefix(session: Option<nat>) -> Seq<char> {
    match session {
        Some(i) => "in"@ + crate::text::decimal(i + 1) + "> "@,
        None => "> "@,
    }
}

/// The prompt of the command line.
pub fn command_prompt_prefix(session: Option<usize>) -> (r: String)
    requires
        match session {
            Some(i) => i < usize::MAX,
            None => true,
        },
    ensures
        r@ == prompt_prefix(opt_nat(session)),
{
    match session {
        Some(i) => {
            let mut s = crate::text::owned("in");
            crate::text::push_str(&mut s, crate::text::decimal_string(i + 1).as_str());
            crate::text::push_str(&mut s, "> ");
            s
        },
        None => crate::text::owned("> "),
    }
}

/// Typing a character and then pressing Backspace leaves the line and the
/// cursor as they were.
pub proof fn lemma_backspace_undoes_typing(s: ConsoleView, c: char)
    requires
        s.cursor <= s.input.len(),
    ensures
        ({
            let (t, _) = console_key(s, KeyPress { code: Key::Char(c), control: false });
            let (u, _) = console_key(t, KeyPress { code: Key::Backspace, control: false });
            u == s
        }),
{
    let (t, _) = console_key(s, KeyPress { code: Key::Char(c), control: false });
    assert(t.input == insert_at(s.input, s.cursor as int, c));
    assert(remove_at(t.input, s.cursor as int) =~= s.input);
}

/// After a command is taken from the line, moving back in the history
/// recalls it.
pub proof fn lemma_history_recalls_last(s: ConsoleView, c: Seq<char>)
    ensures
        ({
            let t = ConsoleView { input: Seq::empty(), cursor: 0, history: s.history.push(c), history_index: None, session: s.session };
            history_previous(t).input == c && history_previous(t).history_index == Some(s.history.len())
        }),
{
}

/// Delete removes exactly the character under the cursor, where there is
/// one: the line loses that one character and keeps the text on either side
/// of it; at the end of the line nothing changes. The cursor, the history
/// and the session stay as they were, and the studio is asked for nothing.
pub proof fn lemma_delete_removes_char_under_cursor(s: ConsoleView, control: bool)
    ensures
        ({
            let (t, a) = console_key(s, KeyPress { code: Key::Delete, control });
            &&& a is Nothing
            &&& t.cursor == s.cursor
            &&& t.history == s.history
            &&& t.history_index == s.history_index
            &&& t.session == s.session
            &&& s.cursor < s.input.len() ==> {
                &&& t.input.len() + 1 == s.input.len()
                &&& t.input.subrange(0, s.cursor as int) == s.input.subrange(0, s.cursor as int)
                &&& t.input.subrange(s.cursor as int, t.input.len() as int)
                    == s.input.subrange(s.cursor + 1int, s.input.len() as int)
            }
            &&& s.cursor >= s.input.len() ==> t.input == s.input
        }),
{
    let (t, a) = console_key(s, KeyPress { code: Key::Delete, control });
    if s.cursor < s.input.len() {
        assert(t.input == s.input.remove(s.cursor as int));
        assert(t.input.subrange(0, s.cursor as int) =~= s.input.subrange(0, s.cursor as int));
        assert(t.input.subrange(s.cursor as int, t.input.len() as int) =~= s.input.subrange(s.cursor + 1int, s.input.len() as int));
    }
}

} // verus!
