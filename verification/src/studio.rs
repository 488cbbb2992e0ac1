//! The panels, tabs and key handling of the terminal studio.

use vstd::prelude::*;
use crate::console::{Key, KeyPress};
use crate::text::{owned, strings_view};
use crate::editor::{TextBuffer, TextState, follow, insert_char_state, insert_newline_state, backspace_state, backspace_edits, delete_forward_state, delete_forward_edits, move_up_state, move_down_state, move_left_state, move_right_state, line_len};

verus! {

/// The tabs of the studio's output panel.
#[derive(Debug, Clone, Copy, PartialEq, Eq, Structural)]
pub enum OutputTab {
    Run,
    Build,
    Security,
    Terminal,
}

impl OutputTab {
    /// The tab's title.
    pub fn title(self) -> (t: &'static str)
        ensures
            t@ == match self {
                OutputTab::Run => "Run"@,
                OutputTab::Build => "Build"@,
                OutputTab::Security => "Security"@,
                OutputTab::Terminal => "Terminal"@,
            },
    {
        match self {
            OutputTab::Run => "Run",
            OutputTab::Build => "Build",
            OutputTab::Security => "Security",
            OutputTab::Terminal => "Terminal",
        }
    }

    /// The following tab, wrapping around.
    pub fn next(self) -> (t: Self)
        ensures
            t == next_tab(self),
    {
        match self {
            OutputTab::Run => OutputTab::Build,
            OutputTab::Build => OutputTab::Security,
            OutputTab::Security => OutputTab::Terminal,
            OutputTab::Terminal => OutputTab::Run,
        }
    }

    /// The preceding tab, wrapping around.
    pub fn previous(self) -> (t: Self)
        ensures
            t == previous_tab(self),
    {
        match self {
            OutputTab::Run => OutputTab::Terminal,
            OutputTab::Build => OutputTab::Run,
            OutputTab::Security => OutputTab::Build,
            OutputTab::Terminal => OutputTab::Security,
        }
    }
}

/// The tab after a tab, in the order Run, Build, Security, Terminal.
pub open spec fn next_tab(t: OutputTab) -> OutputTab {
    match t {
        OutputTab::Run => OutputTab::Build,
        OutputTab::Build => OutputTab::Security,
        OutputTab::Security => OutputTab::Terminal,
        OutputTab::Terminal => OutputTab::Run,
    }
}

/// The tab before a tab.
pub open spec fn previous_tab(t: OutputTab) -> OutputTab {
    match t {
        OutputTab::Run => OutputTab::Terminal,
        OutputTab::Build => OutputTab::Run,
        OutputTab::Security => OutputTab::Build,
        OutputTab::Terminal => OutputTab::Security,
    }
}

/// Going to the previous tab undoes going to the next one, and the other way
/// round; four steps come back to the start.
pub proof fn lemma_tabs_cycle(t: OutputTab)
    ensures
        previous_tab(next_tab(t)) == t,
        next_tab(previous_tab(t)) == t,
        next_tab(next_tab(next_tab(next_tab(t)))) == t,
{
}

/// The sizes of the studio's panels for a terminal size.
#[derive(Debug, Clone, Copy)]
pub struct StudioLayout {
    pub width: usize,
    pub height: usize,
    pub tree_width: usize,
    pub editor_width: usize,
    pub output_width: usize,
    pub main_body_height: usize,
    pub bottom_body_height: usize,
    pub input_width: usize,
    pub command_width: usize,
}

/// `v` held between `lo` and `hi`.
pub open spec fn clamp(v: int, lo: int, hi: int) -> int {
    if v < lo {
        lo
    } else if v > hi {
        hi
    } else {
        v
    }
}

/// `a - b`, or zero.
pub open spec fn sat_sub(a: int, b: int) -> int {
    if a >= b { a - b } else { 0 }
}

fn clamp_usize(v: usize, lo: usize, hi: usize) -> (r: usize)
    requires
        lo <= hi,
    ensures
        r == clamp(v as int, lo as int, hi as int),
{
    if v < lo {
        lo
    } else if v > hi {
        hi
    } else {
        v
    }
}

fn sub_or_zero(a: usize, b: usize) -> (r: usize)
    ensures
        r == sat_sub(a as int, b as int),
{
    if a >= b { a - b } else { 0 }
}

fn max_usize(a: usize, b: usize) -> (r: usize)
    ensures
        r == (if a >= b { a } else { b }),
{
    if a >= b { a } else { b }
}

impl StudioLayout {
    /// The layout for a terminal of the given size: the tree takes a fifth of
    /// the width (18 to 32 columns), the output a third (28 to 48), the editor
    /// the rest (at least 26); the bottom row takes a seventh of the height (5
    /// to 8 rows), the main row the rest (at least 8); the bottom row is split
    /// between the program input and the command line.
    pub fn for_size(width: u16, height: u16) -> (l: Self)
        ensures
            l.width == width,
            l.height == height,
            l.tree_width == clamp((width / 5) as int, 18, 32),
            l.output_width == clamp((width / 3) as int, 28, 48),
            l.editor_width == ({
                let e = sat_sub(sat_sub(sat_sub(width as int, l.tree_width as int), l.output_width as int), 6);
                if e > 26 { e } else { 26 }
            }),
            l.bottom_body_height == clamp((height / 7) as int, 5, 8),
            l.main_body_height == ({
                let m = sat_sub(height as int, l.bottom_body_height + 5);
                if m > 8 { m } else { 8 }
            }),
            ({
                let available = sat_sub(width as int, 3);
                if available >= 60 {
                    &&& l.command_width == clamp(available * 2 / 5, 34, 54)
                    &&& l.input_width == sat_sub(available, l.command_width as int)
                } else {
                    let input = available * 3 / 5;
                    &&& l.input_width == (if input > 1 { input } else { 1 })
                    &&& l.command_width == (if sat_sub(available, input) > 1 { sat_sub(available, input) } else { 1 })
                }
            }),
    {
        let width = width as usize;
        let height = height as usize;
        let tree_width = clamp_usize(width / 5, 18, 32);
        let output_width = clamp_usize(width / 3, 28, 48);
        let editor_width = max_usize(sub_or_zero(sub_or_zero(sub_or_zero(width, tree_width), output_width), 6), 26);
        let bottom_body_height = clamp_usize(height / 7, 5, 8);
        let reserved = bottom_body_height + 5;
        let main_body_height = max_usize(sub_or_zero(height, reserved), 8);
        let available_bottom = sub_or_zero(width, 3);
        let (input_width, command_width) = if available_bottom >= 60 {
            let command_width = clamp_usize(available_bottom * 2 / 5, 34, 54);
            let input_width = sub_or_zero(available_bottom, command_width);
            (input_width, command_width)
        } else {
            let input_width = available_bottom * 3 / 5;
            let command_width = sub_or_zero(available_bottom, input_width);
            (max_usize(input_width, 1), max_usize(command_width, 1))
        };
        StudioLayout {
            width,
            height,
            tree_width,
            editor_width,
            output_width,
            main_body_height,
            bottom_body_height,
            input_width,
            command_width,
        }
    }

    /// The row of the status line, below the main panels.
    pub fn status_row(&self) -> (r: usize)
        requires
            2 + self.main_body_height <= usize::MAX,
        ensures
            r == 2 + self.main_body_height,
    {
        2 + self.main_body_height
    }

    /// The row of the bottom panels' titles.
    pub fn bottom_title_row(&self) -> (r: usize)
        requires
            3 + self.main_body_height <= usize::MAX,
        ensures
            r == 3 + self.main_body_height,
    {
        self.status_row() + 1
    }

    /// The first row of the bottom panels' bodies.
    pub fn bottom_body_start(&self) -> (r: usize)
        requires
            4 + self.main_body_height <= usize::MAX,
        ensures
            r == 4 + self.main_body_height,
    {
        self.bottom_title_row() + 1
    }

    /// The last row of the terminal.
    pub fn footer_row(&self) -> (r: usize)
        ensures
            r == sat_sub(self.height as int, 1),
    {
        sub_or_zero(self.height, 1)
    }
}

/// A key as the editor panels understand it.
#[derive(Debug, Clone, Copy, PartialEq, Eq, Structural)]
pub enum EditKey {
    Up,
    Down,
    Left,
    Right,
    Home,
    End,
    PageUp,
    PageDown,
    Backspace,
    Delete,
    Enter,
    Tab,
    /// A character typed without the control modifier.
    Char(char),
    /// Any other key.
    Other,
}

/// The text and cursor after a key, and whether the text was edited.
pub open spec fn key_effect(s: TextState, key: EditKey, visible_height: nat) -> (TextState, bool) {
    match key {
        EditKey::Up => (move_up_state(s), false),
        EditKey::Down => (move_down_state(s), false),
        EditKey::Left => (move_left_state(s), false),
        EditKey::Right => (move_right_state(s), false),
        EditKey::Home => (TextState { x: 0, ..s }, false),
        EditKey::End => (TextState { x: line_len(s, s.y as int), ..s }, false),
        EditKey::PageUp => {
            let y = if s.y >= visible_height { (s.y - visible_height) as nat } else { 0 };
            (TextState { lines: s.lines, y, x: if s.x <= line_len(s, y as int) { s.x } else { line_len(s, y as int) } }, false)
        },
        EditKey::PageDown => {
            let y = if s.y + visible_height < s.lines.len() - 1 { (s.y + visible_height) as nat } else { (s.lines.len() - 1) as nat };
            (TextState { lines: s.lines, y, x: if s.x <= line_len(s, y as int) { s.x } else { line_len(s, y as int) } }, false)
        },
        EditKey::Backspace => (backspace_state(s), backspace_edits(s)),
        EditKey::Delete => (delete_forward_state(s), delete_forward_edits(s)),
        EditKey::Enter => (insert_newline_state(s), true),
        EditKey::Tab => {
            let line = s.lines[s.y as int];
            (TextState {
                lines: s.lines.update(s.y as int, line.subrange(0, s.x as int) + seq![' ', ' ', ' ', ' '] + line.subrange(s.x as int, line.len() as int)),
                x: s.x + 4,
                y: s.y,
            }, true)
        },
        EditKey::Char(c) => (insert_char_state(s, c), true),
        EditKey::Other => (s, false),
    }
}

/// Applies a key to an editor buffer, then scrolls the cursor into view;
/// returns whether the text was edited.
pub fn apply_text_key(buffer: &mut TextBuffer, key: EditKey, visible_height: usize, visible_width: usize) -> (edited: bool)
    requires
        old(buffer).wf(),
        old(buffer).cursor_row() + visible_height <= usize::MAX,
        old(buffer).cursor_col() + 4 <= usize::MAX,
        old(buffer).top_row() + visible_height + 1 <= usize::MAX,
        old(buffer).left_col() + visible_width + 1 <= usize::MAX,
    ensures
        final(buffer).wf(),
        (final(buffer).state(), edited) == key_effect(old(buffer).state(), key, visible_height as nat),
        final(buffer).top_row() == follow(
            final(buffer).cursor_row(),
            old(buffer).top_row(),
            if visible_height > 1 { visible_height as nat } else { 1 },
        ),
        final(buffer).left_col() == follow(
            final(buffer).cursor_col(),
            if key == EditKey::Enter { 0 } else { old(buffer).left_col() },
            if visible_width > 6 { (visible_width - 5) as nat } else { 1 },
        ),
{
    let mut edited = false;
    match key {
        EditKey::Up => buffer.move_up(),
        EditKey::Down => buffer.move_down(),
        EditKey::Left => buffer.move_left(),
        EditKey::Right => buffer.move_right(),
        EditKey::Home => buffer.move_home(),
        EditKey::End => buffer.move_end(),
        EditKey::PageUp => buffer.page_up(visible_height),
        EditKey::PageDown => buffer.page_down(visible_height),
        EditKey::Backspace => edited = buffer.backspace(),
        EditKey::Delete => edited = buffer.delete_forward(),
        EditKey::Enter => {
            buffer.insert_newline();
            edited = true;
        },
        EditKey::Tab => {
            proof {
                reveal_strlit("    ");
            }
            buffer.insert_str("    ");
            assert("    "@ =~= seq![' ', ' ', ' ', ' ']);
            edited = true;
        },
        EditKey::Char(ch) => {
            buffer.insert_char(ch);
            edited = true;
        },
        EditKey::Other => {},
    }
    buffer.ensure_visible(visible_height, visible_width);
    edited
}

} // verus!

verus! {

/// The panel that receives the keys.
#[derive(Debug, Clone, Copy, PartialEq, Eq, Structural)]
pub enum Focus {
    Tree,
    Editor,
    Input,
    Output,
    Command,
}

/// The panel after a panel in the Tab order.
pub open spec fn next_focus(f: Focus) -> Focus {
    match f {
        Focus::Tree => Focus::Editor,
        Focus::Editor => Focus::Input,
        Focus::Input => Focus::Output,
        Focus::Output => Focus::Command,
        Focus::Command => Focus::Tree,
    }
}

/// Moves the focus to the next panel; on the command panel the output
/// shows the terminal tab.
pub fn cycle_focus(focus: Focus, tab: OutputTab) -> (r: (Focus, OutputTab))
    ensures
        r.0 == next_focus(focus),
        r.1 == (if next_focus(focus) == Focus::Command { OutputTab::Terminal } else { tab }),
{
    let next = match focus {
        Focus::Tree => Focus::Editor,
        Focus::Editor => Focus::Input,
        Focus::Input => Focus::Output,
        Focus::Output => Focus::Command,
        Focus::Command => Focus::Tree,
    };
    let tab = if next == Focus::Command { OutputTab::Terminal } else { tab };
    (next, tab)
}

/// A command the studio puts on the command line for the user to finish.
#[derive(Debug, Clone, Copy, PartialEq, Eq, Structural)]
pub enum Primed {
    Open,
    Find,
    Search,
    Deck,
    Agent,
    Outline,
}

/// What a key press asks of the studio.
#[derive(Debug, Clone, Copy, PartialEq, Eq, Structural)]
pub enum KeyAction {
    /// The open prompt takes the key.
    Prompt,
    /// Save if needed and leave.
    Quit,
    /// Save the file, then run it.
    SaveAndRun,
    /// Save if needed, then run.
    Run,
    /// Save if needed, then build for the bytecode machine.
    Build,
    /// Save if needed, then audit and show the security tab.
    Audit,
    NewFile,
    NewFolder,
    Rename,
    Delete,
    ClearOutput,
    Prime(Primed),
    /// Focus a panel, showing an output tab if one is given.
    FocusPanel(Focus, Option<OutputTab>),
    CycleFocus,
    /// The focused panel takes the key.
    Panel(Focus),
}

/// What a key press asks of the studio: an open prompt takes every key;
/// control chords act on the project; F1 to F7 and Tab move the focus; any
/// other key goes to the focused panel.
pub open spec fn key_action_of(prompt_open: bool, focus: Focus, key: KeyPress) -> KeyAction {
    if prompt_open {
        KeyAction::Prompt
    } else if key.control && key.code == Key::Char('q') {
        KeyAction::Quit
    } else if key.control && key.code == Key::Char('s') {
        KeyAction::SaveAndRun
    } else if key.control && key.code == Key::Char('r') {
        KeyAction::Run
    } else if key.control && key.code == Key::Char('b') {
        KeyAction::Build
    } else if key.control && key.code == Key::Char('t') {
        KeyAction::Audit
    } else if key.control && key.code == Key::Char('n') {
        KeyAction::NewFile
    } else if key.control && key.code == Key::Char('g') {
        KeyAction::NewFolder
    } else if key.control && key.code == Key::Char('w') {
        KeyAction::Rename
    } else if key.control && key.code == Key::Char('d') {
        KeyAction::Delete
    } else if key.control && key.code == Key::Char('l') {
        KeyAction::ClearOutput
    } else if key.control && key.code == Key::Char('p') {
        KeyAction::Prime(Primed::Open)
    } else if key.control && key.code == Key::Char('f') {
        KeyAction::Prime(Primed::Find)
    } else if key.control && key.code == Key::Char('e') {
        KeyAction::Prime(Primed::Search)
    } else if key.control && key.code == Key::Char('k') {
        KeyAction::Prime(Primed::Deck)
    } else if key.control && key.code == Key::Char('a') {
        KeyAction::Prime(Primed::Agent)
    } else if key.control && key.code == Key::Char('o') {
        KeyAction::Prime(Primed::Outline)
    } else if key.code == Key::F(1) {
        KeyAction::FocusPanel(Focus::Tree, None)
    } else if key.code == Key::F(2) {
        KeyAction::FocusPanel(Focus::Editor, None)
    } else if key.code == Key::F(3) {
        KeyAction::FocusPanel(Focus::Input, None)
    } else if key.code == Key::F(4) {
        KeyAction::FocusPanel(Focus::Output, Some(OutputTab::Run))
    } else if key.code == Key::F(5) {
        KeyAction::FocusPanel(Focus::Output, Some(OutputTab::Build))
    } else if key.code == Key::F(6) {
        KeyAction::FocusPanel(Focus::Command, Some(OutputTab::Terminal))
    } else if key.code == Key::F(7) {
        KeyAction::FocusPanel(Focus::Output, Some(OutputTab::Security))
    } else if key.code == Key::Tab {
        KeyAction::CycleFocus
    } else {
        KeyAction::Panel(focus)
    }
}

/// Decides what a key press asks of the studio.
pub fn key_action(prompt_open: bool, focus: Focus, key: KeyPress) -> (r: KeyAction)
    ensures
        r == key_action_of(prompt_open, focus, key),
{
    if prompt_open {
        return KeyAction::Prompt;
    }
    if key.control {
        match key.code {
            Key::Char('q') => return KeyAction::Quit,
            Key::Char('s') => return KeyAction::SaveAndRun,
            Key::Char('r') => return KeyAction::Run,
            Key::Char('b') => return KeyAction::Build,
            Key::Char('t') => return KeyAction::Audit,
            Key::Char('n') => return KeyAction::NewFile,
            Key::Char('g') => return KeyAction::NewFolder,
            Key::Char('w') => return KeyAction::Rename,
            Key::Char('d') => return KeyAction::Delete,
            Key::Char('l') => return KeyAction::ClearOutput,
            Key::Char('p') => return KeyAction::Prime(Primed::Open),
            Key::Char('f') => return KeyAction::Prime(Primed::Find),
            Key::Char('e') => return KeyAction::Prime(Primed::Search),
            Key::Char('k') => return KeyAction::Prime(Primed::Deck),
            Key::Char('a') => return KeyAction::Prime(Primed::Agent),
            Key::Char('o') => return KeyAction::Prime(Primed::Outline),
            _ => {},
        }
    }
    match key.code {
        Key::F(1) => KeyAction::FocusPanel(Focus::Tree, None),
        Key::F(2) => KeyAction::FocusPanel(Focus::Editor, None),
        Key::F(3) => KeyAction::FocusPanel(Focus::Input, None),
        Key::F(4) => KeyAction::FocusPanel(Focus::Output, Some(OutputTab::Run)),
        Key::F(5) => KeyAction::FocusPanel(Focus::Output, Some(OutputTab::Build)),
        Key::F(6) => KeyAction::FocusPanel(Focus::Command, Some(OutputTab::Terminal)),
        Key::F(7) => KeyAction::FocusPanel(Focus::Output, Some(OutputTab::Security)),
        Key::Tab => KeyAction::CycleFocus,
        _ => KeyAction::Panel(focus),
    }
}

/// The text a primed command starts with and the status line it shows; the
/// outline starts from `outline <path>` of the open file.
pub open spec fn primed_text(p: Primed, open_path: Seq<char>) -> (Seq<char>, Seq<char>) {
    match p {
        Primed::Open => ("open "@, "Quick open: enter a workspace path"@),
        Primed::Find => ("find "@, "Workspace find: type a file fragment"@),
        Primed::Search => ("search "@, "Workspace search: type text to search"@),
        Primed::Deck => (""@, "Command deck ready: try agent, doctor, outline, snippet list, or build wasm"@),
        Primed::Agent => ("agent "@, "SNS AI coding agent ready: describe the SNSX program you want"@),
        Primed::Outline => ("outline "@ + open_path, "Outline prepared for the current file"@),
    }
}

/// The command and status line of a primed command.
pub fn primed_command(p: Primed, open_path: &str) -> (r: (String, String))
    ensures
        (r.0@, r.1@) == primed_text(p, open_path@),
{
    match p {
        Primed::Open => (owned("open "), owned("Quick open: enter a workspace path")),
        Primed::Find => (owned("find "), owned("Workspace find: type a file fragment")),
        Primed::Search => (owned("search "), owned("Workspace search: type text to search")),
        Primed::Deck => (owned(""), owned("Command deck ready: try agent, doctor, outline, snippet list, or build wasm")),
        Primed::Agent => (owned("agent "), owned("SNS AI coding agent ready: describe the SNSX program you want")),
        Primed::Outline => {
            let mut c = owned("outline ");
            crate::text::push_str(&mut c, open_path);
            (c, owned("Outline prepared for the current file"))
        },
    }
}

} // verus!

verus! {

/// The title of a tab.
pub open spec fn tab_title(t: OutputTab) -> Seq<char> {
    match t {
        OutputTab::Run => "Run"@,
        OutputTab::Build => "Build"@,
        OutputTab::Security => "Security"@,
        OutputTab::Terminal => "Terminal"@,
    }
}

/// A tab's title, bracketed when it is the active one.
pub open spec fn tab_label(t: OutputTab, active: OutputTab) -> Seq<char> {
    if t == active {
        "["@ + tab_title(t) + "]"@
    } else {
        tab_title(t)
    }
}

/// The title of the output panel: the four tabs, the active one bracketed.
pub open spec fn output_title_text(active: OutputTab) -> Seq<char> {
    "Console "@ + tab_label(OutputTab::Run, active) + " "@ + tab_label(OutputTab::Build, active) + " "@
        + tab_label(OutputTab::Security, active) + " "@ + tab_label(OutputTab::Terminal, active)
}

fn tab_label_of(t: OutputTab, active: OutputTab) -> (r: String)
    ensures
        r@ == tab_label(t, active),
{
    if t == active {
        let mut s = owned("[");
        crate::text::push_str(&mut s, t.title());
        crate::text::push_str(&mut s, "]");
        s
    } else {
        owned(t.title())
    }
}

/// The title of the output panel.
pub fn output_title(active: OutputTab) -> (r: String)
    ensures
        r@ == output_title_text(active),
{
    let mut s = owned("Console ");
    crate::text::push_str(&mut s, tab_label_of(OutputTab::Run, active).as_str());
    crate::text::push_str(&mut s, " ");
    crate::text::push_str(&mut s, tab_label_of(OutputTab::Build, active).as_str());
    crate::text::push_str(&mut s, " ");
    crate::text::push_str(&mut s, tab_label_of(OutputTab::Security, active).as_str());
    crate::text::push_str(&mut s, " ");
    crate::text::push_str(&mut s, tab_label_of(OutputTab::Terminal, active).as_str());
    s
}

/// The title of the command panel.
pub fn command_panel_title(session_open: bool) -> (r: &'static str)
    ensures
        r@ == (if session_open { "Program Console"@ } else { "SNSX Terminal"@ }),
{
    if session_open {
        "Program Console"
    } else {
        "SNSX Terminal"
    }
}

/// The permissions of a strict policy, as the status line shows them.
pub open spec fn policy_label(fs: bool, net: bool, ai: bool) -> Seq<char> {
    "strict | fs "@ + (if fs { "on"@ } else { "off"@ }) + " | net "@ + (if net { "on"@ } else { "off"@ })
        + " | ai "@ + (if ai { "on"@ } else { "off"@ })
}

/// The permissions of a strict policy, as the status line shows them.
pub fn security_policy_label(fs: bool, net: bool, ai: bool) -> (r: String)
    ensures
        r@ == policy_label(fs, net, ai),
{
    let mut s = owned("strict | fs ");
    crate::text::push_str(&mut s, crate::workspace::on_off(fs));
    crate::text::push_str(&mut s, " | net ");
    crate::text::push_str(&mut s, crate::workspace::on_off(net));
    crate::text::push_str(&mut s, " | ai ");
    crate::text::push_str(&mut s, crate::workspace::on_off(ai));
    s
}

/// The audit state, as the status line shows it.
pub open spec fn security_status_text(blockers: nat) -> Seq<char> {
    if blockers == 0 {
        "security clean"@
    } else {
        "security "@ + crate::text::decimal(blockers) + " blocker(s)"@
    }
}

/// The audit state, as the status line shows it.
pub fn security_status_label(blockers: usize) -> (r: String)
    ensures
        r@ == security_status_text(blockers as nat),
{
    if blockers == 0 {
        owned("security clean")
    } else {
        let mut s = owned("security ");
        crate::text::push_str(&mut s, crate::text::decimal_string(blockers).as_str());
        crate::text::push_str(&mut s, " blocker(s)");
        s
    }
}

/// The status line after an action that audits.
pub open spec fn security_action_text(prefix: Seq<char>, blockers: nat) -> Seq<char> {
    if blockers == 0 {
        prefix + ": strict audit is clean"@
    } else {
        prefix + ": "@ + crate::text::decimal(blockers) + " blocker(s) remain in the Security console"@
    }
}

/// The status line after an action that audits.
pub fn security_action_status(prefix: &str, blockers: usize) -> (r: String)
    ensures
        r@ == security_action_text(prefix@, blockers as nat),
{
    let mut s = owned(prefix);
    if blockers == 0 {
        crate::text::push_str(&mut s, ": strict audit is clean");
    } else {
        crate::text::push_str(&mut s, ": ");
        crate::text::push_str(&mut s, crate::text::decimal_string(blockers).as_str());
        crate::text::push_str(&mut s, " blocker(s) remain in the Security console");
    }
    s
}

/// The name of a build target.
pub open spec fn target_name_of(t: crate::shell::Target) -> Seq<char> {
    match t {
        crate::shell::Target::Vm => "vm"@,
        crate::shell::Target::Llvm => "llvm"@,
        crate::shell::Target::Wasm => "wasm"@,
        crate::shell::Target::NativeX86_64 => "native-x86_64"@,
        crate::shell::Target::NativeAarch64 => "native-aarch64"@,
    }
}

/// The name of a build target.
pub fn target_name(t: crate::shell::Target) -> (r: &'static str)
    ensures
        r@ == target_name_of(t),
{
    match t {
        crate::shell::Target::Vm => "vm",
        crate::shell::Target::Llvm => "llvm",
        crate::shell::Target::Wasm => "wasm",
        crate::shell::Target::NativeX86_64 => "native-x86_64",
        crate::shell::Target::NativeAarch64 => "native-aarch64",
    }
}

/// The file extension of a build target's output.
pub fn output_extension(t: crate::shell::Target) -> (r: &'static str)
    ensures
        r@ == match t {
            crate::shell::Target::Vm => "snsxbc"@,
            crate::shell::Target::Llvm => "ll"@,
            crate::shell::Target::Wasm => "wat"@,
            crate::shell::Target::NativeX86_64 => "x86_64.s"@,
            crate::shell::Target::NativeAarch64 => "aarch64.s"@,
        },
{
    match t {
        crate::shell::Target::Vm => "snsxbc",
        crate::shell::Target::Llvm => "ll",
        crate::shell::Target::Wasm => "wat",
        crate::shell::Target::NativeX86_64 => "x86_64.s",
        crate::shell::Target::NativeAarch64 => "aarch64.s",
    }
}

/// The text a new file starts with: a small program for a source file,
/// nothing for any other.
pub fn default_file_template(extension: Option<&str>) -> (r: &'static str)
    ensures
        r@ == (match extension {
            Some(e) => if e@ == "snsx"@ { "bring <module/std.io> as io\n\nentry\n    show \"SNSX Studio\"\n    0\n"@ } else { ""@ },
            None => ""@,
        }),
{
    match extension {
        Some(e) => if crate::text::str_eq(e, "snsx") {
            "bring <module/std.io> as io\n\nentry\n    show \"SNSX Studio\"\n    0\n"
        } else {
            ""
        },
        None => "",
    }
}

/// The key help of the studio's footer.
pub fn studio_key_help() -> (r: &'static str)
    ensures
        r@ == "Keys: F1 tree | F2 editor | F3 input | F4 run | F5 build | F6 terminal | F7 security | Ctrl-S save+run current file | Ctrl-B build | Ctrl-T audit | Ctrl-A agent | Ctrl-P open | Ctrl-F find | Ctrl-E search | Ctrl-O outline | Ctrl-K command deck | Ctrl-N file | Ctrl-G folder | Ctrl-W rename | Ctrl-D delete | Ctrl-L clear | Ctrl-Q quit"@,
{
    "Keys: F1 tree | F2 editor | F3 input | F4 run | F5 build | F6 terminal | F7 security | Ctrl-S save+run current file | Ctrl-B build | Ctrl-T audit | Ctrl-A agent | Ctrl-P open | Ctrl-F find | Ctrl-E search | Ctrl-O outline | Ctrl-K command deck | Ctrl-N file | Ctrl-G folder | Ctrl-W rename | Ctrl-D delete | Ctrl-L clear | Ctrl-Q quit"
}

/// The first tree row shown so that the selected row is in a window of
/// `height` rows.
pub open spec fn tree_scroll_for(index: nat, scroll: nat, height: nat) -> nat {
    let s = if index < scroll { index } else { scroll };
    if index >= s + height {
        let back = if height >= 1 { (height - 1) as nat } else { 0 };
        if index >= back { (index - back) as nat } else { 0 }
    } else {
        s
    }
}

/// Scrolls the file tree so that the selected row is visible.
pub fn tree_scroll(index: usize, scroll: usize, height: usize) -> (r: usize)
    requires
        scroll + height <= usize::MAX,
    ensures
        r == tree_scroll_for(index as nat, scroll as nat, height as nat),
        r <= index,
        index < r + height || height == 0,
{
    let mut s = scroll;
    if index < s {
        s = index;
    }
    if index >= s + height {
        let back = if height >= 1 { height - 1 } else { 0 };
        s = if index >= back { index - back } else { 0 };
    }
    s
}

/// The status line for the selected tree row.
pub fn selection_status(selected: Option<(bool, &str)>) -> (r: String)
    ensures
        r@ == (match selected {
            Some((is_dir, path)) => (if is_dir { "Folder"@ } else { "File"@ }) + " selected: "@ + path@,
            None => "Workspace is empty"@,
        }),
{
    match selected {
        Some((is_dir, path)) => {
            let mut s = owned(if is_dir { "Folder" } else { "File" });
            crate::text::push_str(&mut s, " selected: ");
            crate::text::push_str(&mut s, path);
            s
        },
        None => owned("Workspace is empty"),
    }
}

} // verus!

verus! {

/// A row of the file tree: the entry's name, its depth, whether it is a
/// folder and whether it is the open file.
#[derive(Debug, Clone)]
pub struct TreeRow {
    pub name: String,
    pub depth: usize,
    pub is_dir: bool,
    pub open: bool,
}

/// The text of a tree row: the selection marker, the open marker, the
/// indentation, `d` or `f`, and the name.
pub open spec fn tree_row_text(row: TreeRow, selected: bool) -> Seq<char> {
    (if selected { ">"@ } else { " "@ }) + (if row.open { "*"@ } else { " "@ }) + " "@
        + crate::text::spaces((2 * row.depth) as nat) + (if row.is_dir { "d"@ } else { "f"@ }) + " "@ + row.name@
}

/// The rows of the file tree panel: the visible entries from `scroll`,
/// clipped to the width, then empty rows down to the height.
pub open spec fn tree_panel_text(rows: Seq<TreeRow>, selected: nat, scroll: nat, height: nat, width: nat) -> Seq<Seq<char>> {
    let count = tree_visible_count(rows.len(), scroll, height);
    Seq::new(count, |k: int| crate::text::clip_seq(tree_row_text(rows[scroll + k], scroll + k == selected), width as int))
        + Seq::new((height - count) as nat, |k: int| Seq::<char>::empty())
}

/// How many tree rows show from `scroll` in a panel of `height` rows.
pub open spec fn tree_visible_count(len: nat, scroll: nat, height: nat) -> nat {
    let end: int = if scroll + height < len { (scroll + height) as int } else { len as int };
    if end > scroll { (end - scroll) as nat } else { 0 }
}

/// Draws the file tree panel.
pub fn render_tree_lines(rows: &Vec<TreeRow>, selected: usize, scroll: usize, height: usize, width: usize) -> (r: Vec<String>)
    requires
        scroll + height <= usize::MAX,
    ensures
        strings_view(r@) == tree_panel_text(rows@, selected as nat, scroll as nat, height as nat, width as nat),
{
    let end = if scroll + height < rows.len() { scroll + height } else { rows.len() };
    let mut lines: Vec<String> = Vec::new();
    let mut index = scroll;
    let ghost count: nat = tree_visible_count(rows@.len(), scroll as nat, height as nat);
    let ghost full = tree_panel_text(rows@, selected as nat, scroll as nat, height as nat, width as nat);
    while index < end
        invariant
            scroll <= index <= end || (end < scroll && index == scroll),
            end <= rows@.len(),
            end <= scroll + height,
            count == tree_visible_count(rows@.len(), scroll as nat, height as nat),
            count == (if end > scroll { (end - scroll) as nat } else { 0nat }),
            full == tree_panel_text(rows@, selected as nat, scroll as nat, height as nat, width as nat),
            strings_view(lines@) == full.take(index - scroll),
        decreases end - index,
    {
        let row = &rows[index];
        let mut line = owned(if index == selected { ">" } else { " " });
        crate::text::push_str(&mut line, if row.open { "*" } else { " " });
        crate::text::push_str(&mut line, " ");
        let mut d: usize = 0;
        while d < row.depth
            invariant
                d <= row.depth,
                line@ == (if index == selected { ">"@ } else { " "@ }) + (if row.open { "*"@ } else { " "@ }) + " "@ + crate::text::spaces((2 * d) as nat),
            decreases row.depth - d,
        {
            crate::text::push_str(&mut line, "  ");
            proof {
                reveal_strlit("  ");
            }
            assert(crate::text::spaces((2 * d) as nat) + "  "@ =~= crate::text::spaces((2 * (d + 1)) as nat));
            d = d + 1;
        }
        crate::text::push_str(&mut line, if row.is_dir { "d" } else { "f" });
        crate::text::push_str(&mut line, " ");
        crate::text::push_str(&mut line, row.name.as_str());
        let clipped = crate::text::clip_line(line.as_str(), width);
        let ghost before = strings_view(lines@);
        lines.push(clipped);
        proof {
            assert(line@ =~= tree_row_text(rows@[index as int], index == selected));
            assert(strings_view(lines@) =~= before.push(clipped@));
            assert(full.take(index + 1 - scroll) =~= full.take(index - scroll).push(full[index - scroll]));
        }
        index = index + 1;
    }
    let mut k: usize = lines.len();
    proof {
        assert(k == count);
    }
    while k < height
        invariant
            count <= k <= height || (k == count && count > height),
            count <= height,
            count == tree_visible_count(rows@.len(), scroll as nat, height as nat),
            full == tree_panel_text(rows@, selected as nat, scroll as nat, height as nat, width as nat),
            lines@.len() == k,
            strings_view(lines@) == full.take(k as int),
        decreases height - k,
    {
        let ghost before = strings_view(lines@);
        lines.push(String::new());
        assert(strings_view(lines@) =~= before.push(Seq::empty()));
        assert(full[k as int] == Seq::<char>::empty());
        assert(full.take(k + 1) =~= full.take(k as int).push(full[k as int]));
        k = k + 1;
    }
    assert(full.take(height as int) =~= full);
    lines
}

} // verus!

verus! {

/// A panel title, bracketed when the panel has the focus.
pub open spec fn bracketed(title: Seq<char>, active: bool) -> Seq<char> {
    if active { seq!['['] + title + seq![']'] } else { title }
}

/// The rows of the command panel: four lines about the session or the
/// shell, then the prompt row at the bottom, empty rows between them.
pub open spec fn command_panel_text(
    session: Option<nat>,
    root: Seq<char>,
    last: Seq<char>,
    prompt_line: Seq<char>,
    height: nat,
    width: nat,
) -> Seq<Seq<char>> {
    let w = width as int;
    let head = match session {
        Some(i) => seq![
            crate::text::clip_seq("Interactive SNSX program session"@, w),
            crate::text::clip_seq("Waiting for input line "@ + crate::text::decimal(i + 1), w),
            crate::text::clip_seq("Type the next program input and press Enter to continue execution."@, w),
            crate::text::clip_seq("Ctrl-C or Esc cancels this wait and returns the terminal to shell mode."@, w),
        ],
        None => seq![
            crate::text::clip_seq("Root: "@ + root, w),
            crate::text::clip_seq("Last: "@ + last, w),
            crate::text::clip_seq("Try tools, status, permissions, deps, agent <prompt>, package list, or !git status"@, w),
            crate::text::clip_seq("Protected host shell: destructive host commands are blocked here"@, w),
        ],
    };
    if height > 5 {
        head + Seq::new((height - 5) as nat, |k: int| Seq::<char>::empty()) + seq![prompt_line]
    } else {
        head.push(prompt_line).take(height as int)
    }
}

/// Draws the command panel.
pub fn render_command_lines(
    session: Option<usize>,
    root: &str,
    last_status: &str,
    prompt_prefix: &str,
    input: &str,
    cursor: usize,
    height: usize,
    width: usize,
) -> (r: Vec<String>)
    requires
        match session {
            Some(i) => i < usize::MAX,
            None => true,
        },
    ensures
        strings_view(r@) == command_panel_text(
            crate::console::opt_nat(session),
            root@,
            last_status@,
            crate::editor::prompt_row(prompt_prefix@, input@, cursor as nat, width as nat).0,
            height as nat,
            width as nat,
        ),
{
    let (command_line, _) = crate::editor::render_command_prompt(prompt_prefix, input, cursor, width);
    let mut lines: Vec<String> = Vec::new();
    match session {
        Some(i) => {
            lines.push(crate::text::clip_line("Interactive SNSX program session", width));
            let mut waiting = owned("Waiting for input line ");
            crate::text::push_str(&mut waiting, crate::text::decimal_string(i + 1).as_str());
            lines.push(crate::text::clip_line(waiting.as_str(), width));
            lines.push(crate::text::clip_line("Type the next program input and press Enter to continue execution.", width));
            lines.push(crate::text::clip_line("Ctrl-C or Esc cancels this wait and returns the terminal to shell mode.", width));
        },
        None => {
            let mut r = owned("Root: ");
            crate::text::push_str(&mut r, root);
            lines.push(crate::text::clip_line(r.as_str(), width));
            let mut l = owned("Last: ");
            crate::text::push_str(&mut l, last_status);
            lines.push(crate::text::clip_line(l.as_str(), width));
            lines.push(crate::text::clip_line("Try tools, status, permissions, deps, agent <prompt>, package list, or !git status", width));
            lines.push(crate::text::clip_line("Protected host shell: destructive host commands are blocked here", width));
        },
    }
    let ghost head = strings_view(lines@);
    let ghost full = command_panel_text(
        crate::console::opt_nat(session),
        root@,
        last_status@,
        command_line@,
        height as nat,
        width as nat,
    );
    assert(head.len() == 4);
    assert(full == (if height > 5 {
        head + Seq::new((height - 5) as nat, |k: int| Seq::<char>::empty()) + seq![command_line@]
    } else {
        head.push(command_line@).take(height as int)
    }));
    if height > 5 {
        let mut k: usize = 5;
        while k < height
            invariant
                5 <= k <= height,
                strings_view(lines@) == head + Seq::new((k - 5) as nat, |j: int| Seq::<char>::empty()),
            decreases height - k,
        {
            let ghost before = strings_view(lines@);
            lines.push(String::new());
            assert(strings_view(lines@) =~= before.push(Seq::<char>::empty()));
            assert(head + Seq::new((k + 1 - 5) as nat, |j: int| Seq::<char>::empty())
                =~= (head + Seq::new((k - 5) as nat, |j: int| Seq::<char>::empty())).push(Seq::<char>::empty()));
            k = k + 1;
        }
        let ghost before = strings_view(lines@);
        lines.push(command_line);
        assert(strings_view(lines@) =~= before.push(command_line@));
        assert(strings_view(lines@) =~= full);
    } else {
        let ghost before = strings_view(lines@);
        lines.push(command_line);
        assert(strings_view(lines@) =~= before.push(command_line@));
        lines.truncate(height);
        assert(strings_view(lines@) =~= full);
    }
    lines
}

} // verus!

verus! {

/// What the studio's screen shows, each panel already drawn.
#[derive(Debug, Clone)]
pub struct FrameParts {
    pub root: String,
    pub entry: String,
    pub security_status: String,
    pub policy: String,
    pub tab: OutputTab,
    pub focus: Focus,
    pub file_name: String,
    pub dirty: bool,
    pub tree: Vec<String>,
    pub editor: Vec<String>,
    pub output: Vec<String>,
    pub status: String,
    pub input: Vec<String>,
    pub command: Vec<String>,
    pub session_open: bool,
    /// The open prompt's label and the text typed into it.
    pub prompt: Option<(String, String)>,
}

/// Row `r` of a panel, or an empty row past its end.
pub open spec fn row_at(v: Seq<Seq<char>>, r: int) -> Seq<char> {
    if 0 <= r < v.len() { v[r] } else { Seq::empty() }
}

/// Three cells left-aligned in their widths, separated by ` | `.
pub open spec fn columns3(a: Seq<char>, b: Seq<char>, c: Seq<char>, wa: nat, wb: nat, wc: nat) -> Seq<char> {
    crate::text::pad_right(a, wa) + " | "@ + crate::text::pad_right(b, wb) + " | "@ + crate::text::pad_right(c, wc)
}

/// Two cells left-aligned in their widths, separated by ` | `.
pub open spec fn columns2(a: Seq<char>, b: Seq<char>, wa: nat, wb: nat) -> Seq<char> {
    crate::text::pad_right(a, wa) + " | "@ + crate::text::pad_right(b, wb)
}

/// Lines cut or padded with empty lines to a height.
pub open spec fn fit_height(lines: Seq<Seq<char>>, height: nat) -> Seq<Seq<char>> {
    if lines.len() < height {
        lines + Seq::new((height - lines.len()) as nat, |k: int| Seq::<char>::empty())
    } else {
        lines.take(height as int)
    }
}

/// The lines of the studio's screen: the header, the titles and rows of the
/// tree, editor and output panels, the status line, the titles and rows of
/// the input and command panels, and the prompt or the key help; cut or
/// padded to the terminal's height.
pub open spec fn frame_text(l: StudioLayout, p: FrameParts) -> Seq<Seq<char>> {
    let w = l.width as int;
    let header = crate::text::clip_seq(
        "SNSX Studio | root: "@ + p.root@ + " | entry: "@ + p.entry@ + " | "@ + p.security_status@ + " | "@
            + p.policy@ + " | console: "@ + tab_title(p.tab),
        w,
    );
    let titles = columns3(
        bracketed("Files"@, p.focus == Focus::Tree),
        bracketed("Editor "@ + p.file_name@ + (if p.dirty { " *"@ } else { ""@ }), p.focus == Focus::Editor),
        bracketed(output_title_text(p.tab), p.focus == Focus::Output),
        l.tree_width as nat,
        l.editor_width as nat,
        l.output_width as nat,
    );
    let main = Seq::new(l.main_body_height as nat, |r: int| columns3(
        row_at(strings_view(p.tree@), r),
        row_at(strings_view(p.editor@), r),
        row_at(strings_view(p.output@), r),
        l.tree_width as nat,
        l.editor_width as nat,
        l.output_width as nat,
    ));
    let bottom_titles = columns2(
        bracketed("Program Input"@, p.focus == Focus::Input),
        bracketed(if p.session_open { "Program Console"@ } else { "SNSX Terminal"@ }, p.focus == Focus::Command),
        l.input_width as nat,
        l.command_width as nat,
    );
    let bottom = Seq::new(l.bottom_body_height as nat, |r: int| columns2(
        row_at(strings_view(p.input@), r),
        row_at(strings_view(p.command@), r),
        l.input_width as nat,
        l.command_width as nat,
    ));
    let footer = match p.prompt {
        Some((label, typed)) => crate::text::clip_seq(label@ + typed@, w),
        None => crate::text::clip_seq("Keys: F1 tree | F2 editor | F3 input | F4 run | F5 build | F6 terminal | F7 security | Ctrl-S save+run current file | Ctrl-B build | Ctrl-T audit | Ctrl-A agent | Ctrl-P open | Ctrl-F find | Ctrl-E search | Ctrl-O outline | Ctrl-K command deck | Ctrl-N file | Ctrl-G folder | Ctrl-W rename | Ctrl-D delete | Ctrl-L clear | Ctrl-Q quit"@, w),
    };
    fit_height(
        seq![header, titles] + main + seq![crate::text::clip_seq(p.status@, w), bottom_titles] + bottom + seq![footer],
        l.height as nat,
    )
}

fn row_of(v: &Vec<String>, r: usize) -> (s: &str)
    ensures
        s@ == row_at(strings_view(v@), r as int),
{
    if r < v.len() {
        v[r].as_str()
    } else {
        proof {
            reveal_strlit("");
        }
        ""
    }
}

fn columns3_of(a: &str, b: &str, c: &str, wa: usize, wb: usize, wc: usize) -> (s: String)
    ensures
        s@ == columns3(a@, b@, c@, wa as nat, wb as nat, wc as nat),
{
    let mut s = crate::text::pad_right_string(a, wa);
    crate::text::push_str(&mut s, " | ");
    crate::text::push_str(&mut s, crate::text::pad_right_string(b, wb).as_str());
    crate::text::push_str(&mut s, " | ");
    crate::text::push_str(&mut s, crate::text::pad_right_string(c, wc).as_str());
    s
}

fn columns2_of(a: &str, b: &str, wa: usize, wb: usize) -> (s: String)
    ensures
        s@ == columns2(a@, b@, wa as nat, wb as nat),
{
    let mut s = crate::text::pad_right_string(a, wa);
    crate::text::push_str(&mut s, " | ");
    crate::text::push_str(&mut s, crate::text::pad_right_string(b, wb).as_str());
    s
}

/// Draws the studio's screen from its panels.
pub fn build_screen_frame(l: &StudioLayout, p: &FrameParts) -> (lines: Vec<String>)
    ensures
        strings_view(lines@) == frame_text(*l, *p),
{
    let w = l.width;
    let mut header = owned("SNSX Studio | root: ");
    crate::text::push_str(&mut header, p.root.as_str());
    crate::text::push_str(&mut header, " | entry: ");
    crate::text::push_str(&mut header, p.entry.as_str());
    crate::text::push_str(&mut header, " | ");
    crate::text::push_str(&mut header, p.security_status.as_str());
    crate::text::push_str(&mut header, " | ");
    crate::text::push_str(&mut header, p.policy.as_str());
    crate::text::push_str(&mut header, " | console: ");
    crate::text::push_str(&mut header, p.tab.title());
    let mut editor_title = owned("Editor ");
    crate::text::push_str(&mut editor_title, p.file_name.as_str());
    crate::text::push_str(&mut editor_title, if p.dirty { " *" } else { "" });
    let t_files = crate::editor::panel_title("Files", p.focus == Focus::Tree);
    let t_editor = crate::editor::panel_title(editor_title.as_str(), p.focus == Focus::Editor);
    let t_output = crate::editor::panel_title(output_title(p.tab).as_str(), p.focus == Focus::Output);

    let ghost full = frame_text(*l, *p);
    let mut lines: Vec<String> = Vec::new();
    let header_line = crate::text::clip_line(header.as_str(), w);
    let titles = columns3_of(t_files.as_str(), t_editor.as_str(), t_output.as_str(), l.tree_width, l.editor_width, l.output_width);
    let ghost hv = header_line@;
    let ghost tv = titles@;
    lines.push(header_line);
    lines.push(titles);
    assert(strings_view(lines@) =~= seq![hv, tv]);
    let ghost main = Seq::new(l.main_body_height as nat, |r: int| columns3(
        row_at(strings_view(p.tree@), r),
        row_at(strings_view(p.editor@), r),
        row_at(strings_view(p.output@), r),
        l.tree_width as nat,
        l.editor_width as nat,
        l.output_width as nat,
    ));
    let ghost head2 = strings_view(lines@);
    let mut row: usize = 0;
    while row < l.main_body_height
        invariant
            row <= l.main_body_height,
            strings_view(lines@) == head2 + main.take(row as int),
            main == Seq::new(l.main_body_height as nat, |r: int| columns3(
                row_at(strings_view(p.tree@), r),
                row_at(strings_view(p.editor@), r),
                row_at(strings_view(p.output@), r),
                l.tree_width as nat,
                l.editor_width as nat,
                l.output_width as nat,
            )),
        decreases l.main_body_height - row,
    {
        let line = columns3_of(row_of(&p.tree, row), row_of(&p.editor, row), row_of(&p.output, row), l.tree_width, l.editor_width, l.output_width);
        let ghost before = strings_view(lines@);
        lines.push(line);
        assert(strings_view(lines@) =~= before.push(line@));
        assert(main.take(row + 1) =~= main.take(row as int).push(main[row as int]));
        row = row + 1;
    }
    assert(main.take(main.len() as int) =~= main);
    let status_line = crate::text::clip_line(p.status.as_str(), w);
    let ghost sv = status_line@;
    lines.push(status_line);
    let t_input = crate::editor::panel_title("Program Input", p.focus == Focus::Input);
    let t_command = crate::editor::panel_title(command_panel_title(p.session_open), p.focus == Focus::Command);
    let bottom_titles = columns2_of(t_input.as_str(), t_command.as_str(), l.input_width, l.command_width);
    let ghost bv = bottom_titles@;
    lines.push(bottom_titles);
    assert(strings_view(lines@) =~= head2 + main + seq![sv, bv]);
    let ghost bottom = Seq::new(l.bottom_body_height as nat, |r: int| columns2(
        row_at(strings_view(p.input@), r),
        row_at(strings_view(p.command@), r),
        l.input_width as nat,
        l.command_width as nat,
    ));
    let ghost head3 = strings_view(lines@);
    let mut brow: usize = 0;
    while brow < l.bottom_body_height
        invariant
            brow <= l.bottom_body_height,
            strings_view(lines@) == head3 + bottom.take(brow as int),
            bottom == Seq::new(l.bottom_body_height as nat, |r: int| columns2(
                row_at(strings_view(p.input@), r),
                row_at(strings_view(p.command@), r),
                l.input_width as nat,
                l.command_width as nat,
            )),
        decreases l.bottom_body_height - brow,
    {
        let line = columns2_of(row_of(&p.input, brow), row_of(&p.command, brow), l.input_width, l.command_width);
        let ghost before = strings_view(lines@);
        lines.push(line);
        assert(strings_view(lines@) =~= before.push(line@));
        assert(bottom.take(brow + 1) =~= bottom.take(brow as int).push(bottom[brow as int]));
        brow = brow + 1;
    }
    assert(bottom.take(bottom.len() as int) =~= bottom);
    let footer = match &p.prompt {
        Some((label, typed)) => {
            let mut s = label.clone();
            crate::text::push_str(&mut s, typed.as_str());
            crate::text::clip_line(s.as_str(), w)
        },
        None => crate::text::clip_line(studio_key_help(), w),
    };
    let ghost fv = footer@;
    lines.push(footer);
    let ghost unfit = strings_view(lines@);
    assert(unfit =~= head2 + main + seq![sv, bv] + bottom + seq![fv]);
    let ghost fitted = fit_height(unfit, l.height as nat);
    while lines.len() < l.height
        invariant
            unfit.len() <= lines@.len(),
            lines@.len() <= l.height || lines@.len() == unfit.len(),
            strings_view(lines@) == unfit + Seq::new((lines@.len() - unfit.len()) as nat, |k: int| Seq::<char>::empty()),
        decreases l.height - lines@.len(),
    {
        let ghost before = strings_view(lines@);
        lines.push(String::new());
        assert(strings_view(lines@) =~= before.push(Seq::<char>::empty()));
        assert(unfit + Seq::new((lines@.len() - unfit.len()) as nat, |k: int| Seq::<char>::empty())
            =~= before.push(Seq::<char>::empty()));
    }
    lines.truncate(l.height);
    assert(strings_view(lines@) =~= fitted);
    lines
}

} // verus!

verus! {

/// A cursor coordinate kept inside `limit` cells, as the terminal takes it.
pub open spec fn axis(v: int, limit: nat) -> nat {
    let last: int = if limit >= 1 { limit - 1 } else { 0 };
    ((if v < last { v } else { last }) % 65536) as nat
}

/// Where the terminal cursor shows: at the end of an open prompt on the
/// footer; else in the focused editor, input or command panel; nowhere for
/// the tree and the output.
pub open spec fn cursor_at(
    l: StudioLayout,
    prompt: Option<(Seq<char>, Seq<char>)>,
    focus: Focus,
    editor: TextBuffer,
    input: TextBuffer,
    prefix: Seq<char>,
    command: Seq<char>,
    cursor: nat,
) -> Option<(nat, nat)> {
    match prompt {
        Some((label, typed)) => Some((axis((label.len() + typed.len()) as int, l.width as nat), axis(sat_sub(l.height as int, 1), l.height as nat))),
        None => match focus {
            Focus::Editor => Some((
                axis(l.tree_width + 3 + 5 + sat_sub(editor.cursor_col() as int, editor.left_col() as int), l.width as nat),
                axis(2 + sat_sub(editor.cursor_row() as int, editor.top_row() as int), l.height as nat),
            )),
            Focus::Input => Some((
                axis(5 + sat_sub(input.cursor_col() as int, input.left_col() as int), l.width as nat),
                axis(4 + l.main_body_height + sat_sub(input.cursor_row() as int, input.top_row() as int), l.height as nat),
            )),
            Focus::Command => Some((
                axis(l.input_width + 3 + crate::editor::prompt_row(prefix, command, cursor, l.command_width as nat).1, l.width as nat),
                axis(4 + l.main_body_height + sat_sub(l.bottom_body_height as int, 1), l.height as nat),
            )),
            _ => None,
        },
    }
}

fn buffer_cursor(b: &crate::editor::TextBuffer, x0: usize, y0: usize, l: &StudioLayout) -> (r: (u16, u16))
    requires
        x0 + sat_sub(b.cursor_col() as int, b.left_col() as int) <= usize::MAX,
        y0 + sat_sub(b.cursor_row() as int, b.top_row() as int) <= usize::MAX,
    ensures
        r.0 == axis(x0 + sat_sub(b.cursor_col() as int, b.left_col() as int), l.width as nat),
        r.1 == axis(y0 + sat_sub(b.cursor_row() as int, b.top_row() as int), l.height as nat),
{
    let (cx, cy) = b.cursor();
    let (hs, sc) = b.view_origin();
    let dx = if cx >= hs { cx - hs } else { 0 };
    let dy = if cy >= sc { cy - sc } else { 0 };
    (crate::editor::clamp_cursor_axis(x0 + dx, l.width), crate::editor::clamp_cursor_axis(y0 + dy, l.height))
}

fn command_cursor(l: &StudioLayout, prefix: &str, command: &str, cursor: usize) -> (r: (u16, u16))
    requires
        l.input_width <= 65535 && l.command_width <= 65535 && l.main_body_height <= 65535,
        l.bottom_body_height <= 65535,
        prefix@.len() <= 65535,
    ensures
        r.0 == axis(l.input_width + 3 + crate::editor::prompt_row(prefix@, command@, cursor as nat, l.command_width as nat).1, l.width as nat),
        r.1 == axis(4 + l.main_body_height + sat_sub(l.bottom_body_height as int, 1), l.height as nat),
{
    let (_, offset) = crate::editor::render_command_prompt(prefix, command, cursor, l.command_width);
    proof {
        crate::editor::lemma_prompt_offset_bound(prefix@, command@, cursor as nat, l.command_width as nat);
    }
    let below = if l.bottom_body_height >= 1 { l.bottom_body_height - 1 } else { 0 };
    (
        crate::editor::clamp_cursor_axis(l.input_width + 3 + offset, l.width),
        crate::editor::clamp_cursor_axis(4 + l.main_body_height + below, l.height),
    )
}

/// Places the terminal cursor.
pub fn cursor_position(
    l: &StudioLayout,
    prompt: Option<(&str, &str)>,
    focus: Focus,
    editor: &crate::editor::TextBuffer,
    input: &crate::editor::TextBuffer,
    prefix: &str,
    command: &str,
    cursor: usize,
) -> (r: Option<(u16, u16)>)
    requires
        l.width <= 65535 && l.height <= 65535 && l.main_body_height <= 65535 && l.bottom_body_height <= 65535,
        l.tree_width <= 65535 && l.input_width <= 65535 && l.command_width <= 65535,
        prefix@.len() <= 65535,
        match prompt {
            Some((label, typed)) => label@.len() + typed@.len() <= usize::MAX,
            None => true,
        },
        l.tree_width + 8 + sat_sub(editor.cursor_col() as int, editor.left_col() as int) <= usize::MAX,
        2 + sat_sub(editor.cursor_row() as int, editor.top_row() as int) <= usize::MAX,
        5 + sat_sub(input.cursor_col() as int, input.left_col() as int) <= usize::MAX,
        4 + l.main_body_height + sat_sub(input.cursor_row() as int, input.top_row() as int) <= usize::MAX,
    ensures
        match r {
            Some((x, y)) => cursor_at(*l, match prompt { Some((a, b)) => Some((a@, b@)), None => None }, focus, *editor, *input, prefix@, command@, cursor as nat)
                == Some((x as nat, y as nat)),
            None => cursor_at(*l, match prompt { Some((a, b)) => Some((a@, b@)), None => None }, focus, *editor, *input, prefix@, command@, cursor as nat) is None,
        },
{
    match prompt {
        Some((label, typed)) => {
            let x = crate::text::text_char_len(label) + crate::text::text_char_len(typed);
            let footer = if l.height >= 1 { l.height - 1 } else { 0 };
            Some((crate::editor::clamp_cursor_axis(x, l.width), crate::editor::clamp_cursor_axis(footer, l.height)))
        },
        None => match focus {
            Focus::Editor => Some(buffer_cursor(editor, l.tree_width + 3 + 5, 2, l)),
            Focus::Input => Some(buffer_cursor(input, 5, 4 + l.main_body_height, l)),
            Focus::Command => Some(command_cursor(l, prefix, command, cursor)),
            _ => None,
        },
    }
}

} // verus!

verus! {

/// What a prompt of the studio asks for.
#[derive(Debug, Clone, Copy, PartialEq, Eq, Structural)]
pub enum PromptKind {
    NewFile,
    NewFolder,
    Rename,
    Delete,
}

/// An open prompt: what it asks for, the text typed so far and the label
/// before it.
#[derive(Debug, Clone)]
pub struct PromptState {
    pub kind: PromptKind,
    pub input: String,
    pub label: String,
}

/// What a key does to an open prompt.
#[derive(Debug, Clone)]
pub enum PromptStep {
    /// The prompt closes with nothing done.
    Cancel,
    /// The prompt stays open.
    Stay,
    /// The prompt closes with the trimmed text typed.
    Submit(String),
}

/// The typed text and the step after a key on a prompt: Esc cancels,
/// Backspace drops the last character, Enter submits the trimmed text (or
/// cancels when it is blank), a character typed without control is
/// appended.
pub open spec fn prompt_key_effect(input: Seq<char>, key: KeyPress) -> (Seq<char>, Option<Option<Seq<char>>>) {
    match key.code {
        Key::Esc => (input, Some(None)),
        Key::Backspace => (if input.len() > 0 { input.drop_last() } else { input }, None),
        Key::Enter => if crate::text::trim(input).len() == 0 {
            (input, Some(None))
        } else {
            (input, Some(Some(crate::text::trim(input))))
        },
        Key::Char(c) => if !key.control { (input.push(c), None) } else { (input, None) },
        _ => (input, None),
    }
}

/// Applies a key to an open prompt.
pub fn handle_prompt_key(prompt: &mut PromptState, key: KeyPress) -> (step: PromptStep)
    ensures
        final(prompt).kind == old(prompt).kind,
        final(prompt).label@ == old(prompt).label@,
        ({
            let (text, outcome) = prompt_key_effect(old(prompt).input@, key);
            &&& final(prompt).input@ == text
            &&& match step {
                PromptStep::Cancel => outcome == Some(None::<Seq<char>>),
                PromptStep::Stay => outcome is None,
                PromptStep::Submit(s) => outcome == Some(Some(s@)),
            }
        }),
{
    match key.code {
        Key::Esc => PromptStep::Cancel,
        Key::Backspace => {
            let v = crate::text::chars_of(prompt.input.as_str());
            if v.len() > 0 {
                prompt.input = crate::text::string_of_range(&v, 0, v.len() - 1);
                assert(v@.subrange(0, v@.len() - 1) =~= v@.drop_last());
            }
            PromptStep::Stay
        },
        Key::Enter => {
            let t = crate::text::trim_str(prompt.input.as_str());
            if crate::text::text_char_len(t.as_str()) == 0 {
                PromptStep::Cancel
            } else {
                PromptStep::Submit(t)
            }
        },
        Key::Char(c) => {
            if !key.control {
                crate::text::push_char(&mut prompt.input, c);
            }
            PromptStep::Stay
        },
        _ => PromptStep::Stay,
    }
}

/// Opens the prompt that creates a file or folder in a folder shown as
/// `base`; returns it with the status line.
pub fn begin_create_prompt(kind: PromptKind, base: &str) -> (r: Option<(PromptState, String)>)
    ensures
        match r {
            Some((p, status)) => {
                &&& kind == PromptKind::NewFile || kind == PromptKind::NewFolder
                &&& p.kind == kind
                &&& p.input@ == Seq::<char>::empty()
                &&& p.label@ == (if kind == PromptKind::NewFile { "New file in "@ } else { "New folder in "@ }) + base@ + " > "@
                &&& status@ == "Creating inside "@ + base@
            },
            None => kind == PromptKind::Rename || kind == PromptKind::Delete,
        },
{
    let head = match kind {
        PromptKind::NewFile => "New file in ",
        PromptKind::NewFolder => "New folder in ",
        _ => return None,
    };
    let mut label = owned(head);
    crate::text::push_str(&mut label, base);
    crate::text::push_str(&mut label, " > ");
    let mut status = owned("Creating inside ");
    crate::text::push_str(&mut status, base);
    let input = String::new();
    assert(input@ =~= Seq::<char>::empty());
    Some((PromptState { kind, input, label }, status))
}

/// Opens the prompt that renames the selected path, shown as `selected`:
/// the root and the manifest cannot be renamed. `Err` is the status line
/// that says why there is no prompt.
pub fn begin_rename_prompt(selected: Option<&str>, is_root: bool, is_manifest: bool) -> (r: Result<(PromptState, String), String>)
    ensures
        match r {
            Ok((p, status)) => {
                &&& selected is Some && !is_root && !is_manifest
                &&& p.kind == PromptKind::Rename
                &&& p.input@ == selected->0@
                &&& p.label@ == "Rename "@ + selected->0@ + " to workspace path > "@
                &&& status@ == "Rename or move the selected file/folder inside the workspace"@
            },
            Err(m) => m@ == (match selected {
                None => "Select a file or folder in the tree to rename"@,
                Some(_) => if is_root {
                    "Workspace root cannot be renamed"@
                } else {
                    "snsx.toml is managed by the workspace and cannot be renamed here"@
                },
            }) && (selected is None || is_root || is_manifest),
        },
{
    let current = match selected {
        None => return Err(owned("Select a file or folder in the tree to rename")),
        Some(s) => s,
    };
    if is_root {
        return Err(owned("Workspace root cannot be renamed"));
    }
    if is_manifest {
        return Err(owned("snsx.toml is managed by the workspace and cannot be renamed here"));
    }
    let mut label = owned("Rename ");
    crate::text::push_str(&mut label, current);
    crate::text::push_str(&mut label, " to workspace path > ");
    Ok((
        PromptState { kind: PromptKind::Rename, input: owned(current), label },
        owned("Rename or move the selected file/folder inside the workspace"),
    ))
}

/// Opens the prompt that deletes the selected path, shown as `selected`:
/// the root and the manifest cannot be deleted. `Err` is the status line
/// that says why there is no prompt.
pub fn begin_delete_prompt(selected: Option<&str>, is_root: bool, is_manifest: bool) -> (r: Result<(PromptState, String), String>)
    ensures
        match r {
            Ok((p, status)) => {
                &&& selected is Some && !is_root && !is_manifest
                &&& p.kind == PromptKind::Delete
                &&& p.input@ == Seq::<char>::empty()
                &&& p.label@ == "Type DELETE to remove "@ + selected->0@ + " > "@
                &&& status@ == "Delete is guarded. Type DELETE exactly to confirm removal"@
            },
            Err(m) => m@ == (match selected {
                None => "Select a file or folder in the tree to delete"@,
                Some(_) => if is_root {
                    "Workspace root cannot be deleted"@
                } else {
                    "snsx.toml is protected from deletion inside the studio"@
                },
            }) && (selected is None || is_root || is_manifest),
        },
{
    let current = match selected {
        None => return Err(owned("Select a file or folder in the tree to delete")),
        Some(s) => s,
    };
    if is_root {
        return Err(owned("Workspace root cannot be deleted"));
    }
    if is_manifest {
        return Err(owned("snsx.toml is protected from deletion inside the studio"));
    }
    let mut label = owned("Type DELETE to remove ");
    crate::text::push_str(&mut label, current);
    crate::text::push_str(&mut label, " > ");
    let input = String::new();
    assert(input@ =~= Seq::<char>::empty());
    Ok((
        PromptState { kind: PromptKind::Delete, input, label },
        owned("Delete is guarded. Type DELETE exactly to confirm removal"),
    ))
}

} // verus!

verus! {

/// Applies a key to the output panel: the arrows and page keys scroll the
/// active log, Home and End jump to its ends, Left and Right change the
/// tab. Returns the tab shown afterwards.
pub fn handle_output_key(log: &mut crate::editor::LogBuffer, tab: OutputTab, key: Key) -> (next: OutputTab)
    requires
        old(log).log_scroll() + 10 <= usize::MAX,
    ensures
        final(log).log_lines() == old(log).log_lines(),
        next == (match key {
            Key::Left => previous_tab(tab),
            Key::Right => next_tab(tab),
            _ => tab,
        }),
        ({
            let n = old(log).log_lines().len();
            let last: nat = if n >= 1 { (n - 1) as nat } else { 0 };
            let s = old(log).log_scroll();
            let down = |amount: nat| if s + amount < last { (s + amount) as nat } else { last };
            final(log).log_scroll() == match key {
                Key::Up => if s >= 1 { (s - 1) as nat } else { 0 },
                Key::Down => down(1),
                Key::PageUp => if s >= 10 { (s - 10) as nat } else { 0 },
                Key::PageDown => down(10),
                Key::Home => 0,
                Key::End => last,
                _ => s,
            }
        }),
{
    match key {
        Key::Up => {
            log.scroll_up(1);
            tab
        },
        Key::Down => {
            log.scroll_down(1);
            tab
        },
        Key::PageUp => {
            log.scroll_up(10);
            tab
        },
        Key::PageDown => {
            log.scroll_down(10);
            tab
        },
        Key::Home => {
            log.scroll_to_top();
            tab
        },
        Key::End => {
            log.scroll_to_end();
            tab
        },
        Key::Left => tab.previous(),
        Key::Right => tab.next(),
        _ => tab,
    }
}

/// What a key does in the file tree: the selection moves up or down within
/// the entries, Enter asks to open the selected file.
pub open spec fn tree_key_effect(index: nat, len: nat, key: Key) -> (nat, bool) {
    match key {
        Key::Up => (if index >= 1 { (index - 1) as nat } else { 0 }, false),
        Key::Down => (if index + 1 < len { index + 1 } else { index }, false),
        Key::Enter => (index, true),
        _ => (index, false),
    }
}

/// Applies a key to the file tree; returns the selected row and whether
/// the selected entry is to be opened.
pub fn handle_tree_key(index: usize, len: usize, key: Key) -> (r: (usize, bool))
    ensures
        (r.0 as nat, r.1) == tree_key_effect(index as nat, len as nat, key),
{
    match key {
        Key::Up => (if index >= 1 { index - 1 } else { 0 }, false),
        Key::Down => (if index < len && index + 1 < len { index + 1 } else { index }, false),
        Key::Enter => (index, true),
        _ => (index, false),
    }
}

/// The message a cleared log keeps and the status line after clearing the
/// active output tab.
pub fn clear_messages(tab: OutputTab) -> (r: (&'static str, &'static str))
    ensures
        (r.0@, r.1@) == (match tab {
            OutputTab::Run => ("Run output cleared"@, "Cleared run panel"@),
            OutputTab::Build => ("Build output cleared"@, "Cleared build panel"@),
            OutputTab::Security => ("Security output cleared"@, "Cleared security panel"@),
            OutputTab::Terminal => ("Terminal cleared"@, "Cleared terminal panel"@),
        }),
{
    match tab {
        OutputTab::Run => ("Run output cleared", "Cleared run panel"),
        OutputTab::Build => ("Build output cleared", "Cleared build panel"),
        OutputTab::Security => ("Security output cleared", "Cleared security panel"),
        OutputTab::Terminal => ("Terminal cleared", "Cleared terminal panel"),
    }
}

} // verus!
