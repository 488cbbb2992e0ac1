//! The command language of the studio's shell: a line of text is read as a
//! workspace command, or handed to the host shell.

use vstd::prelude::*;
use crate::text::{
    pad_right, pad_right_string, chars_eq, decimal, decimal_string, lowercase, owned, pad_left, pad_left_string, strings_view,
    to_lowercase, trim_end, trim_end_len, trim_start, string_of_range,
    chars_of, chars_range, eq_lit, is_whitespace, is_ws, lemma_first_word_prefix,
    lemma_trim_bounds, push_str, starts_with,
    string_of, trim, trim_range, utf8_len, char_len_utf8, char_utf8_len, words, words_from,
    words_of,
};

verus! {

/// A build target of the compiler.
#[derive(Debug, Clone, Copy, PartialEq, Eq, Structural)]
pub enum Target {
    Vm,
    Llvm,
    Wasm,
    NativeX86_64,
    NativeAarch64,
}

/// A command of the studio's shell.
#[derive(Debug, Clone)]
pub enum ShellCommand {
    Help,
    Tools,
    Docs,
    Manual,
    Spec,
    TechSpec,
    History,
    Status,
    PermissionsShow,
    DependenciesShow,
    Agent(String),
    AgentWrite { path: String, prompt: String },
    Run,
    Build(Target),
    Audit,
    Doctor,
    Clear,
    Open(String),
    Pwd,
    Ls(Option<String>),
    Tree(Option<String>),
    Find(String),
    Search(String),
    Outline(Option<String>),
    Cat(String),
    Touch(String),
    Mkdir(String),
    Move { from: String, to: String },
    Copy { from: String, to: String },
    Remove(String),
    EntryShow,
    EntrySet(String),
    PackageInit,
    PackageList,
    PackageAdd(String),
    PackageRemove(String),
    ModuleList,
    ModuleInstall(String),
    ModuleScaffold(String),
    SnippetList,
    SnippetCreate { kind: String, path: String },
    ManifestShow,
    PermSet { name: String, enabled: bool },
    Host(String),
}

/// The mathematical value of a shell command: its texts as characters.
pub enum CommandView {
    Help,
    Tools,
    Docs,
    Manual,
    Spec,
    TechSpec,
    History,
    Status,
    PermissionsShow,
    DependenciesShow,
    Agent(Seq<char>),
    AgentWrite { path: Seq<char>, prompt: Seq<char> },
    Run,
    Build(Target),
    Audit,
    Doctor,
    Clear,
    Open(Seq<char>),
    Pwd,
    Ls(Option<Seq<char>>),
    Tree(Option<Seq<char>>),
    Find(Seq<char>),
    Search(Seq<char>),
    Outline(Option<Seq<char>>),
    Cat(Seq<char>),
    Touch(Seq<char>),
    Mkdir(Seq<char>),
    Move { from: Seq<char>, to: Seq<char> },
    Copy { from: Seq<char>, to: Seq<char> },
    Remove(Seq<char>),
    EntryShow,
    EntrySet(Seq<char>),
    PackageInit,
    PackageList,
    PackageAdd(Seq<char>),
    PackageRemove(Seq<char>),
    ModuleList,
    ModuleInstall(Seq<char>),
    ModuleScaffold(Seq<char>),
    SnippetList,
    SnippetCreate { kind: Seq<char>, path: Seq<char> },
    ManifestShow,
    PermSet { name: Seq<char>, enabled: bool },
    Host(Seq<char>),
}

/// The text of an optional string.
pub open spec fn opt_text(o: Option<String>) -> Option<Seq<char>> {
    match o {
        Some(s) => Some(s@),
        None => None,
    }
}

impl View for ShellCommand {
    type V = CommandView;

    open spec fn view(&self) -> CommandView {
        match self {
            ShellCommand::Help => CommandView::Help,
            ShellCommand::Tools => CommandView::Tools,
            ShellCommand::Docs => CommandView::Docs,
            ShellCommand::Manual => CommandView::Manual,
            ShellCommand::Spec => CommandView::Spec,
            ShellCommand::TechSpec => CommandView::TechSpec,
            ShellCommand::History => CommandView::History,
            ShellCommand::Status => CommandView::Status,
            ShellCommand::PermissionsShow => CommandView::PermissionsShow,
            ShellCommand::DependenciesShow => CommandView::DependenciesShow,
            ShellCommand::Agent(p) => CommandView::Agent(p@),
            ShellCommand::AgentWrite { path, prompt } => CommandView::AgentWrite { path: path@, prompt: prompt@ },
            ShellCommand::Run => CommandView::Run,
            ShellCommand::Build(t) => CommandView::Build(*t),
            ShellCommand::Audit => CommandView::Audit,
            ShellCommand::Doctor => CommandView::Doctor,
            ShellCommand::Clear => CommandView::Clear,
            ShellCommand::Open(p) => CommandView::Open(p@),
            ShellCommand::Pwd => CommandView::Pwd,
            ShellCommand::Ls(p) => CommandView::Ls(opt_text(*p)),
            ShellCommand::Tree(p) => CommandView::Tree(opt_text(*p)),
            ShellCommand::Find(p) => CommandView::Find(p@),
            ShellCommand::Search(p) => CommandView::Search(p@),
            ShellCommand::Outline(p) => CommandView::Outline(opt_text(*p)),
            ShellCommand::Cat(p) => CommandView::Cat(p@),
            ShellCommand::Touch(p) => CommandView::Touch(p@),
            ShellCommand::Mkdir(p) => CommandView::Mkdir(p@),
            ShellCommand::Move { from, to } => CommandView::Move { from: from@, to: to@ },
            ShellCommand::Copy { from, to } => CommandView::Copy { from: from@, to: to@ },
            ShellCommand::Remove(p) => CommandView::Remove(p@),
            ShellCommand::EntryShow => CommandView::EntryShow,
            ShellCommand::EntrySet(p) => CommandView::EntrySet(p@),
            ShellCommand::PackageInit => CommandView::PackageInit,
            ShellCommand::PackageList => CommandView::PackageList,
            ShellCommand::PackageAdd(p) => CommandView::PackageAdd(p@),
            ShellCommand::PackageRemove(p) => CommandView::PackageRemove(p@),
            ShellCommand::ModuleList => CommandView::ModuleList,
            ShellCommand::ModuleInstall(p) => CommandView::ModuleInstall(p@),
            ShellCommand::ModuleScaffold(p) => CommandView::ModuleScaffold(p@),
            ShellCommand::SnippetList => CommandView::SnippetList,
            ShellCommand::SnippetCreate { kind, path } => CommandView::SnippetCreate { kind: kind@, path: path@ },
            ShellCommand::ManifestShow => CommandView::ManifestShow,
            ShellCommand::PermSet { name, enabled } => CommandView::PermSet { name: name@, enabled: *enabled },
            ShellCommand::Host(c) => CommandView::Host(c@),
        }
    }
}

/// An error of the shell: the message that explains it.
#[derive(Debug, Clone)]
pub struct ShellError {
    text: String,
}

impl View for ShellError {
    type V = Seq<char>;

    closed spec fn view(&self) -> Seq<char> {
        self.text@
    }
}

impl ShellError {
    /// The error whose message is `text`.
    pub fn new(text: &str) -> (e: Self)
        ensures
            e@ == text@,
    {
        let mut s = String::new();
        push_str(&mut s, text);
        ShellError { text: s }
    }

    /// The error whose message is `pre`, then `x`, then `post`.
    pub fn framed(pre: &str, x: &[char], post: &str) -> (e: Self)
        ensures
            e@ == pre@ + x@ + post@,
    {
        let mut s = String::new();
        push_str(&mut s, pre);
        let xs = string_of(x);
        push_str(&mut s, xs.as_str());
        push_str(&mut s, post);
        ShellError { text: s }
    }

    /// The message of the error.
    pub fn message(&self) -> (m: String)
        ensures
            m@ == self@,
    {
        self.text.clone()
    }
}

/// What a parse gives, as mathematical values.
pub open spec fn result_view(r: Result<ShellCommand, ShellError>) -> Result<CommandView, Seq<char>> {
    match r {
        Ok(c) => Ok(c@),
        Err(e) => Err(e@),
    }
}

/// What a parse gives, or `None` where the command is not one of those read.
pub open spec fn outcome_view(r: Option<Result<ShellCommand, ShellError>>) -> Option<Result<CommandView, Seq<char>>> {
    match r {
        Some(x) => Some(result_view(x)),
        None => None,
    }
}

} // verus!

verus! {

/// The text after the first `n` characters of a command, trimmed.
pub open spec fn rest_after(command: Seq<char>, n: int) -> Seq<char> {
    trim(command.skip(n))
}

/// The text after the head word of a command, if there is any.
pub open spec fn optional_rest(command: Seq<char>, head: Seq<char>) -> Option<Seq<char>> {
    let r = rest_after(command, head.len() as int);
    if r.len() == 0 {
        None
    } else {
        Some(r)
    }
}

/// The text after the head word of a command; without one, the usage text
/// is the error.
pub open spec fn expect_rest(command: Seq<char>, head: Seq<char>, usage: Seq<char>) -> Result<Seq<char>, Seq<char>> {
    match optional_rest(command, head) {
        Some(r) => Ok(r),
        None => Err(usage),
    }
}

/// Words joined by single spaces.
pub open spec fn join_spaced(ws: Seq<Seq<char>>) -> Seq<char>
    decreases ws.len(),
{
    if ws.len() == 0 {
        Seq::empty()
    } else if ws.len() == 1 {
        ws[0]
    } else {
        join_spaced(ws.drop_last()) + seq![' '] + ws.last()
    }
}

/// The number of characters of `s` whose UTF-8 encoding is `b` bytes long,
/// if `b` falls on a character boundary of `s`.
pub open spec fn char_index_at_byte(s: Seq<char>, b: int) -> Option<int>
    decreases s.len(),
{
    if b == 0 {
        Some(0)
    } else if b < 0 || s.len() == 0 {
        None
    } else {
        match char_index_at_byte(s.drop_first(), b - char_utf8_len(s[0])) {
            Some(k) => Some(k + 1),
            None => None,
        }
    }
}

/// The text without its leading run of characters other than white space.
pub open spec fn drop_word(s: Seq<char>) -> Seq<char>
    decreases s.len(),
{
    if s.len() > 0 && !is_ws(s[0]) {
        drop_word(s.drop_first())
    } else {
        s
    }
}

/// The text after the first `n` white-space separated words of `s`,
/// whatever white space separates them.
pub open spec fn after_words(s: Seq<char>, n: nat) -> Seq<char>
    decreases n,
{
    if n == 0 {
        s
    } else {
        after_words(drop_word(trim_start(s)), (n - 1) as nat)
    }
}

/// The text of a command after its first `n` words, trimmed; where there is
/// none, the usage text is the error.
pub open spec fn expect_nth_rest(command: Seq<char>, n: nat, usage: Seq<char>) -> Result<Seq<char>, Seq<char>> {
    let r = trim(after_words(command, n));
    if r.len() == 0 {
        Err(usage)
    } else {
        Ok(r)
    }
}

/// Exactly two words, or the usage text as the error.
pub open spec fn two_words(rest: Seq<char>, usage: Seq<char>) -> Result<(Seq<char>, Seq<char>), Seq<char>> {
    let w = words(rest);
    if w.len() == 2 {
        Ok((w[0], w[1]))
    } else {
        Err(usage)
    }
}

/// The two words after the head word of a command.
pub open spec fn parse_two_args(command: Seq<char>, head: Seq<char>, usage: Seq<char>) -> Result<(Seq<char>, Seq<char>), Seq<char>> {
    match expect_rest(command, head, usage) {
        Ok(rest) => two_words(rest, usage),
        Err(e) => Err(e),
    }
}

/// The two words after the first `n` words of a command.
pub open spec fn parse_two_args_after(command: Seq<char>, n: nat, usage: Seq<char>) -> Result<(Seq<char>, Seq<char>), Seq<char>> {
    match expect_nth_rest(command, n, usage) {
        Ok(rest) => two_words(rest, usage),
        Err(e) => Err(e),
    }
}

/// The index of the first white-space character of `s`, or its length.
pub open spec fn first_ws(s: Seq<char>) -> nat
    decreases s.len(),
{
    if s.len() == 0 || is_ws(s[0]) {
        0
    } else {
        1 + first_ws(s.drop_first())
    }
}

/// A path and the prompt after it, following the prefix of a command.
pub open spec fn parse_path_and_rest(command: Seq<char>, prefix: Seq<char>, usage: Seq<char>) -> Result<(Seq<char>, Seq<char>), Seq<char>> {
    if !starts_with(command, prefix) {
        Err(usage)
    } else {
        let rest = rest_after(command, prefix.len() as int);
        if rest.len() == 0 {
            Err(usage)
        } else {
            let i = first_ws(rest) as int;
            let path = trim(rest.take(i));
            let prompt = if i < rest.len() {
                rest_after(rest, i + 1)
            } else {
                Seq::empty()
            };
            if path.len() == 0 || prompt.len() == 0 {
                Err(usage)
            } else {
                Ok((path, prompt))
            }
        }
    }
}

/// The build target a name stands for.
pub open spec fn target_named(raw: Seq<char>) -> Result<Target, Seq<char>> {
    let t = trim(raw);
    if t.len() == 0 || t == "vm"@ {
        Ok(Target::Vm)
    } else if t == "llvm"@ {
        Ok(Target::Llvm)
    } else if t == "wasm"@ {
        Ok(Target::Wasm)
    } else if t == "native-x86_64"@ || t == "x86_64"@ {
        Ok(Target::NativeX86_64)
    } else if t == "native-aarch64"@ || t == "aarch64"@ {
        Ok(Target::NativeAarch64)
    } else {
        Err("unknown build target '"@ + t + "'"@)
    }
}

/// Whether a permission word turns the permission on.
pub open spec fn permission_state(raw: Seq<char>) -> Result<bool, Seq<char>> {
    if raw == "on"@ || raw == "true"@ || raw == "allow"@ || raw == "yes"@ {
        Ok(true)
    } else if raw == "off"@ || raw == "false"@ || raw == "deny"@ || raw == "no"@ {
        Ok(false)
    } else {
        Err("unknown permission state '"@ + raw + "'. Use on/off."@)
    }
}

} // verus!

verus! {

/// The text of `command` after its first `n` characters, trimmed.
fn rest_after_of(command: &[char], n: usize) -> (r: Vec<char>)
    requires
        n <= command@.len(),
    ensures
        r@ == rest_after(command@, n as int),
{
    let (lo, hi) = trim_range(command, n, command.len());
    proof {
        assert(command@.subrange(n as int, command@.len() as int) =~= command@.skip(n as int));
    }
    chars_range(command, lo, hi)
}

/// The text after the head word, if there is any.
fn optional_rest_of(command: &[char], head: &[char]) -> (r: Option<String>)
    requires
        head@.len() <= command@.len(),
    ensures
        opt_text(r) == optional_rest(command@, head@),
{
    let rest = rest_after_of(command, head.len());
    if rest.len() == 0 {
        None
    } else {
        Some(string_of(&rest))
    }
}

/// The text after the head word, or the usage text as the error.
fn expect_rest_of(command: &[char], head: &[char], usage: &str) -> (r: Result<String, ShellError>)
    requires
        head@.len() <= command@.len(),
    ensures
        match r {
            Ok(s) => expect_rest(command@, head@, usage@) == Ok::<Seq<char>, Seq<char>>(s@),
            Err(e) => expect_rest(command@, head@, usage@) == Err::<Seq<char>, Seq<char>>(e@),
        },
{
    match optional_rest_of(command, head) {
        Some(s) => Ok(s),
        None => Err(ShellError::new(usage)),
    }
}

/// The number of bytes of the UTF-8 encoding of the characters.
pub fn utf8_len_of(v: &[char]) -> (n: u128)
    ensures
        n == utf8_len(v@),
        n <= 4 * v@.len(),
        n <= 4 * (usize::MAX as int),
{
    let mut acc: u128 = 0;
    let mut i: usize = 0;
    while i < v.len()
        invariant
            i <= v@.len(),
            acc == utf8_len(v@.take(i as int)),
            acc <= 4 * i,
        decreases v@.len() - i,
    {
        assert(v@.take(i + 1).drop_last() =~= v@.take(i as int));
        acc = acc + char_len_utf8(v[i]) as u128;
        i = i + 1;
    }
    assert(v@.take(v@.len() as int) =~= v@);
    acc
}

/// The number of characters of `v` whose encoding is `b` bytes long.
pub fn char_index_of_byte(v: &[char], b: u128) -> (r: Option<usize>)
    ensures
        r is Some <==> char_index_at_byte(v@, b as int) is Some,
        r is Some ==> r->0 == char_index_at_byte(v@, b as int)->0 && r->0 <= v@.len(),
{
    let mut i: usize = 0;
    let mut acc: u128 = 0;
    assert(v@.skip(0) =~= v@);
    while i < v.len() && acc < b
        invariant
            i <= v@.len(),
            acc <= b,
            char_index_at_byte(v@, b as int) == (match char_index_at_byte(v@.skip(i as int), b - acc) {
                Some(k) => Some(k + i),
                None => None::<int>,
            }),
        decreases v@.len() - i,
    {
        let ghost s = v@.skip(i as int);
        assert(s.drop_first() =~= v@.skip(i + 1));
        let l = char_len_utf8(v[i]);
        if l as u128 > b - acc {
            assert(s[0] == v@[i as int]);
            assert(char_index_at_byte(s.drop_first(), b - acc - l) is None);
            return None;
        }
        acc = acc + l as u128;
        i = i + 1;
    }
    if acc == b {
        Some(i)
    } else {
        assert(v@.skip(i as int).len() == 0);
        None
    }
}

/// The index in `v` at which the text after its first `n` words begins.
fn after_words_index(v: &[char], n: usize) -> (i: usize)
    ensures
        i <= v@.len(),
        v@.skip(i as int) == after_words(v@, n as nat),
{
    let mut i: usize = 0;
    let mut k: usize = 0;
    assert(v@.skip(0) =~= v@);
    while k < n
        invariant
            k <= n,
            i <= v@.len(),
            after_words(v@, n as nat) == after_words(v@.skip(i as int), (n - k) as nat),
        decreases n - k,
    {
        let ghost s = v@.skip(i as int);
        while i < v.len() && is_whitespace(v[i])
            invariant
                i <= v@.len(),
                trim_start(s) == trim_start(v@.skip(i as int)),
            decreases v@.len() - i,
        {
            assert(v@.skip(i as int).drop_first() =~= v@.skip(i + 1));
            i = i + 1;
        }
        let ghost t = v@.skip(i as int);
        assert(trim_start(s) == t);
        while i < v.len() && !is_whitespace(v[i])
            invariant
                i <= v@.len(),
                drop_word(t) == drop_word(v@.skip(i as int)),
            decreases v@.len() - i,
        {
            assert(v@.skip(i as int).drop_first() =~= v@.skip(i + 1));
            i = i + 1;
        }
        assert(drop_word(t) == v@.skip(i as int));
        assert(after_words(s, (n - k) as nat) == after_words(drop_word(trim_start(s)), (n - k - 1) as nat));
        k = k + 1;
    }
    i
}

/// The text of a command after its first `n` words, or the usage text as
/// the error.
fn nth_rest_of(command: &[char], n: usize, usage: &str) -> (r: Result<String, ShellError>)
    ensures
        match r {
            Ok(s) => expect_nth_rest(command@, n as nat, usage@) == Ok::<Seq<char>, Seq<char>>(s@),
            Err(e) => expect_nth_rest(command@, n as nat, usage@) == Err::<Seq<char>, Seq<char>>(e@),
        },
{
    let i = after_words_index(command, n);
    let rest = rest_after_of(command, i);
    if rest.len() == 0 {
        Err(ShellError::new(usage))
    } else {
        Ok(string_of(&rest))
    }
}

/// Exactly two words of a text, or the usage text as the error.
fn two_words_of(rest: &str, usage: &str) -> (r: Result<(String, String), ShellError>)
    ensures
        match r {
            Ok((a, b)) => two_words(rest@, usage@) == Ok::<(Seq<char>, Seq<char>), Seq<char>>((a@, b@)),
            Err(e) => two_words(rest@, usage@) == Err::<(Seq<char>, Seq<char>), Seq<char>>(e@),
        },
{
    let v = chars_of(rest);
    let w = words_of(&v, 0);
    assert(v@.subrange(0, v@.len() as int) =~= rest@);
    if w.len() == 2 {
        Ok((string_of(&w[0]), string_of(&w[1])))
    } else {
        Err(ShellError::new(usage))
    }
}

/// The two words after the head word of a command.
fn parse_two_args_of(command: &[char], head: &[char], usage: &str) -> (r: Result<(String, String), ShellError>)
    requires
        head@.len() <= command@.len(),
    ensures
        match r {
            Ok((a, b)) => parse_two_args(command@, head@, usage@) == Ok::<(Seq<char>, Seq<char>), Seq<char>>((a@, b@)),
            Err(e) => parse_two_args(command@, head@, usage@) == Err::<(Seq<char>, Seq<char>), Seq<char>>(e@),
        },
{
    match expect_rest_of(command, head, usage) {
        Ok(rest) => two_words_of(rest.as_str(), usage),
        Err(e) => Err(e),
    }
}

/// The two words after the first `n` words of a command.
fn parse_two_args_after_of(command: &[char], n: usize, usage: &str) -> (r: Result<(String, String), ShellError>)
    ensures
        match r {
            Ok((a, b)) => parse_two_args_after(command@, n as nat, usage@) == Ok::<(Seq<char>, Seq<char>), Seq<char>>((a@, b@)),
            Err(e) => parse_two_args_after(command@, n as nat, usage@) == Err::<(Seq<char>, Seq<char>), Seq<char>>(e@),
        },
{
    match nth_rest_of(command, n, usage) {
        Ok(rest) => two_words_of(rest.as_str(), usage),
        Err(e) => Err(e),
    }
}

/// Whether `v` begins with `p`.
fn has_prefix(v: &[char], p: &[char]) -> (r: bool)
    ensures
        r == starts_with(v@, p@),
{
    if p.len() > v.len() {
        return false;
    }
    let mut i: usize = 0;
    while i < p.len()
        invariant
            i <= p@.len() <= v@.len(),
            forall|j: int| 0 <= j < i ==> v@[j] == p@[j],
        decreases p@.len() - i,
    {
        if v[i] != p[i] {
            assert(v@.subrange(0, p@.len() as int)[i as int] != p@[i as int]);
            return false;
        }
        i = i + 1;
    }
    assert(v@.subrange(0, p@.len() as int) =~= p@);
    true
}

/// The index of the first white-space character of `v`, or its length.
fn first_ws_of(v: &[char]) -> (r: usize)
    ensures
        r == first_ws(v@),
        r <= v@.len(),
{
    let mut i: usize = 0;
    assert(v@.skip(0) =~= v@);
    while i < v.len() && !is_whitespace(v[i])
        invariant
            i <= v@.len(),
            first_ws(v@) == i + first_ws(v@.skip(i as int)),
        decreases v@.len() - i,
    {
        assert(v@.skip(i as int).drop_first() =~= v@.skip(i + 1));
        i = i + 1;
    }
    i
}

/// A path and the prompt after it, following the prefix of a command.
fn parse_path_and_rest_of(command: &[char], prefix: &[char], usage: &str) -> (r: Result<(String, String), ShellError>)
    ensures
        match r {
            Ok((a, b)) => parse_path_and_rest(command@, prefix@, usage@) == Ok::<(Seq<char>, Seq<char>), Seq<char>>((a@, b@)),
            Err(e) => parse_path_and_rest(command@, prefix@, usage@) == Err::<(Seq<char>, Seq<char>), Seq<char>>(e@),
        },
{
    if !has_prefix(command, prefix) {
        return Err(ShellError::new(usage));
    }
    let rest = rest_after_of(command, prefix.len());
    if rest.len() == 0 {
        return Err(ShellError::new(usage));
    }
    let i = first_ws_of(&rest);
    let (plo, phi) = trim_range(&rest, 0, i);
    assert(rest@.subrange(0, i as int) =~= rest@.take(i as int));
    let path = chars_range(&rest, plo, phi);
    let prompt = if i < rest.len() {
        rest_after_of(&rest, i + 1)
    } else {
        Vec::new()
    };
    if path.len() == 0 || prompt.len() == 0 {
        Err(ShellError::new(usage))
    } else {
        Ok((string_of(&path), string_of(&prompt)))
    }
}

/// The build target a name stands for.
fn target_named_of(raw: &[char]) -> (r: Result<Target, ShellError>)
    ensures
        match r {
            Ok(t) => target_named(raw@) == Ok::<Target, Seq<char>>(t),
            Err(e) => target_named(raw@) == Err::<Target, Seq<char>>(e@),
        },
{
    let (lo, hi) = trim_range(raw, 0, raw.len());
    assert(raw@.subrange(0, raw@.len() as int) =~= raw@);
    let t = chars_range(raw, lo, hi);
    if t.len() == 0 || eq_lit(&t, "vm") {
        Ok(Target::Vm)
    } else if eq_lit(&t, "llvm") {
        Ok(Target::Llvm)
    } else if eq_lit(&t, "wasm") {
        Ok(Target::Wasm)
    } else if eq_lit(&t, "native-x86_64") || eq_lit(&t, "x86_64") {
        Ok(Target::NativeX86_64)
    } else if eq_lit(&t, "native-aarch64") || eq_lit(&t, "aarch64") {
        Ok(Target::NativeAarch64)
    } else {
        Err(ShellError::framed("unknown build target '", &t, "'"))
    }
}

/// Whether a permission word turns the permission on.
fn permission_state_of(raw: &[char]) -> (r: Result<bool, ShellError>)
    ensures
        match r {
            Ok(b) => permission_state(raw@) == Ok::<bool, Seq<char>>(b),
            Err(e) => permission_state(raw@) == Err::<bool, Seq<char>>(e@),
        },
{
    if eq_lit(raw, "on") || eq_lit(raw, "true") || eq_lit(raw, "allow") || eq_lit(raw, "yes") {
        Ok(true)
    } else if eq_lit(raw, "off") || eq_lit(raw, "false") || eq_lit(raw, "deny") || eq_lit(raw, "no") {
        Ok(false)
    } else {
        Err(ShellError::framed("unknown permission state '", raw, "'. Use on/off."))
    }
}

} // verus!

verus! {

/// A text result turned into a command.
pub open spec fn map_ok(r: Result<Seq<char>, Seq<char>>, f: spec_fn(Seq<char>) -> CommandView) -> Result<CommandView, Seq<char>> {
    match r {
        Ok(x) => Ok(f(x)),
        Err(e) => Err(e),
    }
}

/// The commands that are a single word.
pub open spec fn simple_command(head: Seq<char>) -> Option<CommandView> {
    if head == "help"@ || head == "?"@ {
        Some(CommandView::Help)
    } else if head == "tools"@ || head == "toolbox"@ {
        Some(CommandView::Tools)
    } else if head == "docs"@ {
        Some(CommandView::Docs)
    } else if head == "manual"@ {
        Some(CommandView::Manual)
    } else if head == "spec"@ {
        Some(CommandView::Spec)
    } else if head == "techspec"@ || head == "technical-spec"@ {
        Some(CommandView::TechSpec)
    } else if head == "history"@ {
        Some(CommandView::History)
    } else if head == "status"@ || head == "state"@ {
        Some(CommandView::Status)
    } else if head == "permissions"@ || head == "policy"@ {
        Some(CommandView::PermissionsShow)
    } else if head == "deps"@ || head == "dependencies"@ {
        Some(CommandView::DependenciesShow)
    } else if head == "run"@ {
        Some(CommandView::Run)
    } else if head == "audit"@ || head == "security"@ {
        Some(CommandView::Audit)
    } else if head == "doctor"@ {
        Some(CommandView::Doctor)
    } else if head == "clear"@ {
        Some(CommandView::Clear)
    } else if head == "pwd"@ {
        Some(CommandView::Pwd)
    } else if head == "manifest"@ {
        Some(CommandView::ManifestShow)
    } else {
        None
    }
}

/// The commands that take the text after their head word; `None` for
/// another head word.
pub open spec fn rest_command(command: Seq<char>, head: Seq<char>) -> Option<Result<CommandView, Seq<char>>> {
    if head == "open"@ {
        Some(map_ok(expect_rest(command, head, "open <path>"@), |p: Seq<char>| CommandView::Open(p)))
    } else if head == "ls"@ {
        Some(Ok(CommandView::Ls(optional_rest(command, head))))
    } else if head == "tree"@ {
        Some(Ok(CommandView::Tree(optional_rest(command, head))))
    } else if head == "find"@ {
        Some(map_ok(expect_rest(command, head, "find <path-fragment>"@), |p: Seq<char>| CommandView::Find(p)))
    } else if head == "search"@ || head == "grep"@ {
        Some(map_ok(expect_rest(command, head, "search <text>"@), |p: Seq<char>| CommandView::Search(p)))
    } else if head == "outline"@ {
        Some(Ok(CommandView::Outline(optional_rest(command, head))))
    } else if head == "cat"@ {
        Some(map_ok(expect_rest(command, head, "cat <path>"@), |p: Seq<char>| CommandView::Cat(p)))
    } else if head == "touch"@ {
        Some(map_ok(expect_rest(command, head, "touch <path>"@), |p: Seq<char>| CommandView::Touch(p)))
    } else if head == "mkdir"@ {
        Some(map_ok(expect_rest(command, head, "mkdir <path>"@), |p: Seq<char>| CommandView::Mkdir(p)))
    } else if head == "mv"@ || head == "move"@ {
        Some(match parse_two_args(command, head, "mv <from> <to>"@) {
            Ok((a, b)) => Ok(CommandView::Move { from: a, to: b }),
            Err(e) => Err(e),
        })
    } else if head == "cp"@ || head == "copy"@ {
        Some(match parse_two_args(command, head, "cp <from> <to>"@) {
            Ok((a, b)) => Ok(CommandView::Copy { from: a, to: b }),
            Err(e) => Err(e),
        })
    } else if head == "rm"@ || head == "delete"@ {
        Some(map_ok(expect_rest(command, head, "rm <path>"@), |p: Seq<char>| CommandView::Remove(p)))
    } else if head == "entry"@ {
        Some(Ok(match optional_rest(command, head) {
            Some(p) => CommandView::EntrySet(p),
            None => CommandView::EntryShow,
        }))
    } else if head == "perm"@ || head == "permission"@ {
        Some(perm_command(command, head))
    } else {
        None
    }
}

/// `perm show`, `perm grant <name>`, `perm revoke <name>` and
/// `perm <name> <state>`.
pub open spec fn perm_command(command: Seq<char>, head: Seq<char>) -> Result<CommandView, Seq<char>> {
    if optional_rest(command, head) == Some("show"@) {
        Ok(CommandView::PermissionsShow)
    } else {
        match parse_two_args(command, head, "perm <fs|net|ai> <on|off>"@) {
            Ok((first, second)) => if first == "grant"@ {
                Ok(CommandView::PermSet { name: second, enabled: true })
            } else if first == "revoke"@ {
                Ok(CommandView::PermSet { name: second, enabled: false })
            } else {
                match permission_state(second) {
                    Ok(enabled) => Ok(CommandView::PermSet { name: first, enabled }),
                    Err(e) => Err(e),
                }
            },
            Err(e) => Err(e),
        }
    }
}

/// `agent <prompt>` and `agent write <path> <prompt>`.
pub open spec fn agent_command(command: Seq<char>) -> Result<CommandView, Seq<char>> {
    let ws = words(command);
    let head = ws[0];
    if ws.len() > 1 {
        if ws[1] == "write"@ {
            match parse_path_and_rest(command, head + " write"@, "agent write <path> <prompt>"@) {
                Ok((path, prompt)) => Ok(CommandView::AgentWrite { path, prompt }),
                Err(e) => Err(e),
            }
        } else {
            map_ok(expect_rest(command, head, "agent <prompt>"@), |p: Seq<char>| CommandView::Agent(p))
        }
    } else {
        Err("agent expects a prompt or `agent write <path> <prompt>`"@)
    }
}

/// `build [target]`.
pub open spec fn build_command(command: Seq<char>) -> Result<CommandView, Seq<char>> {
    let ws = words(command);
    if ws.len() > 1 {
        match target_named(ws[1]) {
            Ok(t) => Ok(CommandView::Build(t)),
            Err(e) => Err(e),
        }
    } else {
        Ok(CommandView::Build(Target::Vm))
    }
}

/// `install <package>`, `install package <name>`, `install module <name>`.
pub open spec fn install_command(command: Seq<char>) -> Result<CommandView, Seq<char>> {
    let ws = words(command);
    if ws.len() > 1 {
        let w = ws[1];
        if w == "package"@ || w == "pkg"@ {
            map_ok(expect_nth_rest(command, 2, "install package <name>"@), |p: Seq<char>| CommandView::PackageAdd(p))
        } else if w == "module"@ || w == "mod"@ || w == "lib"@ {
            map_ok(expect_nth_rest(command, 2, "install module <name>"@), |p: Seq<char>| CommandView::ModuleInstall(p))
        } else {
            map_ok(expect_rest(command, ws[0], "install <package>"@), |p: Seq<char>| CommandView::PackageAdd(p))
        }
    } else {
        Err("install expects a package or module name"@)
    }
}

/// `remove <name>`, `remove package <name>`, `remove module <name>`.
pub open spec fn remove_command(command: Seq<char>) -> Result<CommandView, Seq<char>> {
    let ws = words(command);
    if ws.len() > 1 {
        let w = ws[1];
        if w == "package"@ || w == "pkg"@ {
            map_ok(expect_nth_rest(command, 2, "remove package <name>"@), |p: Seq<char>| CommandView::PackageRemove(p))
        } else if w == "module"@ || w == "mod"@ || w == "lib"@ {
            map_ok(expect_nth_rest(command, 2, "remove module <name>"@), |p: Seq<char>| CommandView::PackageRemove(p))
        } else {
            map_ok(expect_rest(command, ws[0], "remove <name>"@), |p: Seq<char>| CommandView::PackageRemove(p))
        }
    } else {
        Err("remove expects a package or module name"@)
    }
}

/// `new file <path>` and `new folder <path>`.
pub open spec fn new_command(command: Seq<char>) -> Result<CommandView, Seq<char>> {
    let ws = words(command);
    if ws.len() > 1 {
        let w = ws[1];
        if w == "file"@ {
            map_ok(expect_nth_rest(command, 2, "new file <path>"@), |p: Seq<char>| CommandView::Touch(p))
        } else if w == "folder"@ || w == "dir"@ || w == "directory"@ {
            map_ok(expect_nth_rest(command, 2, "new folder <path>"@), |p: Seq<char>| CommandView::Mkdir(p))
        } else {
            Err("unknown create target '"@ + w + "'. Use `new file <path>` or `new folder <path>`."@)
        }
    } else {
        Err("new expects `file` or `folder`"@)
    }
}

/// `package init`, `package list`, `package add <name>`,
/// `package remove <name>`.
pub open spec fn package_command(command: Seq<char>) -> Result<CommandView, Seq<char>> {
    let ws = words(command);
    if ws.len() > 1 {
        let w = ws[1];
        if w == "init"@ {
            Ok(CommandView::PackageInit)
        } else if w == "list"@ {
            Ok(CommandView::PackageList)
        } else if w == "add"@ {
            map_ok(expect_nth_rest(command, 2, "package add <name>"@), |p: Seq<char>| CommandView::PackageAdd(p))
        } else if w == "remove"@ || w == "rm"@ {
            map_ok(expect_nth_rest(command, 2, "package remove <name>"@), |p: Seq<char>| CommandView::PackageRemove(p))
        } else {
            Err("unknown package action '"@ + w + "'. Use `package init`, `package list`, `package add`, or `package remove`."@)
        }
    } else {
        Err("package expects `init`, `list`, `add`, or `remove`"@)
    }
}

/// `module list`, `module vendor <name>`, `module install <name>`,
/// `module scaffold <name>`. Vendoring a module is installing it: its
/// source is copied into the workspace.
pub open spec fn module_command(command: Seq<char>) -> Result<CommandView, Seq<char>> {
    let ws = words(command);
    if ws.len() > 1 {
        let w = ws[1];
        if w == "list"@ {
            Ok(CommandView::ModuleList)
        } else if w == "vendor"@ {
            map_ok(expect_nth_rest(command, 2, "module vendor <name>"@), |p: Seq<char>| CommandView::ModuleInstall(p))
        } else if w == "install"@ {
            map_ok(expect_nth_rest(command, 2, "module install <name>"@), |p: Seq<char>| CommandView::ModuleInstall(p))
        } else if w == "scaffold"@ {
            map_ok(expect_nth_rest(command, 2, "module scaffold <name>"@), |p: Seq<char>| CommandView::ModuleScaffold(p))
        } else {
            Err("unknown module action '"@ + w + "'. Use `module list`, `module vendor`, `module install`, or `module scaffold`."@)
        }
    } else {
        Err("module expects `list`, `vendor`, `install`, or `scaffold`"@)
    }
}

/// `snippet list` and `snippet create <kind> <path>`.
pub open spec fn snippet_command(command: Seq<char>) -> Result<CommandView, Seq<char>> {
    let ws = words(command);
    if ws.len() > 1 {
        let w = ws[1];
        if w == "list"@ {
            Ok(CommandView::SnippetList)
        } else if w == "create"@ {
            match parse_two_args_after(command, 2, "snippet create <kind> <path>"@) {
                Ok((kind, path)) => Ok(CommandView::SnippetCreate { kind, path }),
                Err(e) => Err(e),
            }
        } else {
            Err("unknown snippet action '"@ + w + "'. Use `snippet list` or `snippet create`."@)
        }
    } else {
        Err("snippet expects `list` or `create`"@)
    }
}

/// A command read by its head word. Outside the workspace commands, a
/// command goes to the host shell, unless it was marked for the studio
/// alone.
pub open spec fn dispatch(command: Seq<char>, internal: bool) -> Result<CommandView, Seq<char>> {
    let head = words(command)[0];
    match simple_command(head) {
        Some(c) => Ok(c),
        None => match rest_command(command, head) {
            Some(r) => r,
            None => {
                if head == "agent"@ || head == "ai"@ {
                    agent_command(command)
                } else if head == "build"@ {
                    build_command(command)
                } else if head == "install"@ {
                    install_command(command)
                } else if head == "uninstall"@ || head == "remove"@ {
                    remove_command(command)
                } else if head == "new"@ || head == "create"@ {
                    new_command(command)
                } else if head == "package"@ || head == "pkg"@ {
                    package_command(command)
                } else if head == "module"@ || head == "mod"@ {
                    module_command(command)
                } else if head == "snippet"@ {
                    snippet_command(command)
                } else if internal {
                    Err("unknown SNSX shell command '"@ + head + "'"@)
                } else {
                    Ok(CommandView::Host(command))
                }
            },
        },
    }
}

/// What a line typed into the shell means: the command, or the error that
/// explains why it is none.
///
/// A line that starts with `:` or `snsx ` is meant for the studio alone; a
/// line that starts with `!` or `shell ` goes to the host shell.
pub open spec fn shell_parse(input: Seq<char>) -> Result<CommandView, Seq<char>> {
    let trimmed = trim(input);
    if trimmed.len() == 0 {
        Err("SNSX shell command cannot be empty"@)
    } else {
        let colon = trimmed[0] == ':';
        let word = starts_with(trimmed, "snsx "@);
        let command = if colon {
            rest_after(trimmed, 1)
        } else if word {
            rest_after(trimmed, "snsx "@.len() as int)
        } else {
            trimmed
        };
        if command.len() > 0 && command[0] == '!' {
            let rest = rest_after(command, 1);
            if rest.len() == 0 {
                Err("host shell escape cannot be empty"@)
            } else {
                Ok(CommandView::Host(rest))
            }
        } else if starts_with(command, "shell "@) {
            let rest = rest_after(command, "shell "@.len() as int);
            if rest.len() == 0 {
                Err("shell expects a command after 'shell'"@)
            } else {
                Ok(CommandView::Host(rest))
            }
        } else if words(command).len() == 0 {
            Err("SNSX shell command cannot be empty"@)
        } else {
            dispatch(command, colon || word)
        }
    }
}

} // verus!

verus! {

/// `ws` holds the words of `command`, the first of which begins it.
spec fn split_as_words(command: Seq<char>, ws: Seq<Vec<char>>) -> bool {
    &&& ws.len() == words(command).len()
    &&& forall|i: int| 0 <= i < ws.len() ==> (#[trigger] ws[i])@ == words(command)[i]
    &&& ws.len() > 0 ==> starts_with(command, ws[0]@)
}

fn simple_command_of(head: &[char]) -> (r: Option<ShellCommand>)
    ensures
        match r {
            Some(c) => simple_command(head@) == Some(c@),
            None => simple_command(head@) is None,
        },
{
    if eq_lit(head, "help") || eq_lit(head, "?") {
        Some(ShellCommand::Help)
    } else if eq_lit(head, "tools") || eq_lit(head, "toolbox") {
        Some(ShellCommand::Tools)
    } else if eq_lit(head, "docs") {
        Some(ShellCommand::Docs)
    } else if eq_lit(head, "manual") {
        Some(ShellCommand::Manual)
    } else if eq_lit(head, "spec") {
        Some(ShellCommand::Spec)
    } else if eq_lit(head, "techspec") || eq_lit(head, "technical-spec") {
        Some(ShellCommand::TechSpec)
    } else if eq_lit(head, "history") {
        Some(ShellCommand::History)
    } else if eq_lit(head, "status") || eq_lit(head, "state") {
        Some(ShellCommand::Status)
    } else if eq_lit(head, "permissions") || eq_lit(head, "policy") {
        Some(ShellCommand::PermissionsShow)
    } else if eq_lit(head, "deps") || eq_lit(head, "dependencies") {
        Some(ShellCommand::DependenciesShow)
    } else if eq_lit(head, "run") {
        Some(ShellCommand::Run)
    } else if eq_lit(head, "audit") || eq_lit(head, "security") {
        Some(ShellCommand::Audit)
    } else if eq_lit(head, "doctor") {
        Some(ShellCommand::Doctor)
    } else if eq_lit(head, "clear") {
        Some(ShellCommand::Clear)
    } else if eq_lit(head, "pwd") {
        Some(ShellCommand::Pwd)
    } else if eq_lit(head, "manifest") {
        Some(ShellCommand::ManifestShow)
    } else {
        None
    }
}

fn rest_command_of(command: &[char], head: &[char]) -> (r: Option<Result<ShellCommand, ShellError>>)
    requires
        head@.len() <= command@.len(),
    ensures
        outcome_view(r) == rest_command(command@, head@),
{
    if eq_lit(head, "open") {
        Some(match expect_rest_of(command, head, "open <path>") {
            Ok(p) => Ok(ShellCommand::Open(p)),
            Err(e) => Err(e),
        })
    } else if eq_lit(head, "ls") {
        Some(Ok(ShellCommand::Ls(optional_rest_of(command, head))))
    } else if eq_lit(head, "tree") {
        Some(Ok(ShellCommand::Tree(optional_rest_of(command, head))))
    } else if eq_lit(head, "find") {
        Some(match expect_rest_of(command, head, "find <path-fragment>") {
            Ok(p) => Ok(ShellCommand::Find(p)),
            Err(e) => Err(e),
        })
    } else if eq_lit(head, "search") || eq_lit(head, "grep") {
        Some(match expect_rest_of(command, head, "search <text>") {
            Ok(p) => Ok(ShellCommand::Search(p)),
            Err(e) => Err(e),
        })
    } else if eq_lit(head, "outline") {
        Some(Ok(ShellCommand::Outline(optional_rest_of(command, head))))
    } else if eq_lit(head, "cat") {
        Some(match expect_rest_of(command, head, "cat <path>") {
            Ok(p) => Ok(ShellCommand::Cat(p)),
            Err(e) => Err(e),
        })
    } else if eq_lit(head, "touch") {
        Some(match expect_rest_of(command, head, "touch <path>") {
            Ok(p) => Ok(ShellCommand::Touch(p)),
            Err(e) => Err(e),
        })
    } else if eq_lit(head, "mkdir") {
        Some(match expect_rest_of(command, head, "mkdir <path>") {
            Ok(p) => Ok(ShellCommand::Mkdir(p)),
            Err(e) => Err(e),
        })
    } else if eq_lit(head, "mv") || eq_lit(head, "move") {
        Some(match parse_two_args_of(command, head, "mv <from> <to>") {
            Ok((from, to)) => Ok(ShellCommand::Move { from, to }),
            Err(e) => Err(e),
        })
    } else if eq_lit(head, "cp") || eq_lit(head, "copy") {
        Some(match parse_two_args_of(command, head, "cp <from> <to>") {
            Ok((from, to)) => Ok(ShellCommand::Copy { from, to }),
            Err(e) => Err(e),
        })
    } else if eq_lit(head, "rm") || eq_lit(head, "delete") {
        Some(match expect_rest_of(command, head, "rm <path>") {
            Ok(p) => Ok(ShellCommand::Remove(p)),
            Err(e) => Err(e),
        })
    } else if eq_lit(head, "entry") {
        Some(Ok(match optional_rest_of(command, head) {
            Some(p) => ShellCommand::EntrySet(p),
            None => ShellCommand::EntryShow,
        }))
    } else if eq_lit(head, "perm") || eq_lit(head, "permission") {
        Some(perm_command_of(command, head))
    } else {
        None
    }
}

fn perm_command_of(command: &[char], head: &[char]) -> (r: Result<ShellCommand, ShellError>)
    requires
        head@.len() <= command@.len(),
    ensures
        result_view(r) == perm_command(command@, head@),
{
    if let Some(rest) = optional_rest_of(command, head) {
        let rv = chars_of(rest.as_str());
        if eq_lit(&rv, "show") {
            return Ok(ShellCommand::PermissionsShow);
        }
    }
    match parse_two_args_of(command, head, "perm <fs|net|ai> <on|off>") {
        Ok((first, second)) => {
            let fv = chars_of(first.as_str());
            if eq_lit(&fv, "grant") {
                Ok(ShellCommand::PermSet { name: second, enabled: true })
            } else if eq_lit(&fv, "revoke") {
                Ok(ShellCommand::PermSet { name: second, enabled: false })
            } else {
                let sv = chars_of(second.as_str());
                match permission_state_of(&sv) {
                    Ok(enabled) => Ok(ShellCommand::PermSet { name: first, enabled }),
                    Err(e) => Err(e),
                }
            }
        },
        Err(e) => Err(e),
    }
}

fn agent_command_of(command: &[char], ws: &Vec<Vec<char>>) -> (r: Result<ShellCommand, ShellError>)
    requires
        split_as_words(command@, ws@),
        ws@.len() > 0,
    ensures
        result_view(r) == agent_command(command@),
{
    let head = &ws[0];
    if ws.len() > 1 {
        if eq_lit(&ws[1], "write") {
            let mut prefix = chars_range(head, 0, head.len());
            let tail = chars_of(" write");
            let mut i: usize = 0;
            assert(head@.subrange(0, head@.len() as int) =~= head@);
            while i < tail.len()
                invariant
                    i <= tail@.len(),
                    tail@ == " write"@,
                    prefix@ == head@ + tail@.take(i as int),
                decreases tail@.len() - i,
            {
                prefix.push(tail[i]);
                i = i + 1;
                assert(prefix@ =~= head@ + tail@.take(i as int));
            }
            assert(tail@.take(tail@.len() as int) =~= tail@);
            match parse_path_and_rest_of(command, &prefix, "agent write <path> <prompt>") {
                Ok((path, prompt)) => Ok(ShellCommand::AgentWrite { path, prompt }),
                Err(e) => Err(e),
            }
        } else {
            match expect_rest_of(command, head, "agent <prompt>") {
                Ok(p) => Ok(ShellCommand::Agent(p)),
                Err(e) => Err(e),
            }
        }
    } else {
        Err(ShellError::new("agent expects a prompt or `agent write <path> <prompt>`"))
    }
}

fn build_command_of(command: &[char], ws: &Vec<Vec<char>>) -> (r: Result<ShellCommand, ShellError>)
    requires
        split_as_words(command@, ws@),
        ws@.len() > 0,
    ensures
        result_view(r) == build_command(command@),
{
    if ws.len() > 1 {
        match target_named_of(&ws[1]) {
            Ok(t) => Ok(ShellCommand::Build(t)),
            Err(e) => Err(e),
        }
    } else {
        Ok(ShellCommand::Build(Target::Vm))
    }
}

/// The command that takes the text after the first two words, built by
/// `make` from it.
fn nth_rest_command(command: &[char], usage: &str, which: RestCommand) -> (r: Result<ShellCommand, ShellError>)
    ensures
        result_view(r) == map_ok(expect_nth_rest(command@, 2, usage@), which.spec_make()),
{
    match nth_rest_of(command, 2, usage) {
        Err(e) => Err(e),
        Ok(p) => Ok(which.make(p)),
    }
}

/// The commands that take one text.
#[derive(Clone, Copy)]
enum RestCommand {
    PackageAdd,
    PackageRemove,
    ModuleInstall,
    ModuleScaffold,
    Touch,
    Mkdir,
}

impl RestCommand {
    spec fn spec_make(self) -> spec_fn(Seq<char>) -> CommandView {
        match self {
            RestCommand::PackageAdd => |p: Seq<char>| CommandView::PackageAdd(p),
            RestCommand::PackageRemove => |p: Seq<char>| CommandView::PackageRemove(p),
            RestCommand::ModuleInstall => |p: Seq<char>| CommandView::ModuleInstall(p),
            RestCommand::ModuleScaffold => |p: Seq<char>| CommandView::ModuleScaffold(p),
            RestCommand::Touch => |p: Seq<char>| CommandView::Touch(p),
            RestCommand::Mkdir => |p: Seq<char>| CommandView::Mkdir(p),
        }
    }

    fn make(self, p: String) -> (c: ShellCommand)
        ensures
            c@ == (self.spec_make())(p@),
    {
        match self {
            RestCommand::PackageAdd => ShellCommand::PackageAdd(p),
            RestCommand::PackageRemove => ShellCommand::PackageRemove(p),
            RestCommand::ModuleInstall => ShellCommand::ModuleInstall(p),
            RestCommand::ModuleScaffold => ShellCommand::ModuleScaffold(p),
            RestCommand::Touch => ShellCommand::Touch(p),
            RestCommand::Mkdir => ShellCommand::Mkdir(p),
        }
    }
}

} // verus!

verus! {

fn install_command_of(command: &[char], ws: &Vec<Vec<char>>) -> (r: Result<ShellCommand, ShellError>)
    requires
        split_as_words(command@, ws@),
        ws@.len() > 0,
    ensures
        result_view(r) == install_command(command@),
{
    if ws.len() > 1 {
        let w = &ws[1];
        if eq_lit(w, "package") || eq_lit(w, "pkg") {
            nth_rest_command(command, "install package <name>", RestCommand::PackageAdd)
        } else if eq_lit(w, "module") || eq_lit(w, "mod") || eq_lit(w, "lib") {
            nth_rest_command(command, "install module <name>", RestCommand::ModuleInstall)
        } else {
            match expect_rest_of(command, &ws[0], "install <package>") {
                Ok(p) => Ok(ShellCommand::PackageAdd(p)),
                Err(e) => Err(e),
            }
        }
    } else {
        Err(ShellError::new("install expects a package or module name"))
    }
}

fn remove_command_of(command: &[char], ws: &Vec<Vec<char>>) -> (r: Result<ShellCommand, ShellError>)
    requires
        split_as_words(command@, ws@),
        ws@.len() > 0,
    ensures
        result_view(r) == remove_command(command@),
{
    if ws.len() > 1 {
        let w = &ws[1];
        if eq_lit(w, "package") || eq_lit(w, "pkg") {
            nth_rest_command(command, "remove package <name>", RestCommand::PackageRemove)
        } else if eq_lit(w, "module") || eq_lit(w, "mod") || eq_lit(w, "lib") {
            nth_rest_command(command, "remove module <name>", RestCommand::PackageRemove)
        } else {
            match expect_rest_of(command, &ws[0], "remove <name>") {
                Ok(p) => Ok(ShellCommand::PackageRemove(p)),
                Err(e) => Err(e),
            }
        }
    } else {
        Err(ShellError::new("remove expects a package or module name"))
    }
}

fn new_command_of(command: &[char], ws: &Vec<Vec<char>>) -> (r: Result<ShellCommand, ShellError>)
    requires
        split_as_words(command@, ws@),
        ws@.len() > 0,
    ensures
        result_view(r) == new_command(command@),
{
    if ws.len() > 1 {
        let w = &ws[1];
        if eq_lit(w, "file") {
            nth_rest_command(command, "new file <path>", RestCommand::Touch)
        } else if eq_lit(w, "folder") || eq_lit(w, "dir") || eq_lit(w, "directory") {
            nth_rest_command(command, "new folder <path>", RestCommand::Mkdir)
        } else {
            Err(ShellError::framed("unknown create target '", w, "'. Use `new file <path>` or `new folder <path>`."))
        }
    } else {
        Err(ShellError::new("new expects `file` or `folder`"))
    }
}

fn package_command_of(command: &[char], ws: &Vec<Vec<char>>) -> (r: Result<ShellCommand, ShellError>)
    requires
        split_as_words(command@, ws@),
        ws@.len() > 0,
    ensures
        result_view(r) == package_command(command@),
{
    if ws.len() > 1 {
        let w = &ws[1];
        if eq_lit(w, "init") {
            Ok(ShellCommand::PackageInit)
        } else if eq_lit(w, "list") {
            Ok(ShellCommand::PackageList)
        } else if eq_lit(w, "add") {
            nth_rest_command(command, "package add <name>", RestCommand::PackageAdd)
        } else if eq_lit(w, "remove") || eq_lit(w, "rm") {
            nth_rest_command(command, "package remove <name>", RestCommand::PackageRemove)
        } else {
            Err(ShellError::framed("unknown package action '", w, "'. Use `package init`, `package list`, `package add`, or `package remove`."))
        }
    } else {
        Err(ShellError::new("package expects `init`, `list`, `add`, or `remove`"))
    }
}

fn module_command_of(command: &[char], ws: &Vec<Vec<char>>) -> (r: Result<ShellCommand, ShellError>)
    requires
        split_as_words(command@, ws@),
        ws@.len() > 0,
    ensures
        result_view(r) == module_command(command@),
{
    if ws.len() > 1 {
        let w = &ws[1];
        if eq_lit(w, "list") {
            Ok(ShellCommand::ModuleList)
        } else if eq_lit(w, "vendor") {
            nth_rest_command(command, "module vendor <name>", RestCommand::ModuleInstall)
        } else if eq_lit(w, "install") {
            nth_rest_command(command, "module install <name>", RestCommand::ModuleInstall)
        } else if eq_lit(w, "scaffold") {
            nth_rest_command(command, "module scaffold <name>", RestCommand::ModuleScaffold)
        } else {
            Err(ShellError::framed("unknown module action '", w, "'. Use `module list`, `module vendor`, `module install`, or `module scaffold`."))
        }
    } else {
        Err(ShellError::new("module expects `list`, `vendor`, `install`, or `scaffold`"))
    }
}

fn snippet_command_of(command: &[char], ws: &Vec<Vec<char>>) -> (r: Result<ShellCommand, ShellError>)
    requires
        split_as_words(command@, ws@),
        ws@.len() > 0,
    ensures
        result_view(r) == snippet_command(command@),
{
    if ws.len() > 1 {
        let w = &ws[1];
        if eq_lit(w, "list") {
            Ok(ShellCommand::SnippetList)
        } else if eq_lit(w, "create") {
            match parse_two_args_after_of(command, 2, "snippet create <kind> <path>") {
                Ok((kind, path)) => Ok(ShellCommand::SnippetCreate { kind, path }),
                Err(e) => Err(e),
            }
        } else {
            Err(ShellError::framed("unknown snippet action '", w, "'. Use `snippet list` or `snippet create`."))
        }
    } else {
        Err(ShellError::new("snippet expects `list` or `create`"))
    }
}

fn dispatch_of(command: &[char], ws: &Vec<Vec<char>>, internal: bool) -> (r: Result<ShellCommand, ShellError>)
    requires
        split_as_words(command@, ws@),
        ws@.len() > 0,
    ensures
        result_view(r) == dispatch(command@, internal),
{
    let head = &ws[0];
    match simple_command_of(head) {
        Some(c) => Ok(c),
        None => match rest_command_of(command, head) {
            Some(r) => r,
            None => {
                if eq_lit(head, "agent") || eq_lit(head, "ai") {
                    agent_command_of(command, ws)
                } else if eq_lit(head, "build") {
                    build_command_of(command, ws)
                } else if eq_lit(head, "install") {
                    install_command_of(command, ws)
                } else if eq_lit(head, "uninstall") || eq_lit(head, "remove") {
                    remove_command_of(command, ws)
                } else if eq_lit(head, "new") || eq_lit(head, "create") {
                    new_command_of(command, ws)
                } else if eq_lit(head, "package") || eq_lit(head, "pkg") {
                    package_command_of(command, ws)
                } else if eq_lit(head, "module") || eq_lit(head, "mod") {
                    module_command_of(command, ws)
                } else if eq_lit(head, "snippet") {
                    snippet_command_of(command, ws)
                } else if internal {
                    Err(ShellError::framed("unknown SNSX shell command '", head, "'"))
                } else {
                    Ok(ShellCommand::Host(string_of(command)))
                }
            },
        },
    }
}

/// Reads a line typed into the shell: the command it names, or the error
/// that explains why it names none.
pub fn parse_shell_command(input: &str) -> (r: Result<ShellCommand, ShellError>)
    ensures
        result_view(r) == shell_parse(input@),
{
    let v = chars_of(input);
    let (lo, hi) = trim_range(&v, 0, v.len());
    assert(v@.subrange(0, v@.len() as int) =~= input@);
    let trimmed = chars_range(&v, lo, hi);
    if trimmed.len() == 0 {
        return Err(ShellError::new("SNSX shell command cannot be empty"));
    }
    let snsx = chars_of("snsx ");
    let colon = trimmed[0] == ':';
    let word = has_prefix(&trimmed, &snsx);
    let command = if colon {
        rest_after_of(&trimmed, 1)
    } else if word {
        rest_after_of(&trimmed, snsx.len())
    } else {
        trimmed
    };
    proof {
        lemma_trim_bounds(input@);
        if colon {
            lemma_trim_bounds(trimmed@.skip(1));
        } else if word {
            lemma_trim_bounds(trimmed@.skip(snsx@.len() as int));
        }
    }
    if command.len() > 0 && command[0] == '!' {
        let rest = rest_after_of(&command, 1);
        if rest.len() == 0 {
            return Err(ShellError::new("host shell escape cannot be empty"));
        }
        return Ok(ShellCommand::Host(string_of(&rest)));
    }
    let shell = chars_of("shell ");
    if has_prefix(&command, &shell) {
        let rest = rest_after_of(&command, shell.len());
        if rest.len() == 0 {
            return Err(ShellError::new("shell expects a command after 'shell'"));
        }
        return Ok(ShellCommand::Host(string_of(&rest)));
    }
    let ws = words_of(&command, 0);
    assert(command@.subrange(0, command@.len() as int) =~= command@);
    if ws.len() == 0 {
        return Err(ShellError::new("SNSX shell command cannot be empty"));
    }
    proof {
        if command@.len() > 0 {
            lemma_first_word_prefix(command@, Seq::empty());
            assert(Seq::<char>::empty() + command@ =~= command@);
        }
    }
    dispatch_of(&command, &ws, colon || word)
}

} // verus!

verus! {

/// The beginnings of host shell commands that the studio refuses to run.
pub open spec fn blocked_host_prefixes() -> Seq<Seq<char>> {
    seq![
        "rm "@, "rm\t"@, "sudo "@, "sudo\t"@, "dd "@, "mkfs"@, "shutdown"@, "reboot"@, "halt"@,
        "poweroff"@, "kill "@, "kill\t"@, "killall "@, "killall\t"@, "pkill "@, "pkill\t"@,
        "launchctl "@, "diskutil erase"@,
    ]
}

/// Whether a normalized host command is one of the refused ones: it is a
/// refused beginning without its trailing white space, or begins with one.
pub open spec fn host_blocked(normalized: Seq<char>) -> bool {
    exists|i: int|
        0 <= i < blocked_host_prefixes().len() && (normalized == trim_end(#[trigger] blocked_host_prefixes()[i])
            || starts_with(normalized, blocked_host_prefixes()[i]))
}

/// The message of a refused host command.
pub open spec fn host_blocked_message() -> Seq<char> {
    "host shell blocked by SNSX terminal policy: use the SNSX workspace command for this action instead"@
}

/// Whether a normalized (trimmed, lowercase) host command may run.
pub open spec fn host_verdict(normalized: Seq<char>) -> Result<(), Seq<char>> {
    if normalized.len() == 0 {
        Err("host shell command cannot be empty"@)
    } else if host_blocked(normalized) {
        Err(host_blocked_message())
    } else {
        Ok(())
    }
}

/// Decides whether a normalized (trimmed, lowercase) host command may run.
pub fn host_command_verdict(normalized: &str) -> (r: Result<(), ShellError>)
    ensures
        match r {
            Ok(()) => host_verdict(normalized@) is Ok,
            Err(e) => host_verdict(normalized@) == Err::<(), Seq<char>>(e@),
        },
{
    let n = chars_of(normalized);
    if n.len() == 0 {
        return Err(ShellError::new("host shell command cannot be empty"));
    }
    let prefixes: [&str; 18] = [
        "rm ", "rm\t", "sudo ", "sudo\t", "dd ", "mkfs", "shutdown", "reboot", "halt",
        "poweroff", "kill ", "kill\t", "killall ", "killall\t", "pkill ", "pkill\t",
        "launchctl ", "diskutil erase",
    ];
    assert(forall|j: int| 0 <= j < 18 ==> (#[trigger] prefixes@[j])@ == blocked_host_prefixes()[j]);
    let mut i: usize = 0;
    while i < 18
        invariant
            i <= 18,
            n@ == normalized@,
            n@.len() > 0,
            forall|j: int| 0 <= j < 18 ==> (#[trigger] prefixes@[j])@ == blocked_host_prefixes()[j],
            forall|j: int|
                0 <= j < i ==> !(n@ == trim_end(#[trigger] blocked_host_prefixes()[j])
                    || starts_with(n@, blocked_host_prefixes()[j])),
        decreases 18 - i,
    {
        let p = chars_of(prefixes[i]);
        let k = trim_end_len(&p);
        let t = chars_range(&p, 0, k);
        assert(p@.subrange(0, k as int) =~= p@.take(k as int));
        if chars_eq(&n, &t) || has_prefix(&n, &p) {
            assert(n@ == trim_end(blocked_host_prefixes()[i as int]) || starts_with(n@, blocked_host_prefixes()[i as int]));
            assert(host_blocked(n@));
            let e = ShellError::new(
                "host shell blocked by SNSX terminal policy: use the SNSX workspace command for this action instead",
            );
            assert(e@ == host_blocked_message());
            return Err(e);
        }
        i = i + 1;
    }
    Ok(())
}

/// Checks a host shell command against the studio's policy: it is trimmed
/// and lowercased, then must be non-empty and begin with no refused
/// command.
pub fn validate_host_shell_command(command: &str) -> (r: Result<(), ShellError>)
    ensures
        match r {
            Ok(()) => host_verdict(lowercase(trim(command@))) is Ok,
            Err(e) => host_verdict(lowercase(trim(command@))) == Err::<(), Seq<char>>(e@),
        },
{
    let v = chars_of(command);
    let (lo, hi) = trim_range(&v, 0, v.len());
    assert(v@.subrange(0, v@.len() as int) =~= command@);
    let t = string_of_range(&v, lo, hi);
    let normalized = to_lowercase(t.as_str());
    host_command_verdict(normalized.as_str())
}

/// The lines of the shell's help.
pub open spec fn help_text() -> Seq<Seq<char>> {
    seq![
        "SNSX shell commands:"@,
        "help | tools | status | permissions | deps | docs | manual | spec | techspec | history"@,
        "agent <prompt> | agent write <path> <prompt>"@,
        "run | build [vm|wasm|llvm|native-x86_64|native-aarch64] | audit | security | doctor"@,
        "open <path> | entry [path] | manifest"@,
        "pwd | ls [path] | tree [path] | cat <path>"@,
        "find <path-fragment> | search <text> | outline [path]"@,
        "touch <path> | mkdir <path> | mv <from> <to> | cp <from> <to> | rm <path>"@,
        "package list | package add <name> | package remove <name> | install <package>"@,
        "module list | module install <name> | module scaffold <name> | install module <name>"@,
        "snippet list | snippet create <starter|mind|service|design|worker|tensor> <path>"@,
        "perm <fs|net|ai> <on|off>"@,
        "shell <cmd> or !<cmd> runs a guarded host shell command inside the workspace."@,
    ]
}

/// The shell's help.
pub fn shell_help_lines() -> (r: Vec<String>)
    ensures
        strings_view(r@) == help_text(),
{
    let mut r: Vec<String> = Vec::new();
    r.push(owned("SNSX shell commands:"));
    r.push(owned("help | tools | status | permissions | deps | docs | manual | spec | techspec | history"));
    r.push(owned("agent <prompt> | agent write <path> <prompt>"));
    r.push(owned("run | build [vm|wasm|llvm|native-x86_64|native-aarch64] | audit | security | doctor"));
    r.push(owned("open <path> | entry [path] | manifest"));
    r.push(owned("pwd | ls [path] | tree [path] | cat <path>"));
    r.push(owned("find <path-fragment> | search <text> | outline [path]"));
    r.push(owned("touch <path> | mkdir <path> | mv <from> <to> | cp <from> <to> | rm <path>"));
    r.push(owned("package list | package add <name> | package remove <name> | install <package>"));
    r.push(owned("module list | module install <name> | module scaffold <name> | install module <name>"));
    r.push(owned("snippet list | snippet create <starter|mind|service|design|worker|tensor> <path>"));
    r.push(owned("perm <fs|net|ai> <on|off>"));
    r.push(owned("shell <cmd> or !<cmd> runs a guarded host shell command inside the workspace."));
    assert(strings_view(r@) =~= help_text());
    r
}

/// The lines of the shell's tool overview.
pub open spec fn tool_text() -> Seq<Seq<char>> {
    seq![
        "SNSX terminal toolset:"@,
        "Workspace tools: ls, tree, find, search, outline, open, cat, touch, mkdir, mv, cp, rm"@,
        "Project tools: run, build, audit, doctor, status, manifest, entry"@,
        "Security tools: permissions, perm <name> <on|off>, audit, doctor"@,
        "Package tools: package list/add/remove, module list/install/scaffold, install module ..."@,
        "Authoring tools: snippet list/create, agent <prompt>, agent write <path> <prompt>"@,
        "Host bridge: shell <cmd> or !<cmd> for guarded host-shell work inside the workspace"@,
    ]
}

/// The shell's tool overview.
pub fn shell_tool_lines() -> (r: Vec<String>)
    ensures
        strings_view(r@) == tool_text(),
{
    let mut r: Vec<String> = Vec::new();
    r.push(owned("SNSX terminal toolset:"));
    r.push(owned("Workspace tools: ls, tree, find, search, outline, open, cat, touch, mkdir, mv, cp, rm"));
    r.push(owned("Project tools: run, build, audit, doctor, status, manifest, entry"));
    r.push(owned("Security tools: permissions, perm <name> <on|off>, audit, doctor"));
    r.push(owned("Package tools: package list/add/remove, module list/install/scaffold, install module ..."));
    r.push(owned("Authoring tools: snippet list/create, agent <prompt>, agent write <path> <prompt>"));
    r.push(owned("Host bridge: shell <cmd> or !<cmd> for guarded host-shell work inside the workspace"));
    assert(strings_view(r@) =~= tool_text());
    r
}

/// A numbered line of the shell's history: the number right-aligned in
/// three columns, two spaces, the command.
pub open spec fn history_line(index: nat, command: Seq<char>) -> Seq<char> {
    pad_left(decimal(index + 1), 3) + "  "@ + command
}

/// The lines that list the shell's history.
pub open spec fn history_text(history: Seq<Seq<char>>) -> Seq<Seq<char>> {
    if history.len() == 0 {
        seq!["SNSX shell history:"@, "(no commands yet)"@]
    } else {
        seq!["SNSX shell history:"@] + Seq::new(history.len(), |i: int| history_line(i as nat, history[i]))
    }
}

/// Lists the shell's history.
pub fn history_lines(history: &Vec<String>) -> (r: Vec<String>)
    requires
        history@.len() < usize::MAX,
    ensures
        strings_view(r@) == history_text(strings_view(history@)),
{
    let mut r: Vec<String> = Vec::new();
    r.push(owned("SNSX shell history:"));
    if history.len() == 0 {
        r.push(owned("(no commands yet)"));
        assert(strings_view(r@) =~= history_text(strings_view(history@)));
        return r;
    }
    let mut i: usize = 0;
    while i < history.len()
        invariant
            i <= history@.len() < usize::MAX,
            history@.len() > 0,
            strings_view(r@) == seq!["SNSX shell history:"@] + Seq::new(i as nat, |k: int| history_line(k as nat, history@[k]@)),
        decreases history@.len() - i,
    {
        let num = decimal_string(i + 1);
        let mut line = pad_left_string(num.as_str(), 3);
        push_str(&mut line, "  ");
        push_str(&mut line, history[i].as_str());
        let ghost before = strings_view(r@);
        r.push(line);
        proof {
            assert(strings_view(r@) =~= before.push(line@));
            assert(seq!["SNSX shell history:"@] + Seq::new((i + 1) as nat, |k: int| history_line(k as nat, history@[k]@))
                =~= (seq!["SNSX shell history:"@] + Seq::new(i as nat, |k: int| history_line(k as nat, history@[k]@))).push(line@));
        }
        i = i + 1;
    }
    assert(Seq::new(history@.len(), |k: int| history_line(k as nat, history@[k]@))
        =~= Seq::new(strings_view(history@).len(), |k: int| history_line(k as nat, strings_view(history@)[k])));
    r
}

} // verus!

verus! {

/// A snippet the shell can scaffold.
#[derive(Debug, Clone, Copy)]
pub struct SnippetInfo {
    pub name: &'static str,
    pub description: &'static str,
}

/// The names of the snippets, in catalog order.
pub open spec fn snippet_names() -> Seq<Seq<char>> {
    seq!["starter"@, "mind"@, "service"@, "design"@, "worker"@, "tensor"@]
}

/// The descriptions of the snippets, in catalog order.
pub open spec fn snippet_descriptions() -> Seq<Seq<char>> {
    seq![
        "Minimal SNSX entry program for a new file."@,
        "AI-native prompt flow plus a starter entry path."@,
        "Typed reusable flows with validation and orchestration."@,
        "Structured board/panel composition using std.design."@,
        "Concurrent task launch and wait template."@,
        "Tensor and matrix workbench template."@,
    ]
}

/// The snippets the shell can scaffold.
pub fn snippet_catalog() -> (r: Vec<SnippetInfo>)
    ensures
        r@.len() == 6,
        forall|i: int| 0 <= i < 6 ==> (#[trigger] r@[i]).name@ == snippet_names()[i] && r@[i].description@ == snippet_descriptions()[i],
{
    let mut r: Vec<SnippetInfo> = Vec::new();
    r.push(SnippetInfo { name: "starter", description: "Minimal SNSX entry program for a new file." });
    r.push(SnippetInfo { name: "mind", description: "AI-native prompt flow plus a starter entry path." });
    r.push(SnippetInfo { name: "service", description: "Typed reusable flows with validation and orchestration." });
    r.push(SnippetInfo { name: "design", description: "Structured board/panel composition using std.design." });
    r.push(SnippetInfo { name: "worker", description: "Concurrent task launch and wait template." });
    r.push(SnippetInfo { name: "tensor", description: "Tensor and matrix workbench template." });
    r
}

/// The lines that list the snippets: a title, then each name left-aligned
/// in eight columns, a space and the description.
pub open spec fn snippet_list_text() -> Seq<Seq<char>> {
    seq!["SNSX snippets:"@] + Seq::new(6, |i: int| pad_right(snippet_names()[i], 8) + " "@ + snippet_descriptions()[i])
}

/// Lists the snippets.
pub fn snippet_list_lines() -> (r: Vec<String>)
    ensures
        strings_view(r@) == snippet_list_text(),
{
    let catalog = snippet_catalog();
    let mut r: Vec<String> = Vec::new();
    r.push(owned("SNSX snippets:"));
    let mut i: usize = 0;
    while i < catalog.len()
        invariant
            i <= 6,
            catalog@.len() == 6,
            forall|j: int| 0 <= j < 6 ==> (#[trigger] catalog@[j]).name@ == snippet_names()[j] && catalog@[j].description@ == snippet_descriptions()[j],
            strings_view(r@) == seq!["SNSX snippets:"@] + Seq::new(i as nat, |k: int| pad_right(snippet_names()[k], 8) + " "@ + snippet_descriptions()[k]),
        decreases 6 - i,
    {
        let info = catalog[i];
        let mut line = pad_right_string(info.name, 8);
        push_str(&mut line, " ");
        push_str(&mut line, info.description);
        let ghost before = strings_view(r@);
        r.push(line);
        proof {
            assert(strings_view(r@) =~= before.push(line@));
            assert(seq!["SNSX snippets:"@] + Seq::new((i + 1) as nat, |k: int| pad_right(snippet_names()[k], 8) + " "@ + snippet_descriptions()[k])
                =~= before.push(line@));
        }
        i = i + 1;
    }
    r
}

} // verus!

verus! {

/// A word with no white space, followed by white space, is the first word.
proof fn lemma_words_from_word(w: Seq<char>, rest: Seq<char>, cur: Seq<char>, done: Seq<Seq<char>>)
    requires
        forall|i: int| 0 <= i < w.len() ==> !is_ws(#[trigger] w[i]),
        rest.len() > 0,
        is_ws(rest[0]),
        cur.len() + w.len() > 0,
    ensures
        words_from(w + rest, cur, done) == words_from(rest.drop_first(), Seq::empty(), done.push(cur + w)),
    decreases w.len(),
{
    if w.len() == 0 {
        assert(w + rest =~= rest);
        assert(cur + w =~= cur);
    } else {
        assert((w + rest)[0] == w[0]);
        assert((w + rest).drop_first() =~= w.drop_first() + rest);
        assert(cur.push(w[0]) + w.drop_first() =~= cur + w);
        assert forall|i: int| 0 <= i < w.drop_first().len() implies !is_ws(#[trigger] w.drop_first()[i]) by {
            assert(w.drop_first()[i] == w[i + 1]);
        }
        lemma_words_from_word(w.drop_first(), rest, cur.push(w[0]), done);
    }
}

/// The line `head p`, for a head word and a trimmed, non-empty `p`: its
/// first word is the head, and the text after the head is `p`.
proof fn lemma_head_line(head: Seq<char>, p: Seq<char>)
    requires
        head.len() > 0,
        forall|i: int| 0 <= i < head.len() ==> !is_ws(#[trigger] head[i]),
        trim(p) == p,
        p.len() > 0,
    ensures
        trim(head + seq![' '] + p) == head + seq![' '] + p,
        words(head + seq![' '] + p).len() > 0,
        words(head + seq![' '] + p)[0] == head,
        expect_rest(head + seq![' '] + p, head, "touch <path>"@) == Ok::<Seq<char>, Seq<char>>(p),
        expect_rest(head + seq![' '] + p, head, "mkdir <path>"@) == Ok::<Seq<char>, Seq<char>>(p),
{
    let line = head + seq![' '] + p;
    lemma_trim_bounds(p);
    assert(line[0] == head[0]);
    assert(line.last() == p.last());
    assert(trim_start(line) == line);
    assert(trim_end(line) == line);
    let rest = seq![' '] + p;
    assert(line =~= head + rest);
    lemma_words_from_word(head, rest, Seq::empty(), Seq::empty());
    assert(Seq::<char>::empty() + head =~= head);
    crate::text::lemma_words_from_keeps(rest.drop_first(), Seq::empty(), seq![head]);
    assert(Seq::<Seq<char>>::empty().push(head) =~= seq![head]);
    assert(line.skip(head.len() as int) =~= rest);
    assert(rest[0] == ' ');
    assert(rest.drop_first() =~= p);
    assert(trim_start(rest) == trim_start(p));
    assert(trim_start(p) == p);
}

/// `touch p` asks for the file `p` to be created, and `mkdir p` for the
/// folder `p`, for every trimmed, non-empty path text `p`: the two commands
/// never stand for one another.
pub proof fn lemma_touch_and_mkdir_parse(p: Seq<char>)
    requires
        trim(p) == p,
        p.len() > 0,
    ensures
        shell_parse("touch "@ + p) == Ok::<CommandView, Seq<char>>(CommandView::Touch(p)),
        shell_parse("mkdir "@ + p) == Ok::<CommandView, Seq<char>>(CommandView::Mkdir(p)),
{
    lemma_touch_parses(p);
    lemma_mkdir_parses(p);
}

proof fn lemma_touch_parses(p: Seq<char>)
    requires
        trim(p) == p,
        p.len() > 0,
    ensures
        shell_parse("touch "@ + p) == Ok::<CommandView, Seq<char>>(CommandView::Touch(p)),
{
    reveal_strlit("?");
    reveal_strlit("audit");
    reveal_strlit("cat");
    reveal_strlit("clear");
    reveal_strlit("dependencies");
    reveal_strlit("deps");
    reveal_strlit("docs");
    reveal_strlit("doctor");
    reveal_strlit("find");
    reveal_strlit("grep");
    reveal_strlit("help");
    reveal_strlit("history");
    reveal_strlit("ls");
    reveal_strlit("manifest");
    reveal_strlit("manual");
    reveal_strlit("open");
    reveal_strlit("outline");
    reveal_strlit("permissions");
    reveal_strlit("policy");
    reveal_strlit("pwd");
    reveal_strlit("run");
    reveal_strlit("search");
    reveal_strlit("security");
    reveal_strlit("spec");
    reveal_strlit("state");
    reveal_strlit("status");
    reveal_strlit("technical-spec");
    reveal_strlit("techspec");
    reveal_strlit("toolbox");
    reveal_strlit("tools");
    reveal_strlit("touch");
    reveal_strlit("tree");
    assert("touch"@.len() != "help"@.len());
    assert("touch"@.len() != "?"@.len());
    assert("touch"@[2] != "tools"@[2]);
    assert("touch"@.len() != "toolbox"@.len());
    assert("touch"@.len() != "docs"@.len());
    assert("touch"@.len() != "manual"@.len());
    assert("touch"@.len() != "spec"@.len());
    assert("touch"@.len() != "techspec"@.len());
    assert("touch"@.len() != "technical-spec"@.len());
    assert("touch"@.len() != "history"@.len());
    assert("touch"@.len() != "status"@.len());
    assert("touch"@[0] != "state"@[0]);
    assert("touch"@.len() != "permissions"@.len());
    assert("touch"@.len() != "policy"@.len());
    assert("touch"@.len() != "deps"@.len());
    assert("touch"@.len() != "dependencies"@.len());
    assert("touch"@.len() != "run"@.len());
    assert("touch"@[0] != "audit"@[0]);
    assert("touch"@.len() != "security"@.len());
    assert("touch"@.len() != "doctor"@.len());
    assert("touch"@[0] != "clear"@[0]);
    assert("touch"@.len() != "pwd"@.len());
    assert("touch"@.len() != "manifest"@.len());
    assert("touch"@.len() != "open"@.len());
    assert("touch"@.len() != "ls"@.len());
    assert("touch"@.len() != "tree"@.len());
    assert("touch"@.len() != "find"@.len());
    assert("touch"@.len() != "search"@.len());
    assert("touch"@.len() != "grep"@.len());
    assert("touch"@.len() != "outline"@.len());
    assert("touch"@.len() != "cat"@.len());
    reveal_strlit("touch ");
    reveal_strlit("snsx ");
    reveal_strlit("shell ");
    let head = "touch"@;
    assert("touch "@ + p =~= head + seq![' '] + p);
    lemma_head_line(head, p);
    let line = head + seq![' '] + p;
    assert(line[0] == 't');
    assert(!starts_with(line, "snsx "@)) by {
        assert(line.subrange(0, 5)[0] != "snsx "@[0]);
    }
    assert(!starts_with(line, "shell "@)) by {
        assert(line.subrange(0, 6)[0] != "shell "@[0]);
    }
}

proof fn lemma_mkdir_parses(p: Seq<char>)
    requires
        trim(p) == p,
        p.len() > 0,
    ensures
        shell_parse("mkdir "@ + p) == Ok::<CommandView, Seq<char>>(CommandView::Mkdir(p)),
{
    reveal_strlit("?");
    reveal_strlit("audit");
    reveal_strlit("cat");
    reveal_strlit("clear");
    reveal_strlit("dependencies");
    reveal_strlit("deps");
    reveal_strlit("docs");
    reveal_strlit("doctor");
    reveal_strlit("find");
    reveal_strlit("grep");
    reveal_strlit("help");
    reveal_strlit("history");
    reveal_strlit("ls");
    reveal_strlit("manifest");
    reveal_strlit("manual");
    reveal_strlit("mkdir");
    reveal_strlit("open");
    reveal_strlit("outline");
    reveal_strlit("permissions");
    reveal_strlit("policy");
    reveal_strlit("pwd");
    reveal_strlit("run");
    reveal_strlit("search");
    reveal_strlit("security");
    reveal_strlit("spec");
    reveal_strlit("state");
    reveal_strlit("status");
    reveal_strlit("technical-spec");
    reveal_strlit("techspec");
    reveal_strlit("toolbox");
    reveal_strlit("tools");
    reveal_strlit("touch");
    reveal_strlit("tree");
    assert("mkdir"@.len() != "help"@.len());
    assert("mkdir"@.len() != "?"@.len());
    assert("mkdir"@[0] != "tools"@[0]);
    assert("mkdir"@.len() != "toolbox"@.len());
    assert("mkdir"@.len() != "docs"@.len());
    assert("mkdir"@.len() != "manual"@.len());
    assert("mkdir"@.len() != "spec"@.len());
    assert("mkdir"@.len() != "techspec"@.len());
    assert("mkdir"@.len() != "technical-spec"@.len());
    assert("mkdir"@.len() != "history"@.len());
    assert("mkdir"@.len() != "status"@.len());
    assert("mkdir"@[0] != "state"@[0]);
    assert("mkdir"@.len() != "permissions"@.len());
    assert("mkdir"@.len() != "policy"@.len());
    assert("mkdir"@.len() != "deps"@.len());
    assert("mkdir"@.len() != "dependencies"@.len());
    assert("mkdir"@.len() != "run"@.len());
    assert("mkdir"@[0] != "audit"@[0]);
    assert("mkdir"@.len() != "security"@.len());
    assert("mkdir"@.len() != "doctor"@.len());
    assert("mkdir"@[0] != "clear"@[0]);
    assert("mkdir"@.len() != "pwd"@.len());
    assert("mkdir"@.len() != "manifest"@.len());
    assert("mkdir"@.len() != "open"@.len());
    assert("mkdir"@.len() != "ls"@.len());
    assert("mkdir"@.len() != "tree"@.len());
    assert("mkdir"@.len() != "find"@.len());
    assert("mkdir"@.len() != "search"@.len());
    assert("mkdir"@.len() != "grep"@.len());
    assert("mkdir"@.len() != "outline"@.len());
    assert("mkdir"@.len() != "cat"@.len());
    assert("mkdir"@[0] != "touch"@[0]);
    reveal_strlit("mkdir ");
    reveal_strlit("snsx ");
    reveal_strlit("shell ");
    let head = "mkdir"@;
    assert("mkdir "@ + p =~= head + seq![' '] + p);
    lemma_head_line(head, p);
    let line = head + seq![' '] + p;
    assert(line[0] == 'm');
    assert(!starts_with(line, "snsx "@)) by {
        assert(line.subrange(0, 5)[0] != "snsx "@[0]);
    }
    assert(!starts_with(line, "shell "@)) by {
        assert(line.subrange(0, 6)[0] != "shell "@[0]);
    }
}

} // verus!
