//! The workspace side of the studio's shell: names, templates, outlines and
//! the reports it prints.

use vstd::prelude::*;
use crate::text::{
    chars_of, chars_range, eq_lit, owned, push_char, push_str, string_of, string_of_range,
    strings_view, trim, trim_range, utf8_len, utf8_len_capped,
};
use crate::shell::ShellError;

verus! {

/// `on` or `off`.
pub fn on_off(enabled: bool) -> (r: &'static str)
    ensures
        r@ == (if enabled { "on"@ } else { "off"@ }),
{
    if enabled {
        "on"
    } else {
        "off"
    }
}

/// Whether a directory entry is left out of the workspace views.
pub fn is_hidden_workspace_entry(name: &str) -> (r: bool)
    ensures
        r == (name@ == ".git"@ || name@ == "target"@ || name@ == "dist"@),
{
    let v = chars_of(name);
    eq_lit(&v, ".git") || eq_lit(&v, "target") || eq_lit(&v, "dist")
}

/// The file extensions whose files the text search reads.
pub open spec fn searchable_extension(ext: Seq<char>) -> bool {
    ||| ext == "snsx"@
    ||| ext == "toml"@
    ||| ext == "md"@
    ||| ext == "txt"@
    ||| ext == "json"@
    ||| ext == "yaml"@
    ||| ext == "yml"@
    ||| ext == "rs"@
}

/// Whether the text search reads a file with this extension.
pub fn is_searchable_text_file(extension: Option<&str>) -> (r: bool)
    ensures
        r == match extension {
            Some(e) => searchable_extension(e@),
            None => false,
        },
{
    match extension {
        None => false,
        Some(e) => {
            let v = chars_of(e);
            eq_lit(&v, "snsx") || eq_lit(&v, "toml") || eq_lit(&v, "md") || eq_lit(&v, "txt")
                || eq_lit(&v, "json") || eq_lit(&v, "yaml") || eq_lit(&v, "yml") || eq_lit(&v, "rs")
        },
    }
}

/// Whether a character is an ASCII letter or digit.
pub open spec fn ascii_alnum(c: char) -> bool {
    ('a' <= c && c <= 'z') || ('A' <= c && c <= 'Z') || ('0' <= c && c <= '9')
}

/// The ASCII lowercase form of a character.
pub open spec fn ascii_lower(c: char) -> char {
    if 'A' <= c && c <= 'Z' {
        ((c as u32) + 32) as char
    } else {
        c
    }
}

/// The character a symbol keeps for `c`.
pub open spec fn symbol_char(c: char) -> char {
    if ascii_alnum(c) || c == '_' {
        ascii_lower(c)
    } else {
        '_'
    }
}

/// A name turned into a symbol: ASCII letters lowercased, digits and
/// underscores kept, anything else an underscore; `module` for an empty
/// name, and `m_` before a leading digit.
pub open spec fn sanitized_symbol(raw: Seq<char>) -> Seq<char> {
    let out = raw.map_values(|c: char| symbol_char(c));
    if out.len() == 0 {
        "module"@
    } else if '0' <= out[0] && out[0] <= '9' {
        "m_"@ + out
    } else {
        out
    }
}

/// Turns a name into a symbol of the language.
pub fn sanitize_symbol_name(raw: &str) -> (r: String)
    ensures
        r@ == sanitized_symbol(raw@),
{
    let v = chars_of(raw);
    let mut out = String::new();
    let mut i: usize = 0;
    while i < v.len()
        invariant
            i <= v@.len(),
            v@ == raw@,
            out@ == raw@.take(i as int).map_values(|c: char| symbol_char(c)),
        decreases v@.len() - i,
    {
        let ch = v[i];
        let kept = if ('a' <= ch && ch <= 'z') || ('0' <= ch && ch <= '9') || ch == '_' {
            ch
        } else if 'A' <= ch && ch <= 'Z' {
            ((ch as u8) + 32) as char
        } else {
            '_'
        };
        assert(kept == symbol_char(ch)) by {
            if 'A' <= ch && ch <= 'Z' {
                assert((ch as u8) as u32 == ch as u32);
            }
        }
        push_char(&mut out, kept);
        i = i + 1;
        assert(out@ =~= raw@.take(i as int).map_values(|c: char| symbol_char(c)));
    }
    assert(raw@.take(raw@.len() as int) =~= raw@);
    let oc = chars_of(out.as_str());
    if oc.len() == 0 {
        owned("module")
    } else if '0' <= oc[0] && oc[0] <= '9' {
        let mut r = owned("m_");
        push_str(&mut r, out.as_str());
        r
    } else {
        out
    }
}

/// At most the first `n` characters of a text.
pub open spec fn take_at_most(s: Seq<char>, n: nat) -> Seq<char> {
    if s.len() <= n {
        s
    } else {
        s.take(n as int)
    }
}

/// A matching line as the search shows it: trimmed; past 140 bytes, its
/// first 140 characters, then `...` unless the needle is blank.
pub open spec fn search_excerpt(line: Seq<char>, needle: Seq<char>) -> Seq<char> {
    let t = trim(line);
    if utf8_len(t) <= 140 {
        t
    } else if trim(needle).len() == 0 {
        take_at_most(t, 140)
    } else {
        take_at_most(t, 140) + "..."@
    }
}

/// Shortens a matching line for the search listing.
pub fn trim_search_line(line: &str, needle: &str) -> (r: String)
    ensures
        r@ == search_excerpt(line@, needle@),
{
    let v = chars_of(line);
    let (lo, hi) = trim_range(&v, 0, v.len());
    assert(v@.subrange(0, v@.len() as int) =~= line@);
    let t = string_of_range(&v, lo, hi);
    if utf8_len_capped(t.as_str(), 141) <= 140 {
        return t;
    }
    let excerpt_hi = if hi - lo <= 140 { hi } else { lo + 140 };
    let mut excerpt = string_of_range(&v, lo, excerpt_hi);
    assert(excerpt@ =~= take_at_most(t@, 140));
    let nv = chars_of(needle);
    let (nlo, nhi) = trim_range(&nv, 0, nv.len());
    assert(nv@.subrange(0, nv@.len() as int) =~= needle@);
    if nlo == nhi {
        return excerpt;
    }
    push_str(&mut excerpt, "...");
    excerpt
}

/// The permission a name stands for in the manifest.
pub open spec fn permission_key(name: Seq<char>) -> Result<Seq<char>, Seq<char>> {
    if name == "fs"@ || name == "filesystem"@ {
        Ok("fs"@)
    } else if name == "net"@ || name == "network"@ {
        Ok("net"@)
    } else if name == "ai"@ {
        Ok("ai"@)
    } else {
        Err("unknown permission '"@ + name + "'. Use fs, net, or ai."@)
    }
}

/// The manifest key of a permission name.
pub fn permission_key_of(name: &str) -> (r: Result<&'static str, ShellError>)
    ensures
        match r {
            Ok(k) => permission_key(name@) == Ok::<Seq<char>, Seq<char>>(k@),
            Err(e) => permission_key(name@) == Err::<Seq<char>, Seq<char>>(e@),
        },
{
    let v = chars_of(name);
    if eq_lit(&v, "fs") || eq_lit(&v, "filesystem") {
        Ok("fs")
    } else if eq_lit(&v, "net") || eq_lit(&v, "network") {
        Ok("net")
    } else if eq_lit(&v, "ai") {
        Ok("ai")
    } else {
        Err(ShellError::framed("unknown permission '", &v, "'. Use fs, net, or ai."))
    }
}

/// The lines that report a permission change.
pub fn permission_lines(key: &str, enabled: bool) -> (r: Vec<String>)
    ensures
        strings_view(r@) == seq![
            "Permission "@ + key@ + " set to "@ + (if enabled { "on"@ } else { "off"@ }),
            "Manifest updated."@,
        ],
{
    let mut line = owned("Permission ");
    push_str(&mut line, key);
    push_str(&mut line, " set to ");
    push_str(&mut line, on_off(enabled));
    let mut r: Vec<String> = Vec::new();
    r.push(line);
    r.push(owned("Manifest updated."));
    assert(strings_view(r@) =~= seq![
        "Permission "@ + key@ + " set to "@ + (if enabled { "on"@ } else { "off"@ }),
        "Manifest updated."@,
    ]);
    r
}

/// The library surface under which a module is imported.
pub open spec fn import_surface_of(module: Seq<char>) -> Seq<char> {
    if module == "std.design"@ || module == "std.sentinel"@ {
        "lib"@
    } else if module == "std.error"@ {
        "package"@
    } else {
        "module"@
    }
}

/// The library surface under which a module is imported.
pub fn import_surface(module: &str) -> (r: &'static str)
    ensures
        r@ == import_surface_of(module@),
{
    let v = chars_of(module);
    if eq_lit(&v, "std.design") || eq_lit(&v, "std.sentinel") {
        "lib"
    } else if eq_lit(&v, "std.error") {
        "package"
    } else {
        "module"
    }
}

} // verus!

verus! {

/// The source a snippet kind starts from, with the symbol and title filled in.
pub open spec fn snippet_source(kind: Seq<char>, symbol: Seq<char>, title: Seq<char>) -> Result<Seq<char>, Seq<char>> {
    if kind == "starter"@ {
        Ok("bring <module/std.io> as io\n\nentry\n    show \""@ + title + "\"\n    0\n"@)
    } else if kind == "mind"@ {
        Ok("bring <module/std.io> as io\nbring <module/std.ai> as ai\n\nmind summarize_"@ + symbol + "\n    takes text: String\n    gives String\n    from \"Summarize this text in one sentence\"\n\nentry\n    hold raw = \""@ + title + " uses an AI-native SNSX snippet.\"\n    hold summary = raw |> summarize_"@ + symbol + "\n    show summary\n    0\n"@)
    } else if kind == "service"@ {
        Ok("bring <module/std.io> as io\n\nflow validate_"@ + symbol + "\n    takes raw: String\n    gives String\n    guard raw != \"\", \"input cannot be blank\"\n    raw\n\nflow render_"@ + symbol + "\n    takes value: String\n    gives String\n    \""@ + title + ": \" + value\n\nentry\n    hold raw = ask()\n    hold safe = validate_"@ + symbol + "(raw)\n    show render_"@ + symbol + "(safe)\n    0\n"@)
    } else if kind == "design"@ {
        Ok("bring <lib/std.design> as design\nbring <lib/std.sentinel> as sentry\n\nentry\n    hold summary = watch(\"summary\", \""@ + title + "\")\n    hold card = panel(\"Summary\", summary)\n    hold meta = stack([field(\"shape\", shape(summary)), field(\"seal\", seal(summary))])\n    hold board = draft(\""@ + title + "\", stack([card, meta]))\n    show board\n    0\n"@)
    } else if kind == "worker"@ {
        Ok("flow work_"@ + symbol + "\n    takes x: Int\n    gives Int\n    x * 10\n\nentry\n    hold task = launch work_"@ + symbol + "(7)\n    hold value = wait task\n    show value\n    0\n"@)
    } else if kind == "tensor"@ {
        Ok("entry\n    hold a = tensor([1, 2, 3, 4], [2, 2])\n    hold b = tensor([1, 0, 0, 1], [2, 2])\n    hold c = matmul(a, b)\n    show c\n    0\n"@)
    } else {
        Err("unknown snippet '"@ + kind + "'. Use starter, mind, service, design, worker, or tensor."@)
    }
}

/// The source of a new snippet of the given kind.
pub fn snippet_template(kind: &str, symbol: &str, title: &str) -> (r: Result<String, ShellError>)
    ensures
        match r {
            Ok(s) => snippet_source(kind@, symbol@, title@) == Ok::<Seq<char>, Seq<char>>(s@),
            Err(e) => snippet_source(kind@, symbol@, title@) == Err::<Seq<char>, Seq<char>>(e@),
        },
{
    let k = chars_of(kind);
    if eq_lit(&k, "starter") {
        let mut s = String::new();
        push_str(&mut s, "bring <module/std.io> as io\n\nentry\n    show \"");
        push_str(&mut s, title);
        push_str(&mut s, "\"\n    0\n");
        Ok(s)
    } else if eq_lit(&k, "mind") {
        let mut s = String::new();
        push_str(&mut s, "bring <module/std.io> as io\nbring <module/std.ai> as ai\n\nmind summarize_");
        push_str(&mut s, symbol);
        push_str(&mut s, "\n    takes text: String\n    gives String\n    from \"Summarize this text in one sentence\"\n\nentry\n    hold raw = \"");
        push_str(&mut s, title);
        push_str(&mut s, " uses an AI-native SNSX snippet.\"\n    hold summary = raw |> summarize_");
        push_str(&mut s, symbol);
        push_str(&mut s, "\n    show summary\n    0\n");
        Ok(s)
    } else if eq_lit(&k, "service") {
        let mut s = String::new();
        push_str(&mut s, "bring <module/std.io> as io\n\nflow validate_");
        push_str(&mut s, symbol);
        push_str(&mut s, "\n    takes raw: String\n    gives String\n    guard raw != \"\", \"input cannot be blank\"\n    raw\n\nflow render_");
        push_str(&mut s, symbol);
        push_str(&mut s, "\n    takes value: String\n    gives String\n    \"");
        push_str(&mut s, title);
        push_str(&mut s, ": \" + value\n\nentry\n    hold raw = ask()\n    hold safe = validate_");
        push_str(&mut s, symbol);
        push_str(&mut s, "(raw)\n    show render_");
        push_str(&mut s, symbol);
        push_str(&mut s, "(safe)\n    0\n");
        Ok(s)
    } else if eq_lit(&k, "design") {
        let mut s = String::new();
        push_str(&mut s, "bring <lib/std.design> as design\nbring <lib/std.sentinel> as sentry\n\nentry\n    hold summary = watch(\"summary\", \"");
        push_str(&mut s, title);
        push_str(&mut s, "\")\n    hold card = panel(\"Summary\", summary)\n    hold meta = stack([field(\"shape\", shape(summary)), field(\"seal\", seal(summary))])\n    hold board = draft(\"");
        push_str(&mut s, title);
        push_str(&mut s, "\", stack([card, meta]))\n    show board\n    0\n");
        Ok(s)
    } else if eq_lit(&k, "worker") {
        let mut s = String::new();
        push_str(&mut s, "flow work_");
        push_str(&mut s, symbol);
        push_str(&mut s, "\n    takes x: Int\n    gives Int\n    x * 10\n\nentry\n    hold task = launch work_");
        push_str(&mut s, symbol);
        push_str(&mut s, "(7)\n    hold value = wait task\n    show value\n    0\n");
        Ok(s)
    } else if eq_lit(&k, "tensor") {
        let mut s = String::new();
        push_str(&mut s, "entry\n    hold a = tensor([1, 2, 3, 4], [2, 2])\n    hold b = tensor([1, 0, 0, 1], [2, 2])\n    hold c = matmul(a, b)\n    show c\n    0\n");
        Ok(s)
    } else {
        Err(ShellError::framed("unknown snippet '", &k, "'. Use starter, mind, service, design, worker, or tensor."))
    }
}

/// The source of a new module: a flow named by the symbol that shows the
/// title.
pub open spec fn module_source(symbol: Seq<char>, title: Seq<char>) -> Seq<char> {
    "bring <module/std.io> as io\n\nflow "@ + symbol + "\n    gives Int\n    show \""@ + title + "\"\n    0\n"@
}

/// The source of a new module.
pub fn module_template(symbol: &str, title: &str) -> (r: String)
    ensures
        r@ == module_source(symbol@, title@),
{
    let mut s = String::new();
    push_str(&mut s, "bring <module/std.io> as io\n\nflow ");
    push_str(&mut s, symbol);
    push_str(&mut s, "\n    gives Int\n    show \"");
    push_str(&mut s, title);
    push_str(&mut s, "\"\n    0\n");
    s
}

/// A text with every `from` character replaced by `to`.
pub open spec fn replace_char(s: Seq<char>, from: char, to: char) -> Seq<char> {
    s.map_values(|c: char| if c == from { to } else { c })
}

/// Replaces every `from` character of a text by `to`.
pub fn replace_char_of(s: &[char], from: char, to: char) -> (r: Vec<char>)
    ensures
        r@ == replace_char(s@, from, to),
{
    let mut r: Vec<char> = Vec::new();
    let mut i: usize = 0;
    while i < s.len()
        invariant
            i <= s@.len(),
            r@ == replace_char(s@.take(i as int), from, to),
        decreases s@.len() - i,
    {
        r.push(if s[i] == from { to } else { s[i] });
        i = i + 1;
        assert(r@ =~= replace_char(s@.take(i as int), from, to));
    }
    assert(s@.take(s@.len() as int) =~= s@);
    r
}

/// Whether `s` ends with `suffix`.
pub open spec fn ends_with(s: Seq<char>, suffix: Seq<char>) -> bool {
    suffix.len() <= s.len() && s.skip(s.len() - suffix.len()) == suffix
}

/// Whether `v` ends with the characters of `suffix`.
pub fn ends_with_str(v: &[char], suffix: &str) -> (r: bool)
    ensures
        r == ends_with(v@, suffix@),
{
    let p = chars_of(suffix);
    if p.len() > v.len() {
        return false;
    }
    let start = v.len() - p.len();
    let tail = chars_range(v, start, v.len());
    assert(tail@ =~= v@.skip(start as int));
    crate::text::chars_eq(&tail, &p)
}

/// A path as typed, with backslashes turned into slashes and `.snsx`
/// appended where it does not end so.
pub open spec fn source_path(path: Seq<char>) -> Seq<char> {
    let p = replace_char(path, '\\', '/');
    if ends_with(p, ".snsx"@) {
        p
    } else {
        p + ".snsx"@
    }
}

/// Turns backslashes into slashes and appends `.snsx` where the path does
/// not end so.
fn source_path_of(path: &[char]) -> (r: String)
    ensures
        r@ == source_path(path@),
{
    let p = replace_char_of(path, '\\', '/');
    let mut s = string_of(&p);
    if !ends_with_str(&p, ".snsx") {
        push_str(&mut s, ".snsx");
    }
    s
}

/// The relative path of a new snippet, or why there is none.
pub open spec fn snippet_relative(path: Seq<char>) -> Result<Seq<char>, Seq<char>> {
    let t = trim(path);
    if t.len() == 0 {
        Err("snippet create expects a target path"@)
    } else {
        Ok(source_path(t))
    }
}

/// The relative path of a new snippet.
pub fn snippet_relative_path(path: &str) -> (r: Result<String, ShellError>)
    ensures
        match r {
            Ok(s) => snippet_relative(path@) == Ok::<Seq<char>, Seq<char>>(s@),
            Err(e) => snippet_relative(path@) == Err::<Seq<char>, Seq<char>>(e@),
        },
{
    let v = chars_of(path);
    let (lo, hi) = trim_range(&v, 0, v.len());
    assert(v@.subrange(0, v@.len() as int) =~= path@);
    if lo == hi {
        return Err(ShellError::new("snippet create expects a target path"));
    }
    let t = chars_range(&v, lo, hi);
    Ok(source_path_of(&t))
}

/// The relative path of a new module, or why there is none: under
/// `modules/` unless it already is.
pub open spec fn module_relative(name: Seq<char>) -> Result<Seq<char>, Seq<char>> {
    let t = trim(name);
    if t.len() == 0 {
        Err("module scaffold expects a module name or path"@)
    } else {
        let p = source_path(t);
        if crate::text::starts_with(p, "modules/"@) {
            Ok(p)
        } else {
            Ok("modules/"@ + p)
        }
    }
}

/// The relative path of a new module.
pub fn module_relative_path(name: &str) -> (r: Result<String, ShellError>)
    ensures
        match r {
            Ok(s) => module_relative(name@) == Ok::<Seq<char>, Seq<char>>(s@),
            Err(e) => module_relative(name@) == Err::<Seq<char>, Seq<char>>(e@),
        },
{
    let v = chars_of(name);
    let (lo, hi) = trim_range(&v, 0, v.len());
    assert(v@.subrange(0, v@.len() as int) =~= name@);
    if lo == hi {
        return Err(ShellError::new("module scaffold expects a module name or path"));
    }
    let t = chars_range(&v, lo, hi);
    let p = source_path_of(&t);
    let pc = chars_of(p.as_str());
    if crate::text::starts_with_at(&pc, 0, "modules/") {
        assert(pc@.subrange(0, pc@.len() as int) =~= pc@);
        Ok(p)
    } else {
        assert(pc@.subrange(0, pc@.len() as int) =~= pc@);
        let mut s = owned("modules/");
        push_str(&mut s, p.as_str());
        Ok(s)
    }
}

/// The relative path the coding agent writes to: the requested path when
/// it is not blank, else the suggested one.
pub open spec fn agent_relative(target: Option<Seq<char>>, suggested: Seq<char>) -> Seq<char> {
    let chosen = match target {
        Some(t) => if trim(t).len() > 0 { trim(t) } else { suggested },
        None => suggested,
    };
    source_path(chosen)
}

/// The relative path the coding agent writes to.
pub fn agent_relative_path(target: Option<&str>, suggested: &str) -> (r: String)
    ensures
        r@ == agent_relative(match target { Some(t) => Some(t@), None => None }, suggested@),
{
    let chosen: Vec<char> = match target {
        Some(t) => {
            let v = chars_of(t);
            let (lo, hi) = trim_range(&v, 0, v.len());
            assert(v@.subrange(0, v@.len() as int) =~= t@);
            if lo < hi {
                chars_range(&v, lo, hi)
            } else {
                chars_of(suggested)
            }
        },
        None => chars_of(suggested),
    };
    source_path_of(&chosen)
}

/// The title of a file stem: underscores read as spaces.
pub fn stem_title(stem: &str) -> (r: String)
    ensures
        r@ == replace_char(stem@, '_', ' '),
{
    let v = chars_of(stem);
    let t = replace_char_of(&v, '_', ' ');
    string_of(&t)
}

} // verus!

verus! {

/// A text without the `c` characters at its end.
pub open spec fn strip_trailing(s: Seq<char>, c: char) -> Seq<char>
    decreases s.len(),
{
    if s.len() > 0 && s.last() == c {
        strip_trailing(s.drop_last(), c)
    } else {
        s
    }
}

/// The number of a source line, right-aligned in four columns.
pub open spec fn line_number(index: nat) -> Seq<char> {
    crate::text::pad_left(crate::text::decimal(index + 1), 4)
}

/// The outline entry of a source line, if it declares something: an
/// import, bundle, flow, mind, later or agent with its name, an entry or a
/// guard.
pub open spec fn outline_label(index: nat, line: Seq<char>) -> Option<Seq<char>> {
    let t = trim(line);
    let n = line_number(index);
    if crate::text::starts_with(t, "need "@) {
        Some(n + " import  "@ + trim(t.skip(5)))
    } else if crate::text::starts_with(t, "bring "@) {
        Some(n + " import  "@ + trim(t.skip(6)))
    } else if crate::text::starts_with(t, "bundle "@) {
        Some(n + " bundle  "@ + trim(t.skip(7)))
    } else if crate::text::starts_with(t, "flow "@) {
        Some(n + " flow    "@ + trim(t.skip(5)))
    } else if crate::text::starts_with(t, "mind "@) {
        Some(n + " mind    "@ + trim(t.skip(5)))
    } else if crate::text::starts_with(t, "later "@) {
        Some(n + " later   "@ + trim(t.skip(6)))
    } else if crate::text::starts_with(t, "agent "@) {
        Some(n + " agent   "@ + trim(strip_trailing(t.skip(6), ':')))
    } else if t == "entry"@ || crate::text::starts_with(t, "entry "@) {
        Some(n + " entry"@)
    } else if crate::text::starts_with(t, "guard "@) {
        Some(n + " guard"@)
    } else {
        None
    }
}

/// The outline entries of the lines, in order.
pub open spec fn outline_entries(lines: Seq<Seq<char>>) -> Seq<Seq<char>>
    decreases lines.len(),
{
    if lines.len() == 0 {
        Seq::empty()
    } else {
        let rest = outline_entries(lines.drop_last());
        match outline_label((lines.len() - 1) as nat, lines.last()) {
            Some(l) => rest.push(l),
            None => rest,
        }
    }
}

/// The outline of a source file shown under its display path.
pub open spec fn outline_text(display: Seq<char>, source: Seq<char>) -> Seq<Seq<char>> {
    let entries = outline_entries(crate::editor::split_lines(source));
    seq!["Outline for "@ + display] + if entries.len() == 0 {
        seq!["No SNSX declarations detected in this file."@]
    } else {
        entries
    }
}

/// The text of `t` after `k` characters, trimmed, as a string.
fn trimmed_after(t: &[char], k: usize) -> (r: String)
    requires
        k <= t@.len(),
    ensures
        r@ == trim(t@.skip(k as int)),
{
    let (lo, hi) = trim_range(t, k, t.len());
    assert(t@.subrange(k as int, t@.len() as int) =~= t@.skip(k as int));
    string_of_range(t, lo, hi)
}

/// The outline entry of a source line.
pub fn outline_label_of(index: usize, line: &str) -> (r: Option<String>)
    requires
        index < usize::MAX,
    ensures
        match r {
            Some(s) => outline_label(index as nat, line@) == Some(s@),
            None => outline_label(index as nat, line@) is None,
        },
{
    let v = chars_of(line);
    let (lo, hi) = trim_range(&v, 0, v.len());
    assert(v@.subrange(0, v@.len() as int) =~= line@);
    let t = chars_range(&v, lo, hi);
    let num = crate::text::decimal_string(index + 1);
    let mut s = crate::text::pad_left_string(num.as_str(), 4);
    if crate::text::starts_with_at(&t, 0, "need ") {
        assert(t@.subrange(0, t@.len() as int) =~= t@);
        proof {
            reveal_strlit("need ");
        }
        push_str(&mut s, " import  ");
        push_str(&mut s, trimmed_after(&t, 5).as_str());
        Some(s)
    } else if crate::text::starts_with_at(&t, 0, "bring ") {
        assert(t@.subrange(0, t@.len() as int) =~= t@);
        proof {
            reveal_strlit("bring ");
        }
        push_str(&mut s, " import  ");
        push_str(&mut s, trimmed_after(&t, 6).as_str());
        Some(s)
    } else if crate::text::starts_with_at(&t, 0, "bundle ") {
        assert(t@.subrange(0, t@.len() as int) =~= t@);
        proof {
            reveal_strlit("bundle ");
        }
        push_str(&mut s, " bundle  ");
        push_str(&mut s, trimmed_after(&t, 7).as_str());
        Some(s)
    } else if crate::text::starts_with_at(&t, 0, "flow ") {
        assert(t@.subrange(0, t@.len() as int) =~= t@);
        proof {
            reveal_strlit("flow ");
        }
        push_str(&mut s, " flow    ");
        push_str(&mut s, trimmed_after(&t, 5).as_str());
        Some(s)
    } else if crate::text::starts_with_at(&t, 0, "mind ") {
        assert(t@.subrange(0, t@.len() as int) =~= t@);
        proof {
            reveal_strlit("mind ");
        }
        push_str(&mut s, " mind    ");
        push_str(&mut s, trimmed_after(&t, 5).as_str());
        Some(s)
    } else if crate::text::starts_with_at(&t, 0, "later ") {
        assert(t@.subrange(0, t@.len() as int) =~= t@);
        proof {
            reveal_strlit("later ");
        }
        push_str(&mut s, " later   ");
        push_str(&mut s, trimmed_after(&t, 6).as_str());
        Some(s)
    } else if crate::text::starts_with_at(&t, 0, "agent ") {
        assert(t@.subrange(0, t@.len() as int) =~= t@);
        proof {
            reveal_strlit("agent ");
        }
        let name = chars_range(&t, 6, t.len());
        let mut end = name.len();
        assert(name@.take(end as int) =~= name@);
        while end > 0 && name[end - 1] == ':'
            invariant
                end <= name@.len(),
                strip_trailing(name@, ':') == strip_trailing(name@.take(end as int), ':'),
            decreases end,
        {
            assert(name@.take(end as int).drop_last() =~= name@.take(end - 1));
            end = end - 1;
        }
        proof {
            let u = name@.take(end as int);
            if end > 0 {
                assert(u.last() == name@[end - 1]);
            }
            assert(name@ =~= t@.skip(6));
        }
        let stripped = chars_range(&name, 0, end);
        assert(stripped@ =~= name@.take(end as int));
        push_str(&mut s, " agent   ");
        push_str(&mut s, trimmed_after(&stripped, 0).as_str());
        assert(stripped@.skip(0) =~= stripped@);
        Some(s)
    } else if eq_lit(&t, "entry") || crate::text::starts_with_at(&t, 0, "entry ") {
        assert(t@.subrange(0, t@.len() as int) =~= t@);
        proof {
            reveal_strlit("entry ");
        }
        push_str(&mut s, " entry");
        Some(s)
    } else if crate::text::starts_with_at(&t, 0, "guard ") {
        assert(t@.subrange(0, t@.len() as int) =~= t@);
        proof {
            reveal_strlit("guard ");
        }
        push_str(&mut s, " guard");
        Some(s)
    } else {
        assert(t@.subrange(0, t@.len() as int) =~= t@);
        None
    }
}

/// The outline of a source file: its declarations, one line each.
pub fn outline_lines(display: &str, source: &str) -> (r: Vec<String>)
    ensures
        strings_view(r@) == outline_text(display@, source@),
{
    let lines = crate::editor::text_lines(source);
    let mut entries: Vec<String> = Vec::new();
    let mut i: usize = 0;
    while i < lines.len()
        invariant
            i <= lines@.len(),
            strings_view(lines@) == crate::editor::split_lines(source@),
            strings_view(entries@) == outline_entries(strings_view(lines@).take(i as int)),
        decreases lines@.len() - i,
    {
        assert(strings_view(lines@).take(i + 1).drop_last() =~= strings_view(lines@).take(i as int));
        let ghost before = strings_view(entries@);
        match outline_label_of(i, lines[i].as_str()) {
            Some(l) => {
                entries.push(l);
                assert(strings_view(entries@) =~= before.push(l@));
            },
            None => {},
        }
        i = i + 1;
    }
    assert(strings_view(lines@).take(lines@.len() as int) =~= strings_view(lines@));
    let mut head = owned("Outline for ");
    push_str(&mut head, display);
    let mut r: Vec<String> = Vec::new();
    r.push(head);
    if entries.len() == 0 {
        r.push(owned("No SNSX declarations detected in this file."));
        assert(strings_view(r@) =~= outline_text(display@, source@));
    } else {
        let ghost e = strings_view(entries@);
        let mut k: usize = 0;
        while k < entries.len()
            invariant
                k <= entries@.len(),
                e == strings_view(entries@),
                strings_view(r@) == seq!["Outline for "@ + display@] + e.take(k as int),
            decreases entries@.len() - k,
        {
            let ghost before = strings_view(r@);
            let item = entries[k].clone();
            assert(item@ == e[k as int]);
            r.push(item);
            assert(strings_view(r@) =~= before.push(item@));
            assert(e.take(k + 1) =~= e.take(k as int).push(e[k as int]));
            assert(strings_view(r@) =~= seq!["Outline for "@ + display@] + e.take(k + 1));
            k = k + 1;
        }
        assert(e.take(e.len() as int) =~= e);
    }
    r
}

} // verus!

verus! {

/// A bundle of standard modules with the permissions it needs.
#[derive(Debug, Clone)]
pub struct PackageRecipe {
    pub name: &'static str,
    pub description: &'static str,
    pub modules: Vec<&'static str>,
    pub allow_fs: bool,
    pub allow_network: bool,
    pub allow_ai: bool,
}

/// The mathematical value of a package recipe.
pub struct RecipeView {
    pub name: Seq<char>,
    pub description: Seq<char>,
    pub modules: Seq<Seq<char>>,
    pub allow_fs: bool,
    pub allow_network: bool,
    pub allow_ai: bool,
}

impl View for PackageRecipe {
    type V = RecipeView;

    open spec fn view(&self) -> RecipeView {
        RecipeView {
            name: self.name@,
            description: self.description@,
            modules: Seq::new(self.modules@.len(), |i: int| self.modules@[i]@),
            allow_fs: self.allow_fs,
            allow_network: self.allow_network,
            allow_ai: self.allow_ai,
        }
    }
}

/// The built-in package recipes, in listing order.
pub open spec fn package_recipes() -> Seq<RecipeView> {
    seq![
        RecipeView {
            name: "foundation"@,
            description: "Base console and math surfaces for most SNSX projects."@,
            modules: seq!["std.io"@, "std.math"@],
            allow_fs: false,
            allow_network: false,
            allow_ai: false,
        },
        RecipeView {
            name: "ai-lab"@,
            description: "AI-native composition with math and design helpers."@,
            modules: seq!["std.ai"@, "std.math"@, "std.design"@],
            allow_fs: false,
            allow_network: false,
            allow_ai: true,
        },
        RecipeView {
            name: "secure-core"@,
            description: "Strict error handling and sentinel guard rails."@,
            modules: seq!["std.error"@, "std.sentinel"@],
            allow_fs: false,
            allow_network: false,
            allow_ai: false,
        },
        RecipeView {
            name: "web-console"@,
            description: "Web and design surfaces for browser-style output."@,
            modules: seq!["std.web"@, "std.design"@],
            allow_fs: false,
            allow_network: false,
            allow_ai: false,
        },
        RecipeView {
            name: "network-grid"@,
            description: "Network, security, and error stack for distributed work."@,
            modules: seq!["std.net"@, "std.error"@, "std.sentinel"@],
            allow_fs: false,
            allow_network: true,
            allow_ai: false,
        },
    ]
}

/// The first recipe of `rs` with the given name.
pub open spec fn find_recipe(rs: Seq<RecipeView>, name: Seq<char>) -> Option<RecipeView>
    decreases rs.len(),
{
    if rs.len() == 0 {
        None
    } else if rs[0].name == name {
        Some(rs[0])
    } else {
        find_recipe(rs.drop_first(), name)
    }
}

/// The recipe at a position of the listing.
fn recipe_at(i: usize) -> (r: PackageRecipe)
    requires
        i < 5,
    ensures
        r@ == package_recipes()[i as int],
{
    let r = if i == 0 {
        PackageRecipe {
            name: "foundation",
            description: "Base console and math surfaces for most SNSX projects.",
            modules: vec!["std.io", "std.math"],
            allow_fs: false,
            allow_network: false,
            allow_ai: false,
        }
    } else if i == 1 {
        PackageRecipe {
            name: "ai-lab",
            description: "AI-native composition with math and design helpers.",
            modules: vec!["std.ai", "std.math", "std.design"],
            allow_fs: false,
            allow_network: false,
            allow_ai: true,
        }
    } else if i == 2 {
        PackageRecipe {
            name: "secure-core",
            description: "Strict error handling and sentinel guard rails.",
            modules: vec!["std.error", "std.sentinel"],
            allow_fs: false,
            allow_network: false,
            allow_ai: false,
        }
    } else if i == 3 {
        PackageRecipe {
            name: "web-console",
            description: "Web and design surfaces for browser-style output.",
            modules: vec!["std.web", "std.design"],
            allow_fs: false,
            allow_network: false,
            allow_ai: false,
        }
    } else {
        PackageRecipe {
            name: "network-grid",
            description: "Network, security, and error stack for distributed work.",
            modules: vec!["std.net", "std.error", "std.sentinel"],
            allow_fs: false,
            allow_network: true,
            allow_ai: false,
        }
    };
    assert(r@.modules =~= package_recipes()[i as int].modules);
    r
}

/// The built-in recipe with the given name.
pub fn package_recipe(name: &str) -> (r: Option<PackageRecipe>)
    ensures
        match r {
            Some(rec) => find_recipe(package_recipes(), name@) == Some(rec@),
            None => find_recipe(package_recipes(), name@) is None,
        },
{
    let mut i: usize = 0;
    assert(package_recipes().skip(0) =~= package_recipes());
    while i < 5
        invariant
            i <= 5,
            find_recipe(package_recipes(), name@) == find_recipe(package_recipes().skip(i as int), name@),
        decreases 5 - i,
    {
        let rec = recipe_at(i);
        let ghost rest = package_recipes().skip(i as int);
        assert(rest[0] == package_recipes()[i as int]);
        assert(rest.drop_first() =~= package_recipes().skip(i + 1));
        if crate::text::str_eq(rec.name, name) {
            return Some(rec);
        }
        i = i + 1;
    }
    assert(package_recipes().skip(5).len() == 0);
    None
}

/// The import lines a recipe recommends.
pub open spec fn recipe_import_text(modules: Seq<Seq<char>>) -> Seq<Seq<char>> {
    seq!["Recommended import:"@] + Seq::new(modules.len(), |i: int| "bring <"@ + import_surface_of(modules[i]) + "/"@ + modules[i] + ">"@)
}

/// The import lines a recipe recommends.
pub fn recipe_import_lines(recipe: &PackageRecipe) -> (r: Vec<String>)
    ensures
        strings_view(r@) == recipe_import_text(recipe@.modules),
{
    let mut r: Vec<String> = Vec::new();
    r.push(owned("Recommended import:"));
    let mut i: usize = 0;
    while i < recipe.modules.len()
        invariant
            i <= recipe.modules@.len(),
            strings_view(r@) == seq!["Recommended import:"@] + Seq::new(i as nat, |k: int| "bring <"@ + import_surface_of(recipe@.modules[k]) + "/"@ + recipe@.modules[k] + ">"@),
        decreases recipe.modules@.len() - i,
    {
        let m = recipe.modules[i];
        let mut line = owned("bring <");
        push_str(&mut line, import_surface(m));
        push_str(&mut line, "/");
        push_str(&mut line, m);
        push_str(&mut line, ">");
        let ghost before = strings_view(r@);
        r.push(line);
        assert(strings_view(r@) =~= before.push(line@));
        assert(seq!["Recommended import:"@] + Seq::new((i + 1) as nat, |k: int| "bring <"@ + import_surface_of(recipe@.modules[k]) + "/"@ + recipe@.modules[k] + ">"@)
            =~= before.push(line@));
        i = i + 1;
    }
    assert(Seq::new(recipe.modules@.len(), |k: int| "bring <"@ + import_surface_of(recipe@.modules[k]) + "/"@ + recipe@.modules[k] + ">"@)
        =~= Seq::new(recipe@.modules.len(), |k: int| "bring <"@ + import_surface_of(recipe@.modules[k]) + "/"@ + recipe@.modules[k] + ">"@));
    r
}

/// Whether a name is among the given strings.
pub fn contains_text(items: &Vec<String>, name: &str) -> (r: bool)
    ensures
        r == strings_view(items@).contains(name@),
{
    let mut i: usize = 0;
    while i < items.len()
        invariant
            i <= items@.len(),
            forall|j: int| 0 <= j < i ==> strings_view(items@)[j] != name@,
        decreases items@.len() - i,
    {
        if crate::text::str_eq(items[i].as_str(), name) {
            assert(strings_view(items@)[i as int] == name@);
            return true;
        }
        i = i + 1;
    }
    false
}

/// The listing of packages and modules, given the dependencies the
/// manifest tracks.
pub open spec fn package_list_text(installed: Seq<Seq<char>>) -> Seq<Seq<char>> {
    seq!["Built-in SNSX packages:"@]
        + Seq::new(5, |i: int| "bundle "@ + crate::text::pad_right(package_recipes()[i].name, 14) + " "@ + package_recipes()[i].description)
        + seq![Seq::empty(), "Installable stdlib modules:"@]
        + Seq::new(10, |i: int| {
            let name = crate::modules::sorted_module_names()[i];
            "module "@ + crate::text::pad_right(name, 16) + " "@ + if installed.contains(name) { "installed"@ } else { "available"@ }
        })
}

/// Lists the packages and modules, given the dependencies the manifest
/// tracks.
pub fn list_packages(installed: &Vec<String>, registry: &crate::modules::ModuleRegistry) -> (r: Vec<String>)
    ensures
        strings_view(r@) == package_list_text(strings_view(installed@)),
{
    let ghost total = package_list_text(strings_view(installed@));
    let mut r: Vec<String> = Vec::new();
    r.push(owned("Built-in SNSX packages:"));
    let mut i: usize = 0;
    while i < 5
        invariant
            i <= 5,
            total == package_list_text(strings_view(installed@)),
            strings_view(r@) == total.take(1 + i),
        decreases 5 - i,
    {
        let rec = recipe_at(i);
        let mut line = owned("bundle ");
        push_str(&mut line, crate::text::pad_right_string(rec.name, 14).as_str());
        push_str(&mut line, " ");
        push_str(&mut line, rec.description);
        let ghost before = strings_view(r@);
        r.push(line);
        assert(strings_view(r@) =~= before.push(line@));
        assert(total.take(2 + i) =~= total.take(1 + i).push(total[1 + i]));
        i = i + 1;
    }
    let ghost b1 = strings_view(r@);
    r.push(String::new());
    r.push(owned("Installable stdlib modules:"));
    assert(strings_view(r@) =~= b1.push(Seq::empty()).push("Installable stdlib modules:"@));
    assert(total.take(8) =~= total.take(6).push(total[6]).push(total[7]));
    let names = registry.names();
    let mut k: usize = 0;
    while k < 10
        invariant
            k <= 10,
            names@.len() == 10,
            forall|j: int| 0 <= j < 10 ==> (#[trigger] names@[j])@ == crate::modules::sorted_module_names()[j],
            total == package_list_text(strings_view(installed@)),
            strings_view(r@) == total.take(8 + k),
        decreases 10 - k,
    {
        let name = names[k];
        let mut line = owned("module ");
        push_str(&mut line, crate::text::pad_right_string(name, 16).as_str());
        push_str(&mut line, " ");
        push_str(&mut line, if contains_text(installed, name) { "installed" } else { "available" });
        let ghost before = strings_view(r@);
        r.push(line);
        assert(strings_view(r@) =~= before.push(line@));
        assert(total.take(9 + k) =~= total.take(8 + k).push(total[8 + k]));
        k = k + 1;
    }
    assert(total.take(18) =~= total);
    r
}

} // verus!
