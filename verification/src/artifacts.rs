//! Where builds write their output, and how a built artifact is previewed.

use vstd::prelude::*;
use crate::paths::{file_name, PathView, WorkspacePath};
use crate::shell::Target;
use crate::text::{chars_of, decimal, decimal_string, owned, push_str, string_of_range, strings_view};

verus! {

/// The position of the last `.` in a text.
pub open spec fn last_dot(s: Seq<char>) -> Option<int>
    decreases s.len(),
{
    if s.len() == 0 {
        None
    } else if s.last() == '.' {
        Some(s.len() - 1)
    } else {
        last_dot(s.drop_last())
    }
}

/// A file name without its extension, as `Path::file_stem` gives it: the
/// part before the last `.`, or the whole name when it has no `.` after its
/// first character.
pub open spec fn stem_of(name: Seq<char>) -> Seq<char> {
    match last_dot(name) {
        Some(i) => if i > 0 { name.take(i) } else { name },
        None => name,
    }
}

/// The extension of a build target's output.
pub open spec fn extension_of(t: Target) -> Seq<char> {
    match t {
        Target::Vm => "snsxbc"@,
        Target::Llvm => "ll"@,
        Target::Wasm => "wat"@,
        Target::NativeX86_64 => "x86_64.s"@,
        Target::NativeAarch64 => "aarch64.s"@,
    }
}

/// Where a build of `entry` for `target` is written: `dist/<stem>.<ext>`
/// beside the entry file (under `fallback` when the entry has no parent),
/// the stem `main` when the entry has no file name.
pub open spec fn output_path_of(entry: PathView, fallback: PathView, t: Target) -> PathView {
    let stem = match file_name(entry) {
        Some(n) => stem_of(n),
        None => "main"@,
    };
    let dir = if entry.parts.len() > 0 {
        PathView { absolute: entry.absolute, parts: entry.parts.drop_last() }
    } else {
        fallback
    };
    PathView { absolute: dir.absolute, parts: dir.parts + seq!["dist"@, stem + seq!['.'] + extension_of(t)] }
}

/// The stem of a file name.
fn file_stem(name: &str) -> (r: String)
    ensures
        r@ == stem_of(name@),
{
    let v = chars_of(name);
    let mut i: usize = v.len();
    assert(v@.take(i as int) =~= v@);
    while i > 0 && v[i - 1] != '.'
        invariant
            i <= v@.len(),
            v@ == name@,
            last_dot(v@) == last_dot(v@.take(i as int)),
        decreases i,
    {
        assert(v@.take(i as int).drop_last() =~= v@.take(i - 1));
        i = i - 1;
    }
    proof {
        assert(v@.take(v@.len() as int) =~= v@);
        if i > 0 {
            assert(v@.take(i as int).last() == '.');
        }
    }
    if i > 1 {
        string_of_range(&v, 0, i - 1)
    } else {
        assert(v@.subrange(0, v@.len() as int) =~= v@);
        string_of_range(&v, 0, v.len())
    }
}

/// Where a build of `entry` for `target` is written.
pub fn default_output_path(entry: &WorkspacePath, fallback: &WorkspacePath, target: Target) -> (r: WorkspacePath)
    ensures
        r@ == output_path_of(entry@, fallback@, target),
{
    let stem = match crate::paths::file_name_of(entry) {
        Some(n) => file_stem(n.as_str()),
        None => owned("main"),
    };
    let mut dir = if entry.parts.len() > 0 {
        let mut parts: Vec<String> = Vec::new();
        let mut k: usize = 0;
        let last = entry.parts.len() - 1;
        while k < last
            invariant
                last == entry.parts@.len() - 1,
                k <= last,
                strings_view(parts@) == strings_view(entry.parts@).take(k as int),
            decreases entry.parts@.len() - k,
        {
            let ghost before = strings_view(parts@);
            let p = entry.parts[k].clone();
            parts.push(p);
            assert(strings_view(parts@) =~= before.push(p@));
            assert(strings_view(entry.parts@).take(k + 1) =~= strings_view(entry.parts@).take(k as int).push(p@));
            k = k + 1;
        }
        assert(strings_view(entry.parts@).take(k as int) =~= strings_view(entry.parts@).drop_last());
        WorkspacePath { absolute: entry.absolute, parts }
    } else {
        crate::paths::clone_path(fallback)
    };
    let ghost base = dir@;
    let mut file = stem;
    push_str(&mut file, ".");
    push_str(&mut file, crate::studio::output_extension(target));
    dir.parts.push(owned("dist"));
    dir.parts.push(file);
    assert(dir@.parts =~= base.parts + seq!["dist"@, file@]);
    proof {
        reveal_strlit(".");
    }
    assert(file@ =~= match file_name(entry@) {
        Some(n) => stem_of(n),
        None => "main"@,
    } + seq!['.'] + extension_of(target));
    dir
}

/// What a build produced, as its preview needs it.
#[derive(Debug, Clone)]
pub enum ArtifactSummary {
    /// A bytecode module: its counts of symbols and functions and its entry
    /// symbol.
    Bytecode { symbols: usize, functions: usize, entry: usize },
    /// Source text for another toolchain.
    Text(String),
    /// A binary of this many bytes.
    Binary(usize),
}

/// The preview of an artifact: a text artifact shows at most `max_lines` of
/// its lines.
pub open spec fn artifact_preview_text(a: ArtifactSummary, max_lines: nat) -> Seq<Seq<char>> {
    match a {
        ArtifactSummary::Bytecode { symbols, functions, entry } => seq![
            "Bytecode preview:"@,
            "Symbols: "@ + decimal(symbols as nat),
            "Functions: "@ + decimal(functions as nat),
            "Entry symbol index: "@ + decimal(entry as nat),
        ],
        ArtifactSummary::Text(t) => seq!["Artifact preview:"@] + crate::listing::first_n(crate::editor::split_lines(t@), max_lines),
        ArtifactSummary::Binary(n) => seq!["Binary artifact preview:"@, "Bytes: "@ + decimal(n as nat)],
    }
}

/// The preview of an artifact.
pub fn artifact_preview(a: &ArtifactSummary, max_lines: usize) -> (r: Vec<String>)
    ensures
        strings_view(r@) == artifact_preview_text(*a, max_lines as nat),
{
    let mut r: Vec<String> = Vec::new();
    match a {
        ArtifactSummary::Bytecode { symbols, functions, entry } => {
            r.push(owned("Bytecode preview:"));
            let mut l = owned("Symbols: ");
            push_str(&mut l, decimal_string(*symbols).as_str());
            r.push(l);
            let mut l = owned("Functions: ");
            push_str(&mut l, decimal_string(*functions).as_str());
            r.push(l);
            let mut l = owned("Entry symbol index: ");
            push_str(&mut l, decimal_string(*entry).as_str());
            r.push(l);
            assert(strings_view(r@) =~= artifact_preview_text(*a, max_lines as nat));
        },
        ArtifactSummary::Text(t) => {
            r.push(owned("Artifact preview:"));
            let lines = crate::editor::text_lines(t.as_str());
            let ghost lv = strings_view(lines@);
            let stop = if lines.len() < max_lines { lines.len() } else { max_lines };
            let mut i: usize = 0;
            while i < stop
                invariant
                    stop <= lines@.len(),
                    i <= stop,
                    lv == strings_view(lines@),
                    strings_view(r@) == seq!["Artifact preview:"@] + lv.take(i as int),
                decreases stop - i,
            {
                let ghost before = strings_view(r@);
                let line = lines[i].clone();
                r.push(line);
                assert(strings_view(r@) =~= before.push(line@));
                assert(lv.take(i + 1) =~= lv.take(i as int).push(lv[i as int]));
                i = i + 1;
            }
            assert(lv.take(stop as int) =~= crate::listing::first_n(lv, max_lines as nat));
        },
        ArtifactSummary::Binary(n) => {
            r.push(owned("Binary artifact preview:"));
            let mut l = owned("Bytes: ");
            push_str(&mut l, decimal_string(*n).as_str());
            r.push(l);
            assert(strings_view(r@) =~= artifact_preview_text(*a, max_lines as nat));
        },
    }
    r
}

} // verus!

verus! {

/// A file name's extension, as `Path::extension` gives it: the part after
/// the last `.`, unless the name has no `.` after its first character.
pub open spec fn extension_of_name(name: Seq<char>) -> Option<Seq<char>> {
    match last_dot(name) {
        Some(i) => if i > 0 { Some(name.skip(i + 1)) } else { None },
        None => None,
    }
}

/// The file a run or build acts on: the open file when it is an `.snsx`
/// source other than the manifest, else the entry file.
pub open spec fn execution_target_of(open: PathView, entry: PathView, root: PathView) -> PathView {
    let ext = match file_name(open) {
        Some(n) => extension_of_name(n),
        None => None,
    };
    if ext == Some("snsx"@) && open != crate::paths::manifest_of(root) {
        open
    } else {
        entry
    }
}

/// Whether a file name's extension is `snsx`.
fn has_snsx_extension(name: &str) -> (r: bool)
    ensures
        r == (extension_of_name(name@) == Some("snsx"@)),
{
    proof {
        reveal_strlit("snsx");
    }
    let v = chars_of(name);
    let mut i: usize = v.len();
    assert(v@.take(i as int) =~= v@);
    while i > 0 && v[i - 1] != '.'
        invariant
            i <= v@.len(),
            v@ == name@,
            last_dot(v@) == last_dot(v@.take(i as int)),
        decreases i,
    {
        assert(v@.take(i as int).drop_last() =~= v@.take(i - 1));
        i = i - 1;
    }
    proof {
        if i > 0 {
            assert(v@.take(i as int).last() == '.');
        }
    }
    if i <= 1 {
        return false;
    }
    let ok = v.len() - i == 4 && v[i] == 's' && v[i + 1] == 'n' && v[i + 2] == 's' && v[i + 3] == 'x';
    proof {
        let e = v@.skip(i as int);
        if ok {
            assert(e =~= "snsx"@);
        }
        if e == "snsx"@ {
            assert(e.len() == 4 && e[0] == 's' && e[1] == 'n' && e[2] == 's' && e[3] == 'x');
        }
    }
    ok
}

/// The file a run or build acts on.
pub fn execution_target(open: &WorkspacePath, entry: &WorkspacePath, root: &WorkspacePath) -> (r: WorkspacePath)
    ensures
        r@ == execution_target_of(open@, entry@, root@),
{
    let is_source = match crate::paths::file_name_of(open) {
        Some(n) => has_snsx_extension(n.as_str()),
        None => false,
    };
    if is_source && !crate::paths::is_manifest_path(root, open) {
        crate::paths::clone_path(open)
    } else {
        crate::paths::clone_path(entry)
    }
}

/// What the run panel shows while a program waits for input: what it
/// printed (or a note when that is blank), which input line it waits for,
/// and its trace when there is one.
pub open spec fn input_request_text(stdout: Seq<char>, consumed_lines: nat, trace: Seq<Seq<char>>) -> Seq<Seq<char>> {
    (if crate::text::all_ws(stdout) {
        seq!["Program is waiting for input"@]
    } else {
        crate::editor::split_lines(stdout)
    }) + seq![Seq::empty(), "Program is waiting for input line "@ + decimal(consumed_lines + 1) + "."@] + if trace.len() == 0 {
        Seq::empty()
    } else {
        seq![Seq::empty(), "Trace:"@] + trace
    }
}

/// The run panel's lines while a program waits for input.
pub fn input_request_lines(request: &crate::vm::InputRequest) -> (r: Vec<String>)
    requires
        request.consumed_lines < usize::MAX,
    ensures
        strings_view(r@) == input_request_text(request.stdout@, request.consumed_lines as nat, strings_view(request.trace@)),
{
    let mut r: Vec<String> = if crate::text::is_blank(request.stdout.as_str()) {
        let mut one: Vec<String> = Vec::new();
        one.push(owned("Program is waiting for input"));
        one
    } else {
        crate::editor::text_lines(request.stdout.as_str())
    };
    let ghost head = strings_view(r@);
    r.push(String::new());
    let mut l = owned("Program is waiting for input line ");
    push_str(&mut l, decimal_string(request.consumed_lines + 1).as_str());
    push_str(&mut l, ".");
    r.push(l);
    let ghost mid = strings_view(r@);
    assert(mid =~= head + seq![Seq::<char>::empty(), "Program is waiting for input line "@ + decimal(request.consumed_lines as nat + 1) + "."@]);
    if request.trace.len() > 0 {
        r.push(String::new());
        r.push(owned("Trace:"));
        let ghost tv = strings_view(request.trace@);
        let mut i: usize = 0;
        while i < request.trace.len()
            invariant
                i <= request.trace@.len(),
                tv == strings_view(request.trace@),
                strings_view(r@) == mid + seq![Seq::<char>::empty(), "Trace:"@] + tv.take(i as int),
            decreases request.trace@.len() - i,
        {
            let ghost before = strings_view(r@);
            let item = request.trace[i].clone();
            r.push(item);
            assert(strings_view(r@) =~= before.push(item@));
            assert(tv.take(i + 1) =~= tv.take(i as int).push(tv[i as int]));
            i = i + 1;
        }
        assert(tv.take(tv.len() as int) =~= tv);
    } else {
        assert(strings_view(r@) =~= mid + Seq::<Seq<char>>::empty());
    }
    r
}

} // verus!
