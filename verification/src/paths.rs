//! Paths of the workspace as lists of components, and how typed paths are
//! resolved inside the workspace.

use vstd::prelude::*;
use crate::text::{chars_of, chars_range, owned, push_str, push_char, string_of, strings_view, trim, trim_range};
use crate::shell::ShellError;

verus! {

/// A path as its components: whether it starts at the file system's root,
/// and the names after it (`.` and `..` stand for the current and the
/// parent directory).
#[derive(Debug, Clone)]
pub struct WorkspacePath {
    pub absolute: bool,
    pub parts: Vec<String>,
}

/// The mathematical value of a path.
pub struct PathView {
    pub absolute: bool,
    pub parts: Seq<Seq<char>>,
}

impl View for WorkspacePath {
    type V = PathView;

    open spec fn view(&self) -> PathView {
        PathView { absolute: self.absolute, parts: strings_view(self.parts@) }
    }
}

/// Whether `base` is a leading part of `p`, component by component.
pub open spec fn path_starts_with(p: PathView, base: PathView) -> bool {
    p.absolute == base.absolute && base.parts.len() <= p.parts.len() && p.parts.take(base.parts.len() as int) == base.parts
}

/// The piece being read ends: an empty piece or `.` adds nothing.
pub open spec fn flush_segment(done: Seq<Seq<char>>, cur: Seq<char>) -> Seq<Seq<char>> {
    if cur.len() == 0 || cur == seq!['.'] {
        done
    } else {
        done.push(cur)
    }
}

/// The names of a relative path split at `/`, continuing the piece `cur`
/// after the names `done`: empty pieces and `.` are left out.
pub open spec fn segments_from(s: Seq<char>, cur: Seq<char>, done: Seq<Seq<char>>) -> Seq<Seq<char>>
    decreases s.len(),
{
    if s.len() == 0 {
        flush_segment(done, cur)
    } else if s[0] == '/' {
        segments_from(s.drop_first(), Seq::empty(), flush_segment(done, cur))
    } else {
        segments_from(s.drop_first(), cur.push(s[0]), done)
    }
}

/// The names of a relative path, as `Path::components` gives them with the
/// current-directory marks left out.
pub open spec fn path_segments(s: Seq<char>) -> Seq<Seq<char>> {
    segments_from(s, Seq::empty(), Seq::empty())
}

/// A typed path resolved against `base` inside the workspace `root`: blank
/// paths, absolute paths, `..` and paths that leave the root are refused;
/// `.` is the root itself. `absolute_message` is the refusal of an
/// absolute path.
pub open spec fn resolve_path(root: PathView, base: PathView, input: Seq<char>, absolute_message: Seq<char>) -> Result<PathView, Seq<char>> {
    let t = trim(input);
    if t.len() == 0 {
        Err("path cannot be empty"@)
    } else if t == seq!['.'] {
        Ok(root)
    } else if t[0] == '/' {
        Err(absolute_message)
    } else if path_segments(t).contains(seq!['.', '.']) {
        Err("parent directory segments are not allowed"@)
    } else {
        let target = PathView { absolute: base.absolute, parts: base.parts + path_segments(t) };
        if path_starts_with(target, root) {
            Ok(target)
        } else {
            Err("path must stay inside the current workspace"@)
        }
    }
}

/// Splits a relative path into its names.
fn segments_of(v: &[char]) -> (r: Vec<String>)
    ensures
        strings_view(r@) == path_segments(v@),
{
    let mut done: Vec<String> = Vec::new();
    let mut cur: Vec<char> = Vec::new();
    let mut i: usize = 0;
    assert(v@.subrange(0, v@.len() as int) =~= v@);
    assert(strings_view(done@) =~= Seq::<Seq<char>>::empty());
    assert(cur@ =~= Seq::<char>::empty());
    while i < v.len()
        invariant
            i <= v@.len(),
            segments_from(v@.subrange(i as int, v@.len() as int), cur@, strings_view(done@)) == path_segments(v@),
        decreases v@.len() - i,
    {
        let ghost rest = v@.subrange(i as int, v@.len() as int);
        assert(rest.drop_first() =~= v@.subrange(i + 1, v@.len() as int));
        if v[i] == '/' {
            let ghost before = strings_view(done@);
            flush_into(&mut done, &cur);
            cur = Vec::new();
            assert(cur@ =~= Seq::<char>::empty());
        } else {
            cur.push(v[i]);
        }
        i = i + 1;
    }
    assert(v@.subrange(v@.len() as int, v@.len() as int) =~= Seq::<char>::empty());
    flush_into(&mut done, &cur);
    done
}

fn flush_into(done: &mut Vec<String>, cur: &Vec<char>)
    ensures
        strings_view(final(done)@) == flush_segment(strings_view(old(done)@), cur@),
{
    let dot = cur.len() == 1 && cur[0] == '.';
    if cur.len() == 0 || dot {
        proof {
            if cur@.len() == 1 && cur@[0] == '.' {
                assert(cur@ =~= seq!['.']);
            }
        }
        return;
    }
    assert(cur@ != seq!['.']) by {
        if cur@ == seq!['.'] {
            assert(cur@.len() == 1 && cur@[0] == '.');
        }
    }
    let ghost before = strings_view(done@);
    done.push(string_of(cur));
    assert(strings_view(done@) =~= before.push(cur@));
}

/// Whether `base` is a leading part of `p`.
pub fn starts_with_path(p: &WorkspacePath, base: &WorkspacePath) -> (r: bool)
    ensures
        r == path_starts_with(p@, base@),
{
    if p.absolute != base.absolute || base.parts.len() > p.parts.len() {
        return false;
    }
    let mut i: usize = 0;
    while i < base.parts.len()
        invariant
            i <= base.parts@.len() <= p.parts@.len(),
            forall|j: int| 0 <= j < i ==> strings_view(p.parts@)[j] == strings_view(base.parts@)[j],
        decreases base.parts@.len() - i,
    {
        if !crate::text::str_eq(p.parts[i].as_str(), base.parts[i].as_str()) {
            assert(strings_view(p.parts@).take(base.parts@.len() as int)[i as int] != strings_view(base.parts@)[i as int]);
            return false;
        }
        i = i + 1;
    }
    assert(strings_view(p.parts@).take(base.parts@.len() as int) =~= strings_view(base.parts@));
    true
}

/// Whether two paths are the same, component by component.
pub fn same_path(a: &WorkspacePath, b: &WorkspacePath) -> (r: bool)
    ensures
        r == (a@ == b@),
{
    let r = a.parts.len() == b.parts.len() && starts_with_path(a, b);
    proof {
        if r {
            assert(a@.parts =~= b@.parts);
        }
        if a@ == b@ {
            assert(a@.parts.take(b@.parts.len() as int) =~= a@.parts);
        }
    }
    r
}

/// A copy of a path.
pub fn clone_path(p: &WorkspacePath) -> (r: WorkspacePath)
    ensures
        r@ == p@,
{
    let mut parts: Vec<String> = Vec::new();
    let mut i: usize = 0;
    while i < p.parts.len()
        invariant
            i <= p.parts@.len(),
            strings_view(parts@) == strings_view(p.parts@).take(i as int),
        decreases p.parts@.len() - i,
    {
        let ghost before = strings_view(parts@);
        let part = p.parts[i].clone();
        assert(part@ == strings_view(p.parts@)[i as int]);
        parts.push(part);
        assert(strings_view(parts@) =~= before.push(part@));
        assert(strings_view(parts@) =~= strings_view(p.parts@).take(i + 1));
        i = i + 1;
    }
    assert(strings_view(p.parts@).take(p.parts@.len() as int) =~= strings_view(p.parts@));
    WorkspacePath { absolute: p.absolute, parts }
}

/// Resolves a typed path against `base` inside the workspace `root`.
pub fn resolve_in_workspace(root: &WorkspacePath, base: &WorkspacePath, input: &str, absolute_message: &str) -> (r: Result<WorkspacePath, ShellError>)
    ensures
        match r {
            Ok(p) => resolve_path(root@, base@, input@, absolute_message@) == Ok::<PathView, Seq<char>>(p@),
            Err(e) => resolve_path(root@, base@, input@, absolute_message@) == Err::<PathView, Seq<char>>(e@),
        },
{
    let v = chars_of(input);
    let (lo, hi) = trim_range(&v, 0, v.len());
    assert(v@.subrange(0, v@.len() as int) =~= input@);
    let t = chars_range(&v, lo, hi);
    if t.len() == 0 {
        return Err(ShellError::new("path cannot be empty"));
    }
    if t.len() == 1 && t[0] == '.' {
        assert(t@ =~= seq!['.']);
        return Ok(clone_path(root));
    }
    assert(t@ != seq!['.']) by {
        if t@ == seq!['.'] {
            assert(t@.len() == 1 && t@[0] == '.');
        }
    }
    if t[0] == '/' {
        return Err(ShellError::new(absolute_message));
    }
    let segs = segments_of(&t);
    let mut i: usize = 0;
    while i < segs.len()
        invariant
            i <= segs@.len(),
            strings_view(segs@) == path_segments(t@),
            t@ == trim(input@),
            t@.len() > 0,
            t@ != seq!['.'],
            t@[0] != '/',
            forall|j: int| 0 <= j < i ==> strings_view(segs@)[j] != seq!['.', '.'],
        decreases segs@.len() - i,
    {
        let sv = chars_of(segs[i].as_str());
        if sv.len() == 2 && sv[0] == '.' && sv[1] == '.' {
            assert(sv@ =~= seq!['.', '.']);
            assert(strings_view(segs@)[i as int] == seq!['.', '.']);
            assert(path_segments(t@).contains(seq!['.', '.']));
            return Err(ShellError::new("parent directory segments are not allowed"));
        }
        assert(sv@ != seq!['.', '.']) by {
            if sv@ == seq!['.', '.'] {
                assert(sv@.len() == 2 && sv@[0] == '.' && sv@[1] == '.');
            }
        }
        i = i + 1;
    }
    let mut target = clone_path(base);
    let mut k: usize = 0;
    let ghost base_parts = strings_view(base.parts@);
    while k < segs.len()
        invariant
            k <= segs@.len(),
            target.absolute == base.absolute,
            base_parts == strings_view(base.parts@),
            strings_view(target.parts@) == base_parts + strings_view(segs@).take(k as int),
        decreases segs@.len() - k,
    {
        let ghost before = strings_view(target.parts@);
        let part = segs[k].clone();
        assert(part@ == strings_view(segs@)[k as int]);
        target.parts.push(part);
        assert(strings_view(target.parts@) =~= before.push(part@));
        assert(strings_view(target.parts@) =~= base_parts + strings_view(segs@).take(k + 1));
        k = k + 1;
    }
    assert(strings_view(segs@).take(segs@.len() as int) =~= strings_view(segs@));
    if starts_with_path(&target, root) {
        Ok(target)
    } else {
        Err(ShellError::new("path must stay inside the current workspace"))
    }
}

/// Resolves a path typed into the shell against `base`, inside the
/// workspace `root`.
pub fn resolve_workspace_input(root: &WorkspacePath, base: &WorkspacePath, input: &str) -> (r: Result<WorkspacePath, ShellError>)
    ensures
        match r {
            Ok(p) => resolve_path(root@, base@, input@, "absolute paths are not allowed inside the SNSX workspace"@) == Ok::<PathView, Seq<char>>(p@),
            Err(e) => resolve_path(root@, base@, input@, "absolute paths are not allowed inside the SNSX workspace"@) == Err::<PathView, Seq<char>>(e@),
        },
{
    resolve_in_workspace(root, base, input, "absolute paths are not allowed inside the SNSX workspace")
}

/// Resolves a path typed into the studio against `base`, inside the
/// workspace `root`.
pub fn resolve_studio_input(root: &WorkspacePath, base: &WorkspacePath, input: &str) -> (r: Result<WorkspacePath, ShellError>)
    ensures
        match r {
            Ok(p) => resolve_path(root@, base@, input@, "absolute paths are not allowed inside the studio"@) == Ok::<PathView, Seq<char>>(p@),
            Err(e) => resolve_path(root@, base@, input@, "absolute paths are not allowed inside the studio"@) == Err::<PathView, Seq<char>>(e@),
        },
{
    resolve_in_workspace(root, base, input, "absolute paths are not allowed inside the studio")
}

/// A path resolved inside the workspace stays inside it: it lies under the
/// root, and the names added to the base are none of them `..`.
pub proof fn lemma_resolved_stays_inside(root: PathView, base: PathView, input: Seq<char>, absolute_message: Seq<char>)
    ensures
        resolve_path(root, base, input, absolute_message) matches Ok(p) ==> {
            &&& path_starts_with(p, root)
            &&& (p == root || forall|i: int| base.parts.len() <= i < p.parts.len() ==> p.parts[i] != seq!['.', '.'])
        },
{
    let t = trim(input);
    if t.len() > 0 && t != seq!['.'] && t[0] != '/' && !path_segments(t).contains(seq!['.', '.']) {
        let target = PathView { absolute: base.absolute, parts: base.parts + path_segments(t) };
        assert forall|i: int| base.parts.len() <= i < target.parts.len() implies target.parts[i] != seq!['.', '.'] by {
            assert(target.parts[i] == path_segments(t)[i - base.parts.len()]);
        }
    }
    if t == seq!['.'] {
        assert(root.parts.take(root.parts.len() as int) =~= root.parts);
    }
}

} // verus!

verus! {

/// Names joined by `/`.
pub open spec fn join_slash(parts: Seq<Seq<char>>) -> Seq<char>
    decreases parts.len(),
{
    if parts.len() == 0 {
        Seq::empty()
    } else if parts.len() == 1 {
        parts[0]
    } else {
        join_slash(parts.drop_last()) + seq!['/'] + parts.last()
    }
}

/// How a path is displayed: `/` first for an absolute path, then the names
/// joined by `/`.
pub open spec fn path_text(p: PathView) -> Seq<char> {
    (if p.absolute { seq!['/'] } else { Seq::empty() }) + join_slash(p.parts)
}

/// Joins names with `/`.
pub fn join_slash_of(parts: &[String]) -> (r: String)
    ensures
        r@ == join_slash(strings_view(parts@)),
{
    let mut s = String::new();
    let mut i: usize = 0;
    while i < parts.len()
        invariant
            i <= parts@.len(),
            s@ == join_slash(strings_view(parts@).take(i as int)),
        decreases parts@.len() - i,
    {
        let ghost pre = strings_view(parts@).take(i as int);
        let ghost pre2 = strings_view(parts@).take(i + 1);
        assert(pre2.drop_last() =~= pre);
        if i > 0 {
            push_char(&mut s, '/');
        }
        push_str(&mut s, parts[i].as_str());
        proof {
            if i == 0 {
                assert(s@ =~= pre2[0]);
            } else {
                assert(s@ =~= join_slash(pre) + seq!['/'] + pre2.last());
            }
        }
        i = i + 1;
    }
    assert(strings_view(parts@).take(parts@.len() as int) =~= strings_view(parts@));
    s
}

/// How a path is displayed.
pub fn display_path(p: &WorkspacePath) -> (r: String)
    ensures
        r@ == path_text(p@),
{
    let mut s = String::new();
    if p.absolute {
        push_char(&mut s, '/');
    }
    let rest = join_slash_of(p.parts.as_slice());
    push_str(&mut s, rest.as_str());
    assert(s@ =~= path_text(p@));
    s
}

/// A path as the workspace shows it: `.` for the root, the names below the
/// root for a path inside it, else the whole path.
pub open spec fn relative_text(root: PathView, p: PathView) -> Seq<char> {
    if p == root {
        seq!['.']
    } else if path_starts_with(p, root) {
        join_slash(p.parts.skip(root.parts.len() as int))
    } else {
        path_text(p)
    }
}

/// A path as the studio shows it.
pub fn display_workspace_path(root: &WorkspacePath, p: &WorkspacePath) -> (r: String)
    ensures
        r@ == relative_text(root@, p@),
{
    if same_path(p, root) {
        let mut s = String::new();
        push_char(&mut s, '.');
        assert(s@ =~= seq!['.']);
        return s;
    }
    if starts_with_path(p, root) {
        let mut rest: Vec<String> = Vec::new();
        let mut i = root.parts.len();
        let ghost tail = strings_view(p.parts@).skip(root.parts@.len() as int);
        while i < p.parts.len()
            invariant
                root.parts@.len() <= i <= p.parts@.len(),
                tail == strings_view(p.parts@).skip(root.parts@.len() as int),
                strings_view(rest@) == tail.take(i - root.parts@.len()),
            decreases p.parts@.len() - i,
        {
            let ghost before = strings_view(rest@);
            let part = p.parts[i].clone();
            assert(part@ == tail[i - root.parts@.len()]);
            rest.push(part);
            assert(strings_view(rest@) =~= before.push(part@));
            assert(strings_view(rest@) =~= tail.take(i + 1 - root.parts@.len()));
            i = i + 1;
        }
        assert(tail.take(tail.len() as int) =~= tail);
        return join_slash_of(rest.as_slice());
    }
    display_path(p)
}

/// A path as the shell shows it: as the studio does, with backslashes
/// turned into slashes.
pub fn workspace_path(root: &WorkspacePath, p: &WorkspacePath) -> (r: String)
    ensures
        r@ == crate::workspace::replace_char(relative_text(root@, p@), '\\', '/'),
{
    let shown = display_workspace_path(root, p);
    let v = chars_of(shown.as_str());
    let replaced = crate::workspace::replace_char_of(&v, '\\', '/');
    string_of(&replaced)
}

/// Where a path lies after `previous` is moved to `next`: `next` itself,
/// the same place under `next` for a path under `previous`, else nowhere.
pub open spec fn remapped(current: PathView, previous: PathView, next: PathView) -> Option<PathView> {
    if current == previous {
        Some(next)
    } else if !path_starts_with(current, previous) {
        None
    } else {
        Some(PathView { absolute: next.absolute, parts: next.parts + current.parts.skip(previous.parts.len() as int) })
    }
}

/// Where a path lies after a move.
pub fn remap_workspace_path(current: &WorkspacePath, previous: &WorkspacePath, next: &WorkspacePath) -> (r: Option<WorkspacePath>)
    ensures
        match r {
            Some(p) => remapped(current@, previous@, next@) == Some(p@),
            None => remapped(current@, previous@, next@) is None,
        },
{
    if same_path(current, previous) {
        return Some(clone_path(next));
    }
    if !starts_with_path(current, previous) {
        return None;
    }
    let mut out = clone_path(next);
    let mut i = previous.parts.len();
    let ghost base = strings_view(next.parts@);
    let ghost tail = strings_view(current.parts@).skip(previous.parts@.len() as int);
    while i < current.parts.len()
        invariant
            previous.parts@.len() <= i <= current.parts@.len(),
            out.absolute == next.absolute,
            base == strings_view(next.parts@),
            tail == strings_view(current.parts@).skip(previous.parts@.len() as int),
            strings_view(out.parts@) == base + tail.take(i - previous.parts@.len()),
        decreases current.parts@.len() - i,
    {
        let ghost before = strings_view(out.parts@);
        let part = current.parts[i].clone();
        assert(part@ == tail[i - previous.parts@.len()]);
        out.parts.push(part);
        assert(strings_view(out.parts@) =~= before.push(part@));
        assert(strings_view(out.parts@) =~= base + tail.take(i + 1 - previous.parts@.len()));
        i = i + 1;
    }
    assert(tail.take(tail.len() as int) =~= tail);
    Some(out)
}

/// The manifest of a workspace.
pub open spec fn manifest_of(root: PathView) -> PathView {
    PathView { absolute: root.absolute, parts: root.parts.push("snsx.toml"@) }
}

/// Whether a path is the workspace's manifest.
pub fn is_manifest_path(root: &WorkspacePath, p: &WorkspacePath) -> (r: bool)
    ensures
        r == (p@ == manifest_of(root@)),
{
    let mut m = clone_path(root);
    let ghost before = strings_view(m.parts@);
    m.parts.push(owned("snsx.toml"));
    assert(strings_view(m.parts@) =~= before.push("snsx.toml"@));
    same_path(p, &m)
}

/// The last name of a path, unless the path ends at a directory mark.
pub open spec fn file_name(p: PathView) -> Option<Seq<char>> {
    if p.parts.len() > 0 && p.parts.last() != seq!['.'] && p.parts.last() != seq!['.', '.'] {
        Some(p.parts.last())
    } else {
        None
    }
}

/// The last name of a path, unless the path ends at a directory mark.
pub fn file_name_of(p: &WorkspacePath) -> (r: Option<&String>)
    ensures
        match r {
            Some(s) => file_name(p@) == Some(s@),
            None => file_name(p@) is None,
        },
{
    if p.parts.len() == 0 {
        return None;
    }
    let last = &p.parts[p.parts.len() - 1];
    let v = chars_of(last.as_str());
    let dot = v.len() == 1 && v[0] == '.';
    let dotdot = v.len() == 2 && v[0] == '.' && v[1] == '.';
    proof {
        assert(strings_view(p.parts@).last() == last@);
        if v@ == seq!['.'] {
            assert(v@.len() == 1 && v@[0] == '.');
        }
        if v@ == seq!['.', '.'] {
            assert(v@.len() == 2 && v@[0] == '.' && v@[1] == '.');
        }
        if dot {
            assert(v@ =~= seq!['.']);
        }
        if dotdot {
            assert(v@ =~= seq!['.', '.']);
        }
    }
    if dot || dotdot {
        None
    } else {
        Some(last)
    }
}

/// Whether two paths name files of the same name, as the live preview
/// compares a changed file with the watched one.
pub fn same_file(left: &WorkspacePath, right: &WorkspacePath) -> (r: bool)
    ensures
        r == (file_name(left@) == file_name(right@)),
{
    match (file_name_of(left), file_name_of(right)) {
        (Some(a), Some(b)) => crate::text::str_eq(a.as_str(), b.as_str()),
        (None, None) => true,
        _ => false,
    }
}

} // verus!

verus! {

/// Why the studio will not go on with an action: a notice on the status
/// line, or an error.
#[derive(Debug, Clone)]
pub enum Refusal {
    Notice(String),
    Failure(ShellError),
}

/// Whether the selected path may be deleted with the typed confirmation:
/// something must be selected, `DELETE` typed, and the path be neither the
/// root, nor the manifest, nor the entry or a folder holding it. The `Err`
/// is the status line that says why not.
pub open spec fn delete_verdict(selected: Option<PathView>, confirmation: Seq<char>, root: PathView, entry: PathView) -> Result<(), Seq<char>> {
    match selected {
        None => Err("Nothing selected to delete"@),
        Some(s) => if trim(confirmation) != "DELETE"@ {
            Err("Delete cancelled. Type DELETE to confirm removal"@)
        } else if s == root {
            Err("Workspace root cannot be deleted"@)
        } else if s == manifest_of(root) {
            Err("snsx.toml is protected from deletion inside the studio"@)
        } else if entry == s || path_starts_with(entry, s) {
            Err("Cannot delete the active entry file or one of its parent folders"@)
        } else {
            Ok(())
        },
    }
}

/// Decides whether the selected path may be deleted.
pub fn delete_check(selected: Option<&WorkspacePath>, confirmation: &str, root: &WorkspacePath, entry: &WorkspacePath) -> (r: Result<(), String>)
    ensures
        match r {
            Ok(()) => delete_verdict(match selected { Some(s) => Some(s@), None => None }, confirmation@, root@, entry@) is Ok,
            Err(m) => delete_verdict(match selected { Some(s) => Some(s@), None => None }, confirmation@, root@, entry@) == Err::<(), Seq<char>>(m@),
        },
{
    let s = match selected {
        None => return Err(owned("Nothing selected to delete")),
        Some(s) => s,
    };
    let v = chars_of(confirmation);
    let (lo, hi) = trim_range(&v, 0, v.len());
    assert(v@.subrange(0, v@.len() as int) =~= confirmation@);
    let t = chars_range(&v, lo, hi);
    if !crate::text::eq_lit(&t, "DELETE") {
        return Err(owned("Delete cancelled. Type DELETE to confirm removal"));
    }
    if same_path(s, root) {
        return Err(owned("Workspace root cannot be deleted"));
    }
    if is_manifest_path(root, s) {
        return Err(owned("snsx.toml is protected from deletion inside the studio"));
    }
    if same_path(entry, s) || starts_with_path(entry, s) {
        return Err(owned("Cannot delete the active entry file or one of its parent folders"));
    }
    Ok(())
}

/// Where the selected path is renamed to: something must be selected that
/// is neither the root nor the manifest, the typed path must resolve inside
/// the workspace, and differ from the selected path.
pub open spec fn rename_verdict(selected: Option<PathView>, relative: Seq<char>, root: PathView) -> Result<PathView, (bool, Seq<char>)> {
    match selected {
        None => Err((false, "Nothing selected to rename"@)),
        Some(s) => if s == root {
            Err((false, "Workspace root cannot be renamed"@))
        } else if s == manifest_of(root) {
            Err((false, "snsx.toml is managed by the workspace and cannot be renamed here"@))
        } else {
            match resolve_path(root, root, relative, "absolute paths are not allowed inside the studio"@) {
                Err(e) => Err((true, e)),
                Ok(d) => if d == s {
                    Err((false, "Rename skipped because the path is unchanged"@))
                } else {
                    Ok(d)
                },
            }
        },
    }
}

/// Decides where the selected path is renamed to. A notice is a refusal
/// shown on the status line; a failure is an error.
pub fn rename_check(selected: Option<&WorkspacePath>, relative: &str, root: &WorkspacePath) -> (r: Result<WorkspacePath, Refusal>)
    ensures
        match r {
            Ok(d) => rename_verdict(match selected { Some(s) => Some(s@), None => None }, relative@, root@) == Ok::<PathView, (bool, Seq<char>)>(d@),
            Err(Refusal::Notice(m)) => rename_verdict(match selected { Some(s) => Some(s@), None => None }, relative@, root@) == Err::<PathView, (bool, Seq<char>)>((false, m@)),
            Err(Refusal::Failure(e)) => rename_verdict(match selected { Some(s) => Some(s@), None => None }, relative@, root@) == Err::<PathView, (bool, Seq<char>)>((true, e@)),
        },
{
    let s = match selected {
        None => return Err(Refusal::Notice(owned("Nothing selected to rename"))),
        Some(s) => s,
    };
    if same_path(s, root) {
        return Err(Refusal::Notice(owned("Workspace root cannot be renamed")));
    }
    if is_manifest_path(root, s) {
        return Err(Refusal::Notice(owned("snsx.toml is managed by the workspace and cannot be renamed here")));
    }
    match resolve_studio_input(root, root, relative) {
        Err(e) => Err(Refusal::Failure(e)),
        Ok(d) => {
            if same_path(&d, s) {
                Err(Refusal::Notice(owned("Rename skipped because the path is unchanged")))
            } else {
                Ok(d)
            }
        },
    }
}

/// The pieces of a text split at a character, empty pieces included.
pub open spec fn split_on(s: Seq<char>, sep: char) -> Seq<Seq<char>>
    decreases s.len(),
{
    if s.len() == 0 {
        seq![Seq::empty()]
    } else {
        let rest = split_on(s.drop_last(), sep);
        if s.last() == sep {
            rest.push(Seq::empty())
        } else {
            rest.update(rest.len() - 1, rest.last().push(s.last()))
        }
    }
}

/// Where a standard module is copied into a workspace: under
/// `vendor/modules`, one folder per dotted piece, the last piece with
/// `.snsx`.
pub open spec fn vendored_path(root: PathView, module: Seq<char>) -> PathView {
    let pieces = split_on(module, '.');
    PathView {
        absolute: root.absolute,
        parts: root.parts + seq!["vendor"@, "modules"@] + pieces.drop_last() + seq![pieces.last() + ".snsx"@],
    }
}

proof fn lemma_split_on_nonempty(s: Seq<char>, sep: char)
    ensures
        split_on(s, sep).len() >= 1,
    decreases s.len(),
{
    if s.len() > 0 {
        lemma_split_on_nonempty(s.drop_last(), sep);
    }
}

/// Where a standard module is copied into a workspace.
pub fn vendored_module_path(root: &WorkspacePath, module: &str) -> (r: WorkspacePath)
    ensures
        r@ == vendored_path(root@, module@),
{
    let v = chars_of(module);
    let mut pieces: Vec<String> = Vec::new();
    let mut cur = String::new();
    let mut i: usize = 0;
    assert(v@.take(0) =~= Seq::<char>::empty());
    while i < v.len()
        invariant
            i <= v@.len(),
            v@ == module@,
            strings_view(pieces@).push(cur@) == split_on(v@.take(i as int), '.'),
        decreases v@.len() - i,
    {
        let ghost before = strings_view(pieces@);
        assert(v@.take(i + 1).drop_last() =~= v@.take(i as int));
        assert(v@.take(i + 1).last() == v@[i as int]);
        if v[i] == '.' {
            let done = cur;
            pieces.push(done);
            cur = String::new();
            assert(strings_view(pieces@) =~= before.push(done@));
            assert(strings_view(pieces@).push(cur@) =~= split_on(v@.take(i as int), '.').push(Seq::empty()));
        } else {
            let ghost old_cur = cur@;
            push_char(&mut cur, v[i]);
            assert(strings_view(pieces@).push(cur@) =~= before.push(old_cur).update(before.len() as int, old_cur.push(v@[i as int])));
        }
        i = i + 1;
    }
    assert(v@.take(v@.len() as int) =~= v@);
    let mut out = clone_path(root);
    let ghost base = strings_view(out.parts@);
    out.parts.push(owned("vendor"));
    out.parts.push(owned("modules"));
    let mut k: usize = 0;
    while k < pieces.len()
        invariant
            k <= pieces@.len(),
            out.absolute == root.absolute,
            strings_view(out.parts@) == base + seq!["vendor"@, "modules"@] + strings_view(pieces@).take(k as int),
        decreases pieces@.len() - k,
    {
        let ghost before = strings_view(out.parts@);
        let part = pieces[k].clone();
        assert(part@ == strings_view(pieces@)[k as int]);
        out.parts.push(part);
        assert(strings_view(out.parts@) =~= before.push(part@));
        assert(strings_view(out.parts@) =~= base + seq!["vendor"@, "modules"@] + strings_view(pieces@).take(k + 1));
        k = k + 1;
    }
    assert(strings_view(pieces@).take(pieces@.len() as int) =~= strings_view(pieces@));
    let mut last = cur;
    push_str(&mut last, ".snsx");
    let ghost before = strings_view(out.parts@);
    out.parts.push(last);
    assert(strings_view(out.parts@) =~= before.push(last@));
    proof {
        let pieces_all = split_on(module@, '.');
        assert(pieces_all.drop_last() =~= strings_view(pieces@));
        assert(pieces_all.last() == cur@);
    }
    assert(strings_view(out.parts@) =~= vendored_path(root@, module@).parts);
    assert(out.absolute == root.absolute);
    assert(out@.parts == vendored_path(root@, module@).parts);
    assert(out@ == vendored_path(root@, module@));
    out
}

} // verus!


verus! {

/// Whether every piece of a text split at `/` is a name: not empty, and
/// neither `.` nor `..`.
pub open spec fn all_names(s: Seq<char>) -> bool {
    forall|i: int| 0 <= i < split_on(s, '/').len() ==> {
        let piece = #[trigger] split_on(s, '/')[i];
        piece.len() > 0 && piece != seq!['.'] && piece != seq!['.', '.']
    }
}

/// A text without the separator is a single piece.
proof fn lemma_split_on_single(x: Seq<char>, sep: char)
    requires
        !x.contains(sep),
    ensures
        split_on(x, sep) == seq![x],
    decreases x.len(),
{
    if x.len() > 0 {
        assert(!x.drop_last().contains(sep)) by {
            if x.drop_last().contains(sep) {
                let i = choose|i: int| 0 <= i < x.drop_last().len() && x.drop_last()[i] == sep;
                assert(x[i] == sep);
            }
        }
        lemma_split_on_single(x.drop_last(), sep);
        assert(x.last() != sep) by {
            assert(x[x.len() - 1] == x.last());
        }
        assert(x.drop_last().push(x.last()) =~= x);
        assert(split_on(x, sep) =~= seq![x]);
    } else {
        assert(x =~= Seq::<char>::empty());
    }
}

/// Splitting at a separator splits the text on either side of it.
proof fn lemma_split_on_concat(x: Seq<char>, y: Seq<char>, sep: char)
    ensures
        split_on(x + seq![sep] + y, sep) == split_on(x, sep) + split_on(y, sep),
    decreases y.len(),
{
    let z = x + seq![sep] + y;
    if y.len() == 0 {
        assert(z.drop_last() =~= x);
        assert(split_on(y, sep) =~= seq![Seq::<char>::empty()]);
        assert(split_on(z, sep) =~= split_on(x, sep) + split_on(y, sep));
    } else {
        let y2 = y.drop_last();
        assert(z.drop_last() =~= x + seq![sep] + y2);
        assert(z.last() == y.last());
        lemma_split_on_concat(x, y2, sep);
        lemma_split_on_nonempty(y2, sep);
        let a = split_on(x, sep);
        let b = split_on(y2, sep);
        if y.last() == sep {
            assert((a + b).push(Seq::<char>::empty()) =~= a + b.push(Seq::<char>::empty()));
        } else {
            let ab = a + b;
            assert(ab.last() == b.last());
            assert(ab.update(ab.len() - 1, ab.last().push(y.last())) =~= a + b.update(b.len() - 1, b.last().push(y.last())));
        }
    }
}

/// Joining the pieces of a split with `/` gives the text back.
proof fn lemma_join_split(s: Seq<char>)
    ensures
        join_slash(split_on(s, '/')) == s,
    decreases s.len(),
{
    if s.len() > 0 {
        let s2 = s.drop_last();
        lemma_join_split(s2);
        lemma_split_on_nonempty(s2, '/');
        let rest = split_on(s2, '/');
        let pieces = split_on(s, '/');
        if s.last() == '/' {
            assert(pieces.drop_last() =~= rest);
            assert(s2 + seq!['/'] + Seq::<char>::empty() =~= s);
        } else if rest.len() == 1 {
            assert(pieces.len() == 1);
            assert(rest[0] == join_slash(rest));
            assert(pieces[0] =~= s);
        } else {
            assert(pieces.len() == rest.len());
            assert(pieces.drop_last() =~= rest.drop_last());
            assert(pieces.last() == rest.last().push(s.last()));
            assert(join_slash(rest) == join_slash(rest.drop_last()) + seq!['/'] + rest.last());
            assert(join_slash(pieces) == join_slash(pieces.drop_last()) + seq!['/'] + pieces.last());
            assert(s2.push(s.last()) =~= s);
            assert(join_slash(pieces) =~= s);
        }
    }
}

/// Reading a path names by names: where every piece of `cur + s` is a
/// name and `cur` holds no `/`, the names read are the pieces, after `done`.
proof fn lemma_segments_are_pieces(s: Seq<char>, cur: Seq<char>, done: Seq<Seq<char>>)
    requires
        !cur.contains('/'),
        all_names(cur + s),
    ensures
        segments_from(s, cur, done) == done + split_on(cur + s, '/'),
    decreases s.len(),
{
    if s.len() == 0 {
        assert(cur + s =~= cur);
        lemma_split_on_single(cur, '/');
        assert(split_on(cur, '/')[0] == cur);
        assert(done.push(cur) =~= done + seq![cur]);
    } else if s[0] == '/' {
        let s2 = s.drop_first();
        assert(cur + s =~= cur + seq!['/'] + s2);
        lemma_split_on_concat(cur, s2, '/');
        lemma_split_on_single(cur, '/');
        let whole = split_on(cur + s, '/');
        assert(whole =~= seq![cur] + split_on(s2, '/'));
        assert(whole[0] == cur);
        assert(all_names(Seq::<char>::empty() + s2)) by {
            assert(Seq::<char>::empty() + s2 =~= s2);
            assert forall|i: int| 0 <= i < split_on(s2, '/').len() implies {
                let piece = #[trigger] split_on(s2, '/')[i];
                piece.len() > 0 && piece != seq!['.'] && piece != seq!['.', '.']
            } by {
                assert(whole[i + 1] == split_on(s2, '/')[i]);
            }
        }
        assert(!Seq::<char>::empty().contains('/'));
        lemma_segments_are_pieces(s2, Seq::empty(), done.push(cur));
        assert(Seq::<char>::empty() + s2 =~= s2);
        assert(done.push(cur) + split_on(s2, '/') =~= done + whole);
    } else {
        let cur2 = cur.push(s[0]);
        assert(!cur2.contains('/')) by {
            if cur2.contains('/') {
                let i = choose|i: int| 0 <= i < cur2.len() && cur2[i] == '/';
                if i < cur.len() {
                    assert(cur[i] == '/');
                }
            }
        }
        assert(cur2 + s.drop_first() =~= cur + s);
        lemma_segments_are_pieces(s.drop_first(), cur2, done);
    }
}

/// A path typed relative to the workspace is shown as it was typed:
/// resolving a trimmed text whose `/`-separated pieces are all names
/// (none empty, `.` or `..`) and which holds no `\` against the root, and
/// showing the result relative to the root, gives the text back. The root
/// itself is shown as `.`.
pub proof fn lemma_workspace_path_round_trip(root: PathView, s: Seq<char>, absolute_message: Seq<char>)
    requires
        trim(s) == s,
        all_names(s),
        !s.contains('\\'),
    ensures
        resolve_path(root, root, s, absolute_message) matches Ok(p)
            && crate::workspace::replace_char(relative_text(root, p), '\\', '/') == s,
        crate::workspace::replace_char(relative_text(root, root), '\\', '/') == seq!['.'],
{
    assert(Seq::<char>::empty() + s =~= s);
    assert(!Seq::<char>::empty().contains('/'));
    lemma_segments_are_pieces(s, Seq::empty(), Seq::empty());
    let segs = split_on(s, '/');
    assert(path_segments(s) =~= segs);
    lemma_split_on_nonempty(s, '/');
    assert(segs[0].len() > 0);
    if s.len() == 0 {
        assert(segs =~= seq![Seq::<char>::empty()]);
    }
    if s == seq!['.'] {
        lemma_split_on_single(s, '/');
        assert(segs[0] == seq!['.']);
    }
    if s[0] == '/' {
        assert(Seq::<char>::empty() + seq!['/'] + s.drop_first() =~= s);
        lemma_split_on_concat(Seq::empty(), s.drop_first(), '/');
        lemma_split_on_single(Seq::empty(), '/');
        assert(segs[0] == Seq::<char>::empty());
    }
    assert(!segs.contains(seq!['.', '.'])) by {
        if segs.contains(seq!['.', '.']) {
            let i = choose|i: int| 0 <= i < segs.len() && segs[i] == seq!['.', '.'];
            assert(segs[i] != seq!['.', '.']);
        }
    }
    let p = PathView { absolute: root.absolute, parts: root.parts + segs };
    assert(p.parts.take(root.parts.len() as int) =~= root.parts);
    assert(resolve_path(root, root, s, absolute_message) == Ok::<PathView, Seq<char>>(p));
    assert(p != root) by {
        assert(p.parts.len() != root.parts.len());
    }
    assert(p.parts.skip(root.parts.len() as int) =~= segs);
    lemma_join_split(s);
    assert(relative_text(root, p) == s);
    assert(crate::workspace::replace_char(s, '\\', '/') =~= s) by {
        assert forall|i: int| 0 <= i < s.len() implies s[i] != '\\' by {
            if s[i] == '\\' {
                assert(s.contains('\\'));
            }
        }
    }
    assert(crate::workspace::replace_char(seq!['.'], '\\', '/') =~= seq!['.']);
}

} // verus!
