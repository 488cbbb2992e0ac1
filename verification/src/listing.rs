//! Ordering and filtering of workspace entries, and the listings built from
//! them: directory listings, trees, path matches and text matches.

use vstd::prelude::*;
use crate::text::{chars_of, lowercase, to_lowercase};

verus! {

/// What a workspace path names.
#[derive(Debug, Clone, Copy, PartialEq, Eq, Structural)]
pub enum NodeKind {
    Dir,
    File,
    Other,
}

/// Byte order of two texts, which for UTF-8 is the order of their code
/// points, compared one position after another.
pub open spec fn text_lt(a: Seq<char>, b: Seq<char>) -> bool
    decreases a.len(),
{
    if a.len() == 0 {
        b.len() > 0
    } else if b.len() == 0 {
        false
    } else if a[0] != b[0] {
        (a[0] as u32) < (b[0] as u32)
    } else {
        text_lt(a.drop_first(), b.drop_first())
    }
}

/// The order of sort keys: entries marked `later` come after the others,
/// and within each group the texts are in byte order.
pub open spec fn key_lt(a: (bool, Seq<char>), b: (bool, Seq<char>)) -> bool {
    (!a.0 && b.0) || (a.0 == b.0 && text_lt(a.1, b.1))
}

/// The sort key of an item.
pub open spec fn item_key<T>(e: ((bool, Seq<char>), T)) -> (bool, Seq<char>) {
    e.0
}

/// Items with their keys taken by value.
pub open spec fn keyed_view<T>(v: Seq<(bool, String, T)>) -> Seq<((bool, Seq<char>), T)> {
    v.map_values(|e: (bool, String, T)| ((e.0, e.1@), e.2))
}

/// Where an item with key `k` goes among sorted items so that it lands after
/// every item whose key is not greater: the first position holding a
/// greater key.
pub open spec fn insert_pos<T>(s: Seq<((bool, Seq<char>), T)>, k: (bool, Seq<char>)) -> nat
    decreases s.len(),
{
    if s.len() == 0 {
        0
    } else if key_lt(k, item_key(s[0])) {
        0
    } else {
        1 + insert_pos(s.drop_first(), k)
    }
}

/// The items in stable order of their keys: each item is placed after all
/// earlier items whose keys are not greater than its own.
pub open spec fn sorted_items<T>(v: Seq<((bool, Seq<char>), T)>) -> Seq<((bool, Seq<char>), T)>
    decreases v.len(),
{
    if v.len() == 0 {
        Seq::empty()
    } else {
        let s = sorted_items(v.drop_last());
        s.insert(insert_pos(s, item_key(v.last())) as int, v.last())
    }
}

/// No item of `s` has a greater key than a later one.
pub open spec fn keys_ascending<T>(s: Seq<((bool, Seq<char>), T)>) -> bool {
    forall|i: int, j: int| 0 <= i < j < s.len() ==> !key_lt(item_key(#[trigger] s[j]), item_key(#[trigger] s[i]))
}

/// Byte order is transitive.
pub proof fn lemma_text_lt_transitive(a: Seq<char>, b: Seq<char>, c: Seq<char>)
    requires
        text_lt(a, b),
        text_lt(b, c),
    ensures
        text_lt(a, c),
    decreases a.len(),
{
    if a.len() > 0 && a[0] == b[0] && b[0] == c[0] {
        lemma_text_lt_transitive(a.drop_first(), b.drop_first(), c.drop_first());
    }
}

/// Byte order is irreflexive.
pub proof fn lemma_text_lt_irreflexive(a: Seq<char>)
    ensures
        !text_lt(a, a),
    decreases a.len(),
{
    if a.len() > 0 {
        lemma_text_lt_irreflexive(a.drop_first());
    }
}

/// The key order is transitive.
pub proof fn lemma_key_lt_transitive(a: (bool, Seq<char>), b: (bool, Seq<char>), c: (bool, Seq<char>))
    requires
        key_lt(a, b),
        key_lt(b, c),
    ensures
        key_lt(a, c),
{
    if a.0 == b.0 && b.0 == c.0 {
        lemma_text_lt_transitive(a.1, b.1, c.1);
    }
}

/// The insert position splits sorted items into those not greater than the
/// key and, from the position on, a first item that is greater.
proof fn lemma_insert_pos<T>(s: Seq<((bool, Seq<char>), T)>, k: (bool, Seq<char>))
    ensures
        insert_pos(s, k) <= s.len(),
        forall|m: int| 0 <= m < insert_pos(s, k) ==> !key_lt(k, item_key(#[trigger] s[m])),
        insert_pos(s, k) < s.len() ==> key_lt(k, item_key(s[insert_pos(s, k) as int])),
    decreases s.len(),
{
    if s.len() > 0 && !key_lt(k, item_key(s[0])) {
        lemma_insert_pos(s.drop_first(), k);
        assert forall|m: int| 0 <= m < insert_pos(s, k) implies !key_lt(k, item_key(#[trigger] s[m])) by {
            if m > 0 {
                assert(s[m] == s.drop_first()[m - 1]);
            }
        }
    }
}

/// Sorting yields items whose keys never decrease.
pub proof fn lemma_sorted_items_ascending<T>(v: Seq<((bool, Seq<char>), T)>)
    ensures
        keys_ascending(sorted_items(v)),
    decreases v.len(),
{
    if v.len() > 0 {
        let s = sorted_items(v.drop_last());
        lemma_sorted_items_ascending(v.drop_last());
        let e = v.last();
        let k = item_key(e);
        let p = insert_pos(s, k) as int;
        lemma_insert_pos(s, k);
        let t = s.insert(p, e);
        assert(t == sorted_items(v));
        assert forall|i: int, j: int| 0 <= i < j < t.len() implies !key_lt(item_key(#[trigger] t[j]), item_key(#[trigger] t[i])) by {
            if j < p {
                assert(t[i] == s[i] && t[j] == s[j]);
            } else if j == p {
                assert(t[i] == s[i]);
            } else if i == p {
                assert(t[j] == s[j - 1]);
                assert(key_lt(k, item_key(s[p])));
                if key_lt(item_key(s[j - 1]), k) {
                    lemma_key_lt_transitive(item_key(s[j - 1]), k, item_key(s[p]));
                    if j - 1 > p {
                        assert(!key_lt(item_key(s[j - 1]), item_key(s[p])));
                    } else {
                        lemma_text_lt_irreflexive(item_key(s[p]).1);
                    }
                }
            } else if i < p {
                assert(t[i] == s[i] && t[j] == s[j - 1]);
            } else {
                assert(t[i] == s[i - 1] && t[j] == s[j - 1]);
            }
        }
    }
}

/// Sorting rearranges the items and neither adds nor drops any.
pub proof fn lemma_sorted_items_permutation<T>(v: Seq<((bool, Seq<char>), T)>)
    ensures
        sorted_items(v).to_multiset() == v.to_multiset(),
        sorted_items(v).len() == v.len(),
    decreases v.len(),
{
    broadcast use vstd::seq_lib::group_to_multiset_ensures;
    if v.len() > 0 {
        let s = sorted_items(v.drop_last());
        lemma_sorted_items_permutation(v.drop_last());
        let p = insert_pos(s, item_key(v.last())) as int;
        lemma_insert_pos(s, item_key(v.last()));
        vstd::seq_lib::to_multiset_insert(s, p, v.last());
        assert(v =~= v.drop_last().push(v.last()));
    }
}

/// Whether `a` comes before `b` in byte order.
pub fn text_less(a: &str, b: &str) -> (r: bool)
    ensures
        r == text_lt(a@, b@),
{
    let x = chars_of(a);
    let y = chars_of(b);
    let mut i: usize = 0;
    assert(a@.skip(0) =~= a@ && b@.skip(0) =~= b@);
    while i < x.len() && i < y.len() && x[i] == y[i]
        invariant
            i <= x@.len(),
            i <= y@.len(),
            x@ == a@,
            y@ == b@,
            text_lt(a@, b@) == text_lt(a@.skip(i as int), b@.skip(i as int)),
        decreases x@.len() - i,
    {
        assert(a@.skip(i as int).drop_first() =~= a@.skip(i + 1));
        assert(b@.skip(i as int).drop_first() =~= b@.skip(i + 1));
        i = i + 1;
    }
    if i == x.len() {
        i < y.len()
    } else if i == y.len() {
        false
    } else {
        (x[i] as u32) < (y[i] as u32)
    }
}

/// Whether key `(a_later, a)` comes before key `(b_later, b)`.
fn key_less(a_later: bool, a: &str, b_later: bool, b: &str) -> (r: bool)
    ensures
        r == key_lt((a_later, a@), (b_later, b@)),
{
    if !a_later && b_later {
        true
    } else if a_later == b_later {
        text_less(a, b)
    } else {
        false
    }
}

/// Sorts items by key, keeping items with equal keys in their given order,
/// as a stable sort by key does.
pub fn sort_items<T>(items: Vec<(bool, String, T)>) -> (r: Vec<(bool, String, T)>)
    ensures
        keyed_view(r@) == sorted_items(keyed_view(items@)),
{
    let ghost v = keyed_view(items@);
    let mut rest = items;
    let mut r: Vec<(bool, String, T)> = Vec::new();
    let mut i: usize = 0;
    let n = rest.len();
    assert(v.take(0) =~= Seq::<((bool, Seq<char>), T)>::empty());
    assert(keyed_view(rest@) =~= v.skip(0));
    assert(keyed_view(r@) =~= Seq::<((bool, Seq<char>), T)>::empty());
    while i < n
        invariant
            n == v.len(),
            i <= n,
            keyed_view(rest@) == v.skip(i as int),
            rest@.len() == n - i,
            keyed_view(r@) == sorted_items(v.take(i as int)),
        decreases n - i,
    {
        let ghost before = rest@;
        let e = rest.remove(0);
        assert(keyed_view(before)[0] == v[i as int]);
        assert(keyed_view(rest@) =~= keyed_view(before).drop_first());
        assert(keyed_view(before).drop_first() =~= v.skip(i + 1));
        let ghost ev = ((e.0, e.1@), e.2);
        assert(ev == v[i as int]);
        let mut j: usize = 0;
        let ghost k = ev.0;
        let ghost rv = keyed_view(r@);
        assert(rv.skip(0) =~= rv);
        while j < r.len() && !key_less(e.0, e.1.as_str(), r[j].0, r[j].1.as_str())
            invariant
                j <= r@.len(),
                rv == keyed_view(r@),
                k == (e.0, e.1@),
                insert_pos(rv, k) == j + insert_pos(rv.skip(j as int), k),
            decreases r@.len() - j,
        {
            assert(rv.skip(j as int).drop_first() =~= rv.skip(j + 1));
            assert(rv[j as int] == ((r@[j as int].0, r@[j as int].1@), r@[j as int].2));
            j = j + 1;
        }
        proof {
            if j < r@.len() {
                assert(rv[j as int] == ((r@[j as int].0, r@[j as int].1@), r@[j as int].2));
            }
        }
        assert(insert_pos(rv, k) == j);
        proof {
            assert(v.take(i + 1).drop_last() =~= v.take(i as int));
            assert(v.take(i + 1).last() == ev);
        }
        r.insert(j, e);
        assert(keyed_view(r@) =~= rv.insert(j as int, ev));
        i = i + 1;
    }
    assert(v.take(n as int) =~= v);
    r
}

} // verus!

verus! {

/// A directory entry as the workspace walk finds it: its name, what it is
/// (a link counts as what it points to), and whether it is a link.
#[derive(Debug, Clone, PartialEq, Eq)]
pub struct DirEntry {
    pub name: String,
    pub kind: NodeKind,
    pub symlink: bool,
}

/// The word a listing shows for a kind of entry.
pub open spec fn kind_text(k: NodeKind) -> Seq<char> {
    match k {
        NodeKind::Dir => "dir "@,
        NodeKind::File => "file"@,
        NodeKind::Other => "node"@,
    }
}

/// The word a listing shows for a kind of entry.
pub fn kind_label(k: NodeKind) -> (r: &'static str)
    ensures
        r@ == kind_text(k),
{
    proof {
        reveal_strlit("dir ");
        reveal_strlit("file");
        reveal_strlit("node");
    }
    match k {
        NodeKind::Dir => "dir ",
        NodeKind::File => "file",
        NodeKind::Other => "node",
    }
}

/// The names the workspace views leave out.
pub open spec fn hidden_name(n: Seq<char>) -> bool {
    n == ".git"@ || n == "target"@ || n == "dist"@
}

/// The entries that the workspace walks descend into and show: neither a
/// hidden name nor a link.
pub open spec fn visible(s: Seq<DirEntry>) -> Seq<DirEntry>
    decreases s.len(),
{
    if s.len() == 0 {
        Seq::empty()
    } else {
        let r = visible(s.drop_last());
        if !hidden_name(s.last().name@) && !s.last().symlink {
            r.push(s.last())
        } else {
            r
        }
    }
}

/// Drops hidden entries and links, keeping the others in order.
pub fn visible_entries(entries: Vec<DirEntry>) -> (r: Vec<DirEntry>)
    ensures
        r@ == visible(entries@),
{
    let ghost v = entries@;
    let mut rest = entries;
    let mut r: Vec<DirEntry> = Vec::new();
    let n = rest.len();
    let mut i: usize = 0;
    assert(v.take(0) =~= Seq::<DirEntry>::empty());
    assert(v.skip(0) =~= v);
    while i < n
        invariant
            n == v.len(),
            i <= n,
            rest@ == v.skip(i as int),
            r@ == visible(v.take(i as int)),
        decreases n - i,
    {
        let e = rest.remove(0);
        assert(v.skip(i as int).remove(0) =~= v.skip(i + 1));
        assert(v.take(i + 1).drop_last() =~= v.take(i as int));
        assert(v.take(i + 1).last() == e);
        let hidden = crate::workspace::is_hidden_workspace_entry(e.name.as_str());
        if !hidden && !e.symlink {
            r.push(e);
        }
        i = i + 1;
    }
    assert(v.take(n as int) =~= v);
    r
}

/// The sort keys of entries: the lowercase name, after the folders when
/// `dirs_first` is set.
pub open spec fn entry_keys(s: Seq<DirEntry>, dirs_first: bool) -> Seq<((bool, Seq<char>), DirEntry)> {
    s.map_values(|e: DirEntry| ((dirs_first && e.kind != NodeKind::Dir, lowercase(e.name@)), e))
}

/// Entries in the order the workspace shows them: by lowercase name, the
/// folders first when `dirs_first` is set, ties in the given order.
pub open spec fn ordered(s: Seq<DirEntry>, dirs_first: bool) -> Seq<DirEntry> {
    sorted_items(entry_keys(s, dirs_first)).map_values(|x: ((bool, Seq<char>), DirEntry)| x.1)
}

/// Puts entries in the order the workspace shows them.
pub fn order_entries(entries: Vec<DirEntry>, dirs_first: bool) -> (r: Vec<DirEntry>)
    ensures
        r@ == ordered(entries@, dirs_first),
{
    let ghost v = entries@;
    let mut rest = entries;
    let mut keyed: Vec<(bool, String, DirEntry)> = Vec::new();
    let n = rest.len();
    let mut i: usize = 0;
    assert(v.skip(0) =~= v);
    while i < n
        invariant
            n == v.len(),
            i <= n,
            rest@ == v.skip(i as int),
            keyed_view(keyed@) == entry_keys(v.take(i as int), dirs_first),
        decreases n - i,
    {
        let e = rest.remove(0);
        assert(v.skip(i as int).remove(0) =~= v.skip(i + 1));
        let later = dirs_first && e.kind != NodeKind::Dir;
        let key = to_lowercase(e.name.as_str());
        let ghost before = keyed_view(keyed@);
        keyed.push((later, key, e));
        assert(keyed_view(keyed@) =~= before.push(((later, key@), e)));
        assert(entry_keys(v.take(i + 1), dirs_first) =~= entry_keys(v.take(i as int), dirs_first).push(((later, key@), e)));
        i = i + 1;
    }
    assert(v.take(n as int) =~= v);
    let sorted = sort_items(keyed);
    let ghost sv = keyed_view(sorted@);
    let mut rest2 = sorted;
    let mut r: Vec<DirEntry> = Vec::new();
    let m = rest2.len();
    let mut j: usize = 0;
    assert(keyed_view(rest2@) =~= sv.skip(0));
    while j < m
        invariant
            m == sv.len(),
            j <= m,
            keyed_view(rest2@) == sv.skip(j as int),
            rest2@.len() == m - j,
            r@ == sv.take(j as int).map_values(|x: ((bool, Seq<char>), DirEntry)| x.1),
        decreases m - j,
    {
        let ghost before = rest2@;
        let (_, _, e) = rest2.remove(0);
        assert(keyed_view(before)[0] == sv[j as int]);
        assert(keyed_view(rest2@) =~= keyed_view(before).drop_first());
        assert(keyed_view(before).drop_first() =~= sv.skip(j + 1));
        r.push(e);
        assert(r@ =~= sv.take(j + 1).map_values(|x: ((bool, Seq<char>), DirEntry)| x.1));
        j = j + 1;
    }
    assert(sv.take(m as int) =~= sv);
    r
}

/// Two spaces per level of depth.
pub open spec fn indent(depth: nat) -> Seq<char> {
    Seq::new(2 * depth, |i: int| ' ')
}

/// A line of a workspace tree: the entry's kind and label, indented by its
/// depth.
pub open spec fn tree_line_text(depth: nat, k: NodeKind, label: Seq<char>) -> Seq<char> {
    indent(depth) + kind_text(k) + seq![' '] + label
}

/// The line a workspace tree shows for an entry.
pub fn tree_line(depth: usize, k: NodeKind, label: &str) -> (r: String)
    requires
        depth <= usize::MAX / 2,
    ensures
        r@ == tree_line_text(depth as nat, k, label@),
{
    let mut s = crate::text::repeat_char(' ', depth * 2);
    crate::text::push_str(&mut s, kind_label(k));
    crate::text::push_char(&mut s, ' ');
    crate::text::push_str(&mut s, label);
    assert(s@ =~= tree_line_text(depth as nat, k, label@));
    s
}

/// The label of a tree's node: its name, or `.` for a root without one and
/// `?` for another node without one.
pub open spec fn node_label_text(is_root: bool, name: Option<Seq<char>>) -> Seq<char> {
    match name {
        Some(n) => n,
        None => if is_root { "."@ } else { "?"@ },
    }
}

/// The label of a tree's node.
pub fn node_label(is_root: bool, name: Option<&str>) -> (r: String)
    ensures
        r@ == node_label_text(is_root, match name { Some(n) => Some(n@), None => None }),
{
    proof {
        reveal_strlit(".");
        reveal_strlit("?");
    }
    match name {
        Some(n) => crate::text::owned(n),
        None => if is_root { crate::text::owned(".") } else { crate::text::owned("?") },
    }
}

} // verus!

verus! {

/// The path of an entry named `name` inside the folder `p`.
pub open spec fn child_view(p: crate::paths::PathView, name: Seq<char>) -> crate::paths::PathView {
    crate::paths::PathView { absolute: p.absolute, parts: p.parts.push(name) }
}

/// The path of an entry inside a folder.
pub fn child_path(p: &crate::paths::WorkspacePath, name: &str) -> (r: crate::paths::WorkspacePath)
    ensures
        r@ == child_view(p@, name@),
{
    let mut r = crate::paths::clone_path(p);
    let ghost before = crate::text::strings_view(r.parts@);
    r.parts.push(crate::text::owned(name));
    assert(crate::text::strings_view(r.parts@) =~= before.push(name@));
    r
}

/// A path as the shell shows it.
pub open spec fn shown(root: crate::paths::PathView, p: crate::paths::PathView) -> Seq<char> {
    crate::workspace::replace_char(crate::paths::relative_text(root, p), '\\', '/')
}

/// The lines listing the entries of a folder, in the given order.
pub open spec fn entry_lines(root: crate::paths::PathView, target: crate::paths::PathView, s: Seq<DirEntry>) -> Seq<Seq<char>> {
    s.map_values(|e: DirEntry| kind_text(e.kind) + seq![' '] + shown(root, child_view(target, e.name@)))
}

/// What the shell shows for `ls` on a path of the given kind: a file's
/// size, a note for a special entry, or a folder's entries with the
/// folders first.
pub open spec fn listing_text(
    root: crate::paths::PathView,
    target: crate::paths::PathView,
    node: NodeKind,
    bytes: nat,
    entries: Seq<DirEntry>,
) -> Seq<Seq<char>> {
    let label = shown(root, target);
    match node {
        NodeKind::File => seq!["file "@ + label, "bytes "@ + crate::text::decimal(bytes)],
        NodeKind::Other => seq!["node "@ + label, "special filesystem entry (not editable as a regular SNSX file)"@],
        NodeKind::Dir => {
            let lines = entry_lines(root, target, ordered(entries, true));
            seq!["Listing "@ + label] + if lines.len() == 0 { seq!["(empty)"@] } else { lines }
        },
    }
}

/// The lines `ls` shows for an existing path.
fn listing_lines(
    root: &crate::paths::WorkspacePath,
    target: &crate::paths::WorkspacePath,
    node: NodeKind,
    bytes: u64,
    entries: Vec<DirEntry>,
) -> (r: Vec<String>)
    ensures
        crate::text::strings_view(r@) == listing_text(root@, target@, node, bytes as nat, entries@),
{
    proof {
        reveal_strlit("file ");
        reveal_strlit("bytes ");
        reveal_strlit("node ");
        reveal_strlit("Listing ");
    }
    let label = crate::paths::workspace_path(root, target);
    let mut r: Vec<String> = Vec::new();
    match node {
        NodeKind::File => {
            let mut a = crate::text::owned("file ");
            crate::text::push_str(&mut a, label.as_str());
            let mut b = crate::text::owned("bytes ");
            let digits = crate::text::decimal_string_u64(bytes);
            crate::text::push_str(&mut b, digits.as_str());
            r.push(a);
            r.push(b);
            assert(crate::text::strings_view(r@) =~= listing_text(root@, target@, node, bytes as nat, entries@));
        },
        NodeKind::Other => {
            let mut a = crate::text::owned("node ");
            crate::text::push_str(&mut a, label.as_str());
            r.push(a);
            r.push(crate::text::owned("special filesystem entry (not editable as a regular SNSX file)"));
            assert(crate::text::strings_view(r@) =~= listing_text(root@, target@, node, bytes as nat, entries@));
        },
        NodeKind::Dir => {
            let mut a = crate::text::owned("Listing ");
            crate::text::push_str(&mut a, label.as_str());
            r.push(a);
            let ordered_entries = order_entries(entries, true);
            let ghost lines = entry_lines(root@, target@, ordered_entries@);
            let mut i: usize = 0;
            while i < ordered_entries.len()
                invariant
                    i <= ordered_entries@.len(),
                    lines == entry_lines(root@, target@, ordered_entries@),
                    crate::text::strings_view(r@) == seq!["Listing "@ + shown(root@, target@)] + lines.take(i as int),
                decreases ordered_entries@.len() - i,
            {
                let e = &ordered_entries[i];
                let child = child_path(target, e.name.as_str());
                let shown_child = crate::paths::workspace_path(root, &child);
                let mut line = crate::text::owned(kind_label(e.kind));
                crate::text::push_char(&mut line, ' ');
                crate::text::push_str(&mut line, shown_child.as_str());
                let ghost before = crate::text::strings_view(r@);
                r.push(line);
                assert(line@ == lines[i as int]);
                assert(crate::text::strings_view(r@) =~= before.push(line@));
                assert(lines.take(i + 1) =~= lines.take(i as int).push(lines[i as int]));
                i = i + 1;
            }
            assert(lines.take(lines.len() as int) =~= lines);
            if ordered_entries.len() == 0 {
                r.push(crate::text::owned("(empty)"));
                assert(crate::text::strings_view(r@) =~= listing_text(root@, target@, node, bytes as nat, entries@));
            }
        },
    }
    r
}

} // verus!

verus! {

/// Whether `needle` occurs in `hay` as a run of consecutive characters.
pub open spec fn occurs_in(hay: Seq<char>, needle: Seq<char>) -> bool {
    exists|i: int| 0 <= i && i + needle.len() <= hay.len() && #[trigger] hay.subrange(i, i + needle.len()) == needle
}

/// Whether `needle` occurs in `hay`.
pub fn text_contains(hay: &str, needle: &str) -> (r: bool)
    ensures
        r == occurs_in(hay@, needle@),
{
    let h = chars_of(hay);
    let n = chars_of(needle);
    if n.len() > h.len() {
        return false;
    }
    let last = h.len() - n.len();
    let hl = h.len();
    let mut i: usize = 0;
    loop
        invariant
            hl == h@.len(),
            h@ == hay@,
            n@ == needle@,
            last == h@.len() - n@.len(),
            n@.len() <= h@.len(),
            i <= last,
            forall|k: int| 0 <= k < i ==> #[trigger] h@.subrange(k, k + n@.len()) != n@,
        decreases last - i,
    {
        let mut j: usize = 0;
        while j < n.len()
            invariant
                hl == h@.len(),
                i <= last,
                last == h@.len() - n@.len(),
                n@.len() <= h@.len(),
                i + n@.len() <= h@.len(),
                j <= n@.len(),
                forall|m: int| 0 <= m < j ==> h@[i + m] == n@[m],
            ensures
                j <= n@.len(),
                forall|m: int| 0 <= m < j ==> h@[i + m] == n@[m],
                j < n@.len() ==> h@[i + j] != n@[j as int],
            decreases n@.len() - j,
        {
            if h[i + j] != n[j] {
                break;
            }
            j = j + 1;
        }
        if j == n.len() {
            assert(h@.subrange(i as int, i + n@.len()) =~= n@);
            return true;
        }
        assert(h@.subrange(i as int, i + n@.len())[j as int] != n@[j as int]);
        if i == last {
            assert forall|k: int| 0 <= k && k + needle@.len() <= hay@.len() implies #[trigger] hay@.subrange(k, k + needle@.len()) != needle@ by {
                if k == i {
                } else {
                    assert(k < i);
                }
            }
            return false;
        }
        i = i + 1;
    }
}

/// The lowercase search text of a query, or `usage` when the trimmed query
/// lowercases to nothing.
pub open spec fn needle_of(query: Seq<char>, usage: Seq<char>) -> Result<Seq<char>, Seq<char>> {
    let n = lowercase(crate::text::trim(query));
    if n.len() == 0 {
        Err(usage)
    } else {
        Ok(n)
    }
}

/// The lowercase search text of a query.
pub fn query_needle(query: &str, usage: &str) -> (r: Result<String, crate::shell::ShellError>)
    ensures
        match r {
            Ok(n) => needle_of(query@, usage@) == Ok::<Seq<char>, Seq<char>>(n@),
            Err(e) => needle_of(query@, usage@) == Err::<Seq<char>, Seq<char>>(e@),
        },
{
    let t = crate::text::trim_str(query);
    let n = to_lowercase(t.as_str());
    if n.unicode_len() == 0 {
        Err(crate::shell::ShellError::new(usage))
    } else {
        Ok(n)
    }
}

/// A path found by the workspace walk: its label, its file name, and what
/// it is.
#[derive(Debug, Clone)]
pub struct PathCandidate {
    pub label: String,
    pub file_name: String,
    pub kind: NodeKind,
}

/// Whether a path matches a lowercase needle by its file name or label.
pub open spec fn path_hit(c: PathCandidate, needle: Seq<char>) -> bool {
    occurs_in(lowercase(c.file_name@), needle) || occurs_in(lowercase(c.label@), needle)
}

/// The matching paths, keyed by lowercase label.
pub open spec fn path_hits(s: Seq<PathCandidate>, needle: Seq<char>) -> Seq<((bool, Seq<char>), PathCandidate)>
    decreases s.len(),
{
    if s.len() == 0 {
        Seq::empty()
    } else {
        let r = path_hits(s.drop_last(), needle);
        let c = s.last();
        if path_hit(c, needle) {
            r.push(((false, lowercase(c.label@)), c))
        } else {
            r
        }
    }
}

/// The line `find` shows for a matching path.
pub open spec fn hit_line(c: PathCandidate) -> Seq<char> {
    kind_text(c.kind) + seq![' '] + c.label@
}

/// At most `n` leading items.
pub open spec fn first_n<A>(s: Seq<A>, n: nat) -> Seq<A> {
    if s.len() <= n { s } else { s.take(n as int) }
}

/// What `find` shows: a heading, then the matching paths by lowercase label
/// (at most 120), or a note that nothing matched.
pub open spec fn path_match_text(query: Seq<char>, needle: Seq<char>, s: Seq<PathCandidate>) -> Seq<Seq<char>> {
    let hits = sorted_items(path_hits(s, needle)).map_values(|x: ((bool, Seq<char>), PathCandidate)| hit_line(x.1));
    seq!["File matches for '"@ + query + "':"@] + if hits.len() == 0 { seq!["(no matches)"@] } else { first_n(hits, 120) }
}

/// Appends at most `limit` leading lines of `lines`, or the empty-result
/// note when there are none.
fn push_limited(r: &mut Vec<String>, lines: Vec<String>, limit: usize)
    ensures
        crate::text::strings_view(final(r)@) == crate::text::strings_view(old(r)@) + if lines@.len() == 0 {
            seq!["(no matches)"@]
        } else {
            first_n(crate::text::strings_view(lines@), limit as nat)
        },
{
    proof {
        reveal_strlit("(no matches)");
    }
    let ghost start = crate::text::strings_view(r@);
    let ghost lv = crate::text::strings_view(lines@);
    if lines.len() == 0 {
        r.push(crate::text::owned("(no matches)"));
        assert(crate::text::strings_view(r@) =~= start + seq!["(no matches)"@]);
        return;
    }
    let mut rest = lines;
    let n = rest.len();
    let stop = if n < limit { n } else { limit };
    let mut i: usize = 0;
    assert(crate::text::strings_view(rest@) =~= lv.skip(0));
    while i < stop
        invariant
            stop <= n,
            n == lv.len(),
            i <= stop,
            rest@.len() == n - i,
            crate::text::strings_view(rest@) == lv.skip(i as int),
            crate::text::strings_view(r@) == start + lv.take(i as int),
        decreases stop - i,
    {
        let ghost before = rest@;
        let line = rest.remove(0);
        assert(crate::text::strings_view(before)[0] == lv[i as int]);
        assert(line@ == lv[i as int]);
        assert(crate::text::strings_view(rest@) =~= crate::text::strings_view(before).drop_first());
        assert(crate::text::strings_view(before).drop_first() =~= lv.skip(i + 1));
        let ghost rb = crate::text::strings_view(r@);
        r.push(line);
        assert(crate::text::strings_view(r@) =~= rb.push(line@));
        assert(lv.take(i + 1) =~= lv.take(i as int).push(lv[i as int]));
        i = i + 1;
    }
    assert(lv.take(stop as int) =~= first_n(lv, limit as nat));
}

/// The refusal of `find` with a blank query.
pub open spec fn find_usage() -> Seq<char> {
    "find expects a non-empty path fragment"@
}

/// What `find` shows for the paths the walk found: the paths whose file
/// name or label holds the trimmed, lowercased query; a blank query is
/// refused.
pub fn find_workspace_paths(query: &str, candidates: Vec<PathCandidate>) -> (r: Result<Vec<String>, crate::shell::ShellError>)
    ensures
        match needle_of(query@, find_usage()) {
            Ok(n) => r matches Ok(ls) && crate::text::strings_view(ls@) == path_match_text(query@, n, candidates@),
            Err(e) => r matches Err(x) && x@ == e,
        },
{
    let needle_text = query_needle(query, "find expects a non-empty path fragment")?;
    Ok(path_matches(query, needle_text.as_str(), candidates))
}

/// What `find` shows for the paths the walk found, given the query and its
/// lowercase needle.
fn path_matches(query: &str, needle: &str, candidates: Vec<PathCandidate>) -> (r: Vec<String>)
    ensures
        crate::text::strings_view(r@) == path_match_text(query@, needle@, candidates@),
{
    proof {
        reveal_strlit("File matches for '");
        reveal_strlit("':");
    }
    let ghost v = candidates@;
    let mut pending = candidates;
    let mut keyed: Vec<(bool, String, PathCandidate)> = Vec::new();
    let n = pending.len();
    let mut i: usize = 0;
    assert(v.skip(0) =~= v);
    while i < n
        invariant
            n == v.len(),
            i <= n,
            pending@ == v.skip(i as int),
            keyed_view(keyed@) == path_hits(v.take(i as int), needle@),
        decreases n - i,
    {
        let c = pending.remove(0);
        assert(v.skip(i as int).remove(0) =~= v.skip(i + 1));
        assert(v.take(i + 1).drop_last() =~= v.take(i as int));
        assert(v.take(i + 1).last() == c);
        let name_lower = to_lowercase(c.file_name.as_str());
        let label_lower = to_lowercase(c.label.as_str());
        if text_contains(name_lower.as_str(), needle) || text_contains(label_lower.as_str(), needle) {
            let ghost before = keyed_view(keyed@);
            keyed.push((false, label_lower, c));
            assert(keyed_view(keyed@) =~= before.push(((false, label_lower@), c)));
        }
        i = i + 1;
    }
    assert(v.take(n as int) =~= v);
    let sorted = sort_items(keyed);
    let ghost sv = keyed_view(sorted@);
    let mut hits: Vec<String> = Vec::new();
    let m = sorted.len();
    let mut j: usize = 0;
    while j < m
        invariant
            m == sv.len(),
            sv == keyed_view(sorted@),
            j <= m,
            crate::text::strings_view(hits@) == sv.take(j as int).map_values(|x: ((bool, Seq<char>), PathCandidate)| hit_line(x.1)),
        decreases m - j,
    {
        let c = &sorted[j].2;
        assert(sv[j as int].1 == *c);
        let mut line = crate::text::owned(kind_label(c.kind));
        crate::text::push_char(&mut line, ' ');
        crate::text::push_str(&mut line, c.label.as_str());
        let ghost hb = crate::text::strings_view(hits@);
        hits.push(line);
        assert(crate::text::strings_view(hits@) =~= hb.push(line@));
        assert(line@ == hit_line(sv[j as int].1));
        assert(sv.take(j + 1).map_values(|x: ((bool, Seq<char>), PathCandidate)| hit_line(x.1)) =~= sv.take(j as int).map_values(|x: ((bool, Seq<char>), PathCandidate)| hit_line(x.1)).push(hit_line(sv[j as int].1)));
        j = j + 1;
    }
    assert(sv.take(m as int) =~= sv);
    let mut head = crate::text::owned("File matches for '");
    crate::text::push_str(&mut head, query);
    crate::text::push_str(&mut head, "':");
    let mut r: Vec<String> = Vec::new();
    r.push(head);
    assert(crate::text::strings_view(r@) =~= seq!["File matches for '"@ + query@ + "':"@]);
    push_limited(&mut r, hits, 120);
    r
}

} // verus!

verus! {

/// The lines of a file that contain the lowercase needle once lowercased,
/// each as `label:number | excerpt`, in order.
pub open spec fn text_hits(label: Seq<char>, lines: Seq<Seq<char>>, needle: Seq<char>, display: Seq<char>) -> Seq<Seq<char>>
    decreases lines.len(),
{
    if lines.len() == 0 {
        Seq::empty()
    } else {
        let r = text_hits(label, lines.drop_last(), needle, display);
        let line = lines.last();
        if occurs_in(lowercase(line), needle) {
            r.push(label + seq![':'] + crate::text::decimal(lines.len()) + " | "@ + crate::workspace::search_excerpt(line, display))
        } else {
            r
        }
    }
}

/// The hits of leading lines are the leading hits of all lines.
pub proof fn lemma_text_hits_prefix(label: Seq<char>, lines: Seq<Seq<char>>, n: int, needle: Seq<char>, display: Seq<char>)
    requires
        0 <= n <= lines.len(),
    ensures
        text_hits(label, lines.take(n), needle, display).len() <= text_hits(label, lines, needle, display).len(),
        text_hits(label, lines, needle, display).take(text_hits(label, lines.take(n), needle, display).len() as int)
            == text_hits(label, lines.take(n), needle, display),
    decreases lines.len(),
{
    let h = text_hits(label, lines, needle, display);
    if n == lines.len() {
        assert(lines.take(n) =~= lines);
        assert(h.take(h.len() as int) =~= h);
    } else {
        assert(lines.drop_last().take(n) =~= lines.take(n));
        lemma_text_hits_prefix(label, lines.drop_last(), n, needle, display);
        let g = text_hits(label, lines.drop_last(), needle, display);
        let k = text_hits(label, lines.take(n), needle, display).len() as int;
        assert(h.take(k) =~= g.take(k));
    }
}

/// What the text search finds in one file: at most `room` hits.
pub open spec fn file_hits_text(label: Seq<char>, content: Seq<char>, needle: Seq<char>, display: Seq<char>, room: nat) -> Seq<Seq<char>> {
    first_n(text_hits(label, crate::editor::split_lines(content), needle, display), room)
}

/// The hits of the text search in one file's content, shown under `label`:
/// at most `room` of them, for the lowercase `needle` and the query as typed.
pub fn file_text_matches(label: &str, content: &str, needle: &str, display: &str, room: usize) -> (r: Vec<String>)
    ensures
        crate::text::strings_view(r@) == file_hits_text(label@, content@, needle@, display@, room as nat),
{
    proof {
        reveal_strlit(" | ");
    }
    let lines = crate::editor::text_lines(content);
    let ghost lv = crate::text::strings_view(lines@);
    let mut r: Vec<String> = Vec::new();
    let mut i: usize = 0;
    assert(lv.take(0) =~= Seq::<Seq<char>>::empty());
    while i < lines.len() && r.len() < room
        invariant
            i <= lines@.len(),
            lv == crate::text::strings_view(lines@),
            lv == crate::editor::split_lines(content@),
            r@.len() <= room,
            crate::text::strings_view(r@) == text_hits(label@, lv.take(i as int), needle@, display@),
        decreases lines@.len() - i,
    {
        assert(lv.take(i + 1).drop_last() =~= lv.take(i as int));
        assert(lv.take(i + 1).last() == lines@[i as int]@);
        let lower = to_lowercase(lines[i].as_str());
        if text_contains(lower.as_str(), needle) {
            let mut line = crate::text::owned(label);
            crate::text::push_char(&mut line, ':');
            let number = crate::text::decimal_string(i + 1);
            crate::text::push_str(&mut line, number.as_str());
            crate::text::push_str(&mut line, " | ");
            let excerpt = crate::workspace::trim_search_line(lines[i].as_str(), display);
            crate::text::push_str(&mut line, excerpt.as_str());
            let ghost before = crate::text::strings_view(r@);
            assert(line@ =~= label@ + seq![':'] + crate::text::decimal(lv.take(i + 1).len()) + " | "@
                + crate::workspace::search_excerpt(lv.take(i + 1).last(), display@));
            r.push(line);
            assert(crate::text::strings_view(r@) =~= before.push(line@));
        }
        i = i + 1;
    }
    proof {
        let all = text_hits(label@, lv, needle@, display@);
        lemma_text_hits_prefix(label@, lv, i as int, needle@, display@);
        if i == lines@.len() {
            assert(lv.take(i as int) =~= lv);
        }
        assert(first_n(all, room as nat) =~= crate::text::strings_view(r@));
    }
    r
}

/// What `search` shows: a heading, then at most 160 hits, or a note that
/// nothing matched.
pub open spec fn text_match_text(query: Seq<char>, hits: Seq<Seq<char>>) -> Seq<Seq<char>> {
    seq!["Content matches for '"@ + query + "':"@] + if hits.len() == 0 { seq!["(no matches)"@] } else { first_n(hits, 160) }
}

/// The refusal of `search` with a blank query.
pub open spec fn search_usage() -> Seq<char> {
    "search expects non-empty text"@
}

/// The files the walk found, as (label, content) pairs of texts.
pub open spec fn files_view(files: Seq<(String, String)>) -> Seq<(Seq<char>, Seq<char>)> {
    files.map_values(|f: (String, String)| (f.0@, f.1@))
}

/// The hits of the text search over files in walk order, at most `limit`
/// of them: each file adds its hits while there is room.
pub open spec fn files_hits(files: Seq<(Seq<char>, Seq<char>)>, needle: Seq<char>, display: Seq<char>, limit: nat) -> Seq<Seq<char>>
    decreases files.len(),
{
    if files.len() == 0 {
        Seq::empty()
    } else {
        let prev = files_hits(files.drop_last(), needle, display, limit);
        let f = files.last();
        prev + file_hits_text(f.0, f.1, needle, display, (limit - prev.len()) as nat)
    }
}

/// How many hits the text search collects before it stops.
pub open spec fn search_collect_limit() -> nat {
    200
}

/// What `search` shows: a heading, then at most 160 of the hits the files
/// give for the trimmed, lowercased query, or a note that nothing matched;
/// a blank query is refused.
pub fn search_workspace_text(query: &str, files: Vec<(String, String)>) -> (r: Result<Vec<String>, crate::shell::ShellError>)
    ensures
        match needle_of(query@, search_usage()) {
            Ok(n) => r matches Ok(ls) && crate::text::strings_view(ls@)
                == text_match_text(query@, files_hits(files_view(files@), n, query@, search_collect_limit())),
            Err(e) => r matches Err(x) && x@ == e,
        },
{
    let needle_text = query_needle(query, "search expects non-empty text")?;
    let needle = needle_text.as_str();
    let ghost fv = files_view(files@);
    let mut hits: Vec<String> = Vec::new();
    let mut i: usize = 0;
    assert(fv.take(0) =~= Seq::<(Seq<char>, Seq<char>)>::empty());
    assert(crate::text::strings_view(hits@) =~= Seq::<Seq<char>>::empty());
    while i < files.len()
        invariant
            i <= files@.len(),
            fv == files_view(files@),
            hits@.len() <= 200,
            crate::text::strings_view(hits@) == files_hits(fv.take(i as int), needle@, query@, 200),
        decreases files@.len() - i,
    {
        assert(fv.take(i + 1).drop_last() =~= fv.take(i as int));
        assert(fv.take(i + 1).last() == (files@[i as int].0@, files@[i as int].1@));
        let room = 200 - hits.len();
        let more = file_text_matches(files[i].0.as_str(), files[i].1.as_str(), needle, query, room);
        let ghost before = crate::text::strings_view(hits@);
        let ghost mv = crate::text::strings_view(more@);
        assert(mv.len() <= room);
        let mut k: usize = 0;
        while k < more.len()
            invariant
                k <= more@.len(),
                mv == crate::text::strings_view(more@),
                mv.len() <= room,
                room == 200 - before.len(),
                crate::text::strings_view(hits@) == before + mv.take(k as int),
            decreases more@.len() - k,
        {
            let line = more[k].clone();
            let ghost hb = crate::text::strings_view(hits@);
            hits.push(line);
            assert(crate::text::strings_view(hits@) =~= hb.push(line@));
            assert(mv.take(k + 1) =~= mv.take(k as int).push(mv[k as int]));
            k = k + 1;
        }
        assert(mv.take(k as int) =~= mv);
        i = i + 1;
    }
    assert(fv.take(i as int) =~= fv);
    proof {
        reveal_strlit("Content matches for '");
        reveal_strlit("':");
    }
    let mut head = crate::text::owned("Content matches for '");
    crate::text::push_str(&mut head, query);
    crate::text::push_str(&mut head, "':");
    let mut r: Vec<String> = Vec::new();
    r.push(head);
    assert(crate::text::strings_view(r@) =~= seq!["Content matches for '"@ + query@ + "':"@]);
    push_limited(&mut r, hits, 160);
    Ok(r)
}

} // verus!

verus! {

/// A node of a workspace tree as the walk visits it: its depth below the
/// listed path, its kind and its label.
#[derive(Debug, Clone)]
pub struct TreeNode {
    pub depth: usize,
    pub kind: NodeKind,
    pub label: String,
}

/// The lines of a tree whose nodes were visited in the given order.
pub open spec fn tree_text(nodes: Seq<TreeNode>) -> Seq<Seq<char>> {
    nodes.map_values(|n: TreeNode| tree_line_text(n.depth as nat, n.kind, n.label@))
}

/// What `tree` shows: the nodes of the walk below `target`, one line each,
/// or why there is no tree when the path does not exist.
pub open spec fn render_tree_text(root: crate::paths::PathView, target: crate::paths::PathView, exists: bool, nodes: Seq<TreeNode>) -> Result<Seq<Seq<char>>, Seq<char>> {
    if !exists {
        Err("path does not exist: "@ + shown(root, target))
    } else {
        Ok(tree_text(nodes))
    }
}

/// The `tree` listing of `target`, from the nodes the walk visited in
/// order (folders first, by lowercase name, hidden entries and links left
/// out).
pub fn render_tree(root: &crate::paths::WorkspacePath, target: &crate::paths::WorkspacePath, exists: bool, nodes: &Vec<TreeNode>) -> (r: Result<Vec<String>, crate::shell::ShellError>)
    requires
        forall|i: int| 0 <= i < nodes@.len() ==> (#[trigger] nodes@[i]).depth <= usize::MAX / 2,
    ensures
        match r {
            Ok(lines) => render_tree_text(root@, target@, exists, nodes@) == Ok::<Seq<Seq<char>>, Seq<char>>(crate::text::strings_view(lines@)),
            Err(e) => render_tree_text(root@, target@, exists, nodes@) == Err::<Seq<Seq<char>>, Seq<char>>(e@),
        },
{
    if !exists {
        let shown_target = crate::paths::workspace_path(root, target);
        let c = chars_of(shown_target.as_str());
        let e = crate::shell::ShellError::framed("path does not exist: ", &c, "");
        proof {
            reveal_strlit("");
            assert(e@ =~= "path does not exist: "@ + shown(root@, target@));
        }
        return Err(e);
    }
    let ghost all = tree_text(nodes@);
    let mut lines: Vec<String> = Vec::new();
    let mut i: usize = 0;
    while i < nodes.len()
        invariant
            i <= nodes@.len(),
            all == tree_text(nodes@),
            forall|k: int| 0 <= k < nodes@.len() ==> (#[trigger] nodes@[k]).depth <= usize::MAX / 2,
            crate::text::strings_view(lines@) == all.take(i as int),
        decreases nodes@.len() - i,
    {
        let n = &nodes[i];
        let line = tree_line(n.depth, n.kind, n.label.as_str());
        let ghost before = crate::text::strings_view(lines@);
        lines.push(line);
        assert(crate::text::strings_view(lines@) =~= before.push(line@));
        assert(all.take(i + 1) =~= all.take(i as int).push(all[i as int]));
        i = i + 1;
    }
    assert(all.take(all.len() as int) =~= all);
    Ok(lines)
}

} // verus!

verus! {

/// What `ls` shows for a path: its listing, or why there is none when the
/// path does not exist.
pub open spec fn list_directory_text(
    root: crate::paths::PathView,
    target: crate::paths::PathView,
    exists: bool,
    node: NodeKind,
    bytes: nat,
    entries: Seq<DirEntry>,
) -> Result<Seq<Seq<char>>, Seq<char>> {
    if !exists {
        Err("path does not exist: "@ + shown(root, target))
    } else {
        Ok(listing_text(root, target, node, bytes, entries))
    }
}

/// The `ls` listing of `target`: `exists` tells whether the path exists,
/// `node` what it is, `bytes` a file's size and `entries` a folder's
/// entries as read.
pub fn list_directory(
    root: &crate::paths::WorkspacePath,
    target: &crate::paths::WorkspacePath,
    exists: bool,
    node: NodeKind,
    bytes: u64,
    entries: Vec<DirEntry>,
) -> (r: Result<Vec<String>, crate::shell::ShellError>)
    ensures
        match r {
            Ok(lines) => list_directory_text(root@, target@, exists, node, bytes as nat, entries@) == Ok::<Seq<Seq<char>>, Seq<char>>(
                crate::text::strings_view(lines@),
            ),
            Err(e) => list_directory_text(root@, target@, exists, node, bytes as nat, entries@) == Err::<Seq<Seq<char>>, Seq<char>>(e@),
        },
{
    if !exists {
        let shown_target = crate::paths::workspace_path(root, target);
        let c = chars_of(shown_target.as_str());
        let e = crate::shell::ShellError::framed("path does not exist: ", &c, "");
        proof {
            reveal_strlit("");
            assert(e@ =~= "path does not exist: "@ + shown(root@, target@));
        }
        return Err(e);
    }
    Ok(listing_lines(root, target, node, bytes, entries))
}

} // verus!
