//! The workspace manifest, `snsx.toml`: its tables as plain values, the
//! default manifest, the changes the package commands make to it, the
//! dependencies it lists, and the permissions and policies read from it.

use vstd::prelude::*;
use crate::runtime::SandboxPolicy;
use crate::packages::{edits_view, EditView, ManifestEdit};
use crate::text::{owned, str_eq, strings_view};

verus! {

/// An error of the TOML reader.
#[verifier::external_type_specification]
#[verifier::external_body]
pub struct ExTomlError(toml::de::Error);

/// A TOML value, carried through unread.
#[verifier::external_type_specification]
#[verifier::external_body]
pub struct ExTomlValue(toml::Value);

/// An error of the TOML writer.
#[verifier::external_type_specification]
#[verifier::external_body]
pub struct ExTomlWriteError(toml::ser::Error);

/// A value under a key of a manifest table: a text, a boolean, or another
/// TOML value, which the manifest logic carries through without reading it.
#[derive(Debug)]
pub enum TomlEntry {
    Text(String),
    Flag(bool),
    Other(toml::Value),
}

/// The mathematical value of a table entry.
pub enum EntryView {
    Text(Seq<char>),
    Flag(bool),
    Other,
}

impl View for TomlEntry {
    type V = EntryView;

    open spec fn view(&self) -> EntryView {
        match self {
            TomlEntry::Text(s) => EntryView::Text(s@),
            TomlEntry::Flag(b) => EntryView::Flag(*b),
            TomlEntry::Other(_) => EntryView::Other,
        }
    }
}

/// The entries of a table, by key.
pub open spec fn table_view(t: Seq<(String, TomlEntry)>) -> Seq<(Seq<char>, EntryView)> {
    t.map_values(|e: (String, TomlEntry)| (e.0@, e.1@))
}

/// A top-level item of a manifest: a table of entries, or another value.
#[derive(Debug)]
pub enum TomlSection {
    Table(Vec<(String, TomlEntry)>),
    Other(toml::Value),
}

/// The mathematical value of a top-level item.
pub enum SectionView {
    Table(Seq<(Seq<char>, EntryView)>),
    Other,
}

impl View for TomlSection {
    type V = SectionView;

    open spec fn view(&self) -> SectionView {
        match self {
            TomlSection::Table(t) => SectionView::Table(table_view(t@)),
            TomlSection::Other(_) => SectionView::Other,
        }
    }
}

/// A manifest: its top-level items, by key.
#[derive(Debug)]
pub struct ManifestDoc {
    pub sections: Vec<(String, TomlSection)>,
}

impl View for ManifestDoc {
    type V = Seq<(Seq<char>, SectionView)>;

    open spec fn view(&self) -> Seq<(Seq<char>, SectionView)> {
        self.sections@.map_values(|e: (String, TomlSection)| (e.0@, e.1@))
    }
}

/// Whether every entry of a manifest is a text or a boolean under a table.
pub open spec fn plain_manifest(d: Seq<(Seq<char>, SectionView)>) -> bool {
    forall|i: int| 0 <= i < d.len() ==> match #[trigger] d[i].1 {
        SectionView::Table(t) => forall|j: int| 0 <= j < t.len() ==> !(#[trigger] t[j].1 is Other),
        SectionView::Other => false,
    }
}

/// Whether a text is a TOML document, as toml's `from_str` reads it (the
/// `FromStr` of `toml::Table`).
pub uninterp spec fn toml_parses(raw: Seq<char>) -> bool;

/// The manifest a TOML document holds: its top-level items in the order the
/// parsed table keeps them, each table with its entries.
pub uninterp spec fn toml_document(raw: Seq<char>) -> Seq<(Seq<char>, SectionView)>;

/// The text toml's pretty writer gives a manifest.
pub uninterp spec fn toml_pretty(d: Seq<(Seq<char>, SectionView)>) -> Seq<char>;

/// Reads a manifest.
///
/// Trusted: `str::parse::<toml::Table>` (toml's `from_str`), with each
/// top-level value and each value of a top-level table moved into the
/// library's types. The parse fails exactly on a text that is not TOML; the
/// manifest is a function of the text. What the TOML grammar accepts is
/// left unsaid.
#[verifier::external_body]
fn parse_manifest_text(raw: &str) -> (r: Result<ManifestDoc, toml::de::Error>)
    ensures
        r is Ok <==> toml_parses(raw@),
        r matches Ok(d) ==> d@ == toml_document(raw@),
{
    let mut sections = Vec::new();
    for (key, value) in raw.parse::<toml::Table>()? {
        sections.push((key, match value {
            toml::Value::Table(t) => TomlSection::Table(t.into_iter().map(|(k, v)| (k, match v {
                toml::Value::String(s) => TomlEntry::Text(s),
                toml::Value::Boolean(b) => TomlEntry::Flag(b),
                other => TomlEntry::Other(other),
            })).collect()),
            other => TomlSection::Other(other),
        }));
    }
    Ok(ManifestDoc { sections })
}

/// Writes a manifest.
///
/// Trusted: the manifest moved into a `toml::Table`, then
/// `toml::to_string_pretty`. For a manifest of texts and booleans under
/// tables the writer does not fail (none of its errors, an unsupported type,
/// a value out of range, a missing value, a key that is not a string or a
/// bad date, can arise there), and the text is a function of the
/// manifest's value. Whether the writer fails on another manifest, and its
/// text there, are left unsaid: the values carried through unread have no
/// value in the library.
#[verifier::external_body]
fn write_manifest_text(doc: ManifestDoc) -> (r: Result<String, toml::ser::Error>)
    ensures
        plain_manifest(doc@) ==> r is Ok,
        r matches Ok(t) ==> (plain_manifest(doc@) ==> t@ == toml_pretty(doc@)),
{
    let mut table = toml::Table::new();
    for (key, section) in doc.sections {
        table.insert(key, match section {
            TomlSection::Table(t) => toml::Value::Table(t.into_iter().map(|(k, e)| (k, match e {
                TomlEntry::Text(s) => toml::Value::String(s),
                TomlEntry::Flag(b) => toml::Value::Boolean(b),
                TomlEntry::Other(v) => v,
            })).collect()),
            TomlSection::Other(v) => v,
        });
    }
    toml::to_string_pretty(&table)
}

/// The message of a TOML reader's error.
///
/// Trusted: `toml::de::Error`'s `Display`; nothing is said of the text.
#[verifier::external_body]
fn toml_error_message(e: &toml::de::Error) -> (m: String) {
    e.to_string()
}

/// The message of a TOML writer's error.
///
/// Trusted: `toml::ser::Error`'s `Display`; nothing is said of the text.
#[verifier::external_body]
fn toml_write_error_message(e: &toml::ser::Error) -> (m: String) {
    e.to_string()
}

/// Why a manifest could not be read, changed or written.
#[derive(Debug, Clone)]
pub struct ManifestError {
    pub message: String,
}

} // verus!

verus! {

/// The keys of a list of keyed items.
pub open spec fn keys_of<V>(s: Seq<(Seq<char>, V)>) -> Seq<Seq<char>> {
    s.map_values(|e: (Seq<char>, V)| e.0)
}

/// The keys of a list of items keyed by strings.
pub open spec fn string_keys<V>(s: Seq<(String, V)>) -> Seq<Seq<char>> {
    s.map_values(|e: (String, V)| e.0@)
}

/// Where a key first occurs among keys, or -1.
pub open spec fn key_index(keys: Seq<Seq<char>>, k: Seq<char>) -> int
    decreases keys.len(),
{
    if keys.len() == 0 {
        -1
    } else if keys[0] == k {
        0
    } else {
        let i = key_index(keys.drop_first(), k);
        if i < 0 {
            -1
        } else {
            i + 1
        }
    }
}

/// `key_index` finds the first occurrence, and -1 only where there is none.
proof fn lemma_key_index(keys: Seq<Seq<char>>, k: Seq<char>)
    ensures
        -1 <= key_index(keys, k) < keys.len(),
        key_index(keys, k) >= 0 ==> keys[key_index(keys, k)] == k,
        forall|j: int| 0 <= j < keys.len() && (key_index(keys, k) < 0 || j < key_index(keys, k)) ==> keys[j] != k,
    decreases keys.len(),
{
    if keys.len() > 0 && keys[0] != k {
        lemma_key_index(keys.drop_first(), k);
        assert forall|j: int| 0 <= j < keys.len() && (key_index(keys, k) < 0 || j < key_index(keys, k)) implies keys[j] != k by {
            if j > 0 {
                assert(keys[j] == keys.drop_first()[j - 1]);
            }
        }
    }
}

/// Where a key first occurs in a list of items keyed by strings.
fn position_of<V>(s: &Vec<(String, V)>, k: &str) -> (r: Option<usize>)
    ensures
        match r {
            Some(i) => key_index(string_keys(s@), k@) == i && i < s@.len(),
            None => key_index(string_keys(s@), k@) == -1,
        },
{
    let mut i: usize = 0;
    while i < s.len()
        invariant
            i <= s@.len(),
            forall|j: int| 0 <= j < i ==> string_keys(s@)[j] != k@,
        decreases s@.len() - i,
    {
        if str_eq(s[i].0.as_str(), k) {
            assert(string_keys(s@)[i as int] == k@);
            proof {
                lemma_key_index(string_keys(s@), k@);
            }
            return Some(i);
        }
        i = i + 1;
    }
    proof {
        lemma_key_index(string_keys(s@), k@);
    }
    None
}

/// A table with `key` set to `v`: in its place where the key is there,
/// else at the end.
pub open spec fn put_entry(t: Seq<(Seq<char>, EntryView)>, key: Seq<char>, v: EntryView) -> Seq<(Seq<char>, EntryView)> {
    let i = key_index(keys_of(t), key);
    if i >= 0 {
        t.update(i, (key, v))
    } else {
        t.push((key, v))
    }
}

/// A table without `key`.
pub open spec fn drop_entry(t: Seq<(Seq<char>, EntryView)>, key: Seq<char>) -> Seq<(Seq<char>, EntryView)> {
    let i = key_index(keys_of(t), key);
    if i >= 0 {
        t.remove(i)
    } else {
        t
    }
}

/// A change to one table of a manifest.
pub enum ChangeView {
    Put(Seq<char>, EntryView),
    Drop(Seq<char>),
}

/// A table after a change.
pub open spec fn changed_table(t: Seq<(Seq<char>, EntryView)>, c: ChangeView) -> Seq<(Seq<char>, EntryView)> {
    match c {
        ChangeView::Put(k, v) => put_entry(t, k, v),
        ChangeView::Drop(k) => drop_entry(t, k),
    }
}

/// A manifest with its table `name` changed; a missing table is added,
/// empty, at the end first; where `name` holds another value than a table,
/// the manifest is left as it is.
pub open spec fn with_table(d: Seq<(Seq<char>, SectionView)>, name: Seq<char>, c: ChangeView) -> Seq<(Seq<char>, SectionView)> {
    let i = key_index(keys_of(d), name);
    if i < 0 {
        d.push((name, SectionView::Table(changed_table(Seq::empty(), c))))
    } else {
        match d[i].1 {
            SectionView::Table(t) => d.update(i, (name, SectionView::Table(changed_table(t, c)))),
            SectionView::Other => d,
        }
    }
}

/// Whether the item `name` of a manifest is a table, or missing.
pub open spec fn table_usable(d: Seq<(Seq<char>, SectionView)>, name: Seq<char>) -> bool {
    let i = key_index(keys_of(d), name);
    i < 0 || d[i].1 is Table
}

/// The table a change of the package commands writes to.
pub open spec fn edit_section(e: EditView) -> Seq<char> {
    match e {
        EditView::SetPermission(_, _) => "permissions"@,
        _ => "dependencies"@,
    }
}

/// A manifest after one change of the package commands: a dependency is
/// set to `"builtin"` or dropped, a permission set to its flag.
pub open spec fn apply_edit_view(d: Seq<(Seq<char>, SectionView)>, e: EditView) -> Seq<(Seq<char>, SectionView)> {
    match e {
        EditView::SetDependency(n) => with_table(d, "dependencies"@, ChangeView::Put(n, EntryView::Text("builtin"@))),
        EditView::RemoveDependency(n) => with_table(d, "dependencies"@, ChangeView::Drop(n)),
        EditView::SetPermission(k, b) => with_table(d, "permissions"@, ChangeView::Put(k, EntryView::Flag(b))),
    }
}

/// A manifest after changes, first first.
pub open spec fn apply_edits_view(d: Seq<(Seq<char>, SectionView)>, es: Seq<EditView>) -> Seq<(Seq<char>, SectionView)>
    decreases es.len(),
{
    if es.len() == 0 {
        d
    } else {
        apply_edits_view(apply_edit_view(d, es[0]), es.drop_first())
    }
}

/// The first table, in the order of the changes, that a change writes to
/// and that the manifest holds as another value than a table. Changes only
/// ever add tables or change their entries, so this is decided on the
/// manifest before them.
pub open spec fn first_unusable(d: Seq<(Seq<char>, SectionView)>, es: Seq<EditView>) -> Option<Seq<char>>
    decreases es.len(),
{
    if es.len() == 0 {
        None
    } else if !table_usable(d, edit_section(es[0])) {
        Some(edit_section(es[0]))
    } else {
        first_unusable(d, es.drop_first())
    }
}

/// The message of a manifest whose item `name` is not a table.
pub open spec fn not_a_table_message(name: Seq<char>) -> Seq<char> {
    "invalid snsx.toml: ["@ + name + "] must be a table"@
}

/// The default manifest of a package: its name, version `0.1.0` and entry;
/// file system and network refused, AI allowed; `std` as a builtin
/// dependency.
pub open spec fn default_manifest_view(name: Seq<char>, entry: Seq<char>) -> Seq<(Seq<char>, SectionView)> {
    seq![
        ("package"@, SectionView::Table(seq![
            ("name"@, EntryView::Text(name)),
            ("version"@, EntryView::Text("0.1.0"@)),
            ("entry"@, EntryView::Text(entry)),
        ])),
        ("permissions"@, SectionView::Table(seq![
            ("fs"@, EntryView::Flag(false)),
            ("net"@, EntryView::Flag(false)),
            ("ai"@, EntryView::Flag(true)),
        ])),
        ("dependencies"@, SectionView::Table(seq![("std"@, EntryView::Text("builtin"@))])),
    ]
}

/// A manifest with its package entry set to `entry`.
pub open spec fn with_entry_view(d: Seq<(Seq<char>, SectionView)>, entry: Seq<char>) -> Seq<(Seq<char>, SectionView)> {
    with_table(d, "package"@, ChangeView::Put("entry"@, EntryView::Text(entry)))
}

/// The keys of the table `name`, or none where there is no such table.
pub open spec fn table_keys(d: Seq<(Seq<char>, SectionView)>, name: Seq<char>) -> Seq<Seq<char>> {
    let i = key_index(keys_of(d), name);
    if i < 0 {
        Seq::empty()
    } else {
        match d[i].1 {
            SectionView::Table(t) => keys_of(t),
            SectionView::Other => Seq::empty(),
        }
    }
}

/// The entry under `key` in the table `name`, if there is one.
pub open spec fn entry_at(d: Seq<(Seq<char>, SectionView)>, name: Seq<char>, key: Seq<char>) -> Option<EntryView> {
    let i = key_index(keys_of(d), name);
    if i < 0 {
        None
    } else {
        match d[i].1 {
            SectionView::Table(t) => {
                let j = key_index(keys_of(t), key);
                if j < 0 {
                    None
                } else {
                    Some(t[j].1)
                }
            },
            SectionView::Other => None,
        }
    }
}

/// The boolean under `key` in the table `name`, if there is one.
pub open spec fn flag_at(d: Seq<(Seq<char>, SectionView)>, name: Seq<char>, key: Seq<char>) -> Option<bool> {
    match entry_at(d, name, key) {
        Some(EntryView::Flag(b)) => Some(b),
        _ => None,
    }
}

/// The permission flags of a manifest: for `fs`, `net` and `ai`, the
/// boolean under `[permissions]`, if there is one.
pub open spec fn manifest_flags(d: Seq<(Seq<char>, SectionView)>) -> (Option<bool>, Option<bool>, Option<bool>) {
    (flag_at(d, "permissions"@, "fs"@), flag_at(d, "permissions"@, "net"@), flag_at(d, "permissions"@, "ai"@))
}


/// The policy the compiler audits a program under.
#[derive(Debug, Clone, Copy, PartialEq, Eq, Structural)]
pub struct SecurityPolicy {
    pub strict: bool,
    pub allow_fs: bool,
    pub allow_network: bool,
    pub allow_ai: bool,
}

/// Where a key occurs after one more key is added at the end.
proof fn lemma_key_index_push(keys: Seq<Seq<char>>, n: Seq<char>, k: Seq<char>)
    ensures
        key_index(keys.push(n), k) == if key_index(keys, k) >= 0 {
            key_index(keys, k)
        } else if n == k {
            keys.len() as int
        } else {
            -1
        },
    decreases keys.len(),
{
    if keys.len() > 0 {
        assert(keys.push(n).drop_first() =~= keys.drop_first().push(n));
        assert(keys.push(n)[0] == keys[0]);
        lemma_key_index_push(keys.drop_first(), n, k);
    } else {
        assert(keys.push(n).drop_first() =~= Seq::<Seq<char>>::empty());
        assert(keys.push(n)[0] == n);
        assert(key_index(Seq::<Seq<char>>::empty(), k) == -1);
    }
}

/// A change to a table keeps every item of the manifest a table, or
/// another value, or missing, as it was, except that a missing table it
/// writes to becomes a table.
proof fn lemma_with_table_usable(d: Seq<(Seq<char>, SectionView)>, name: Seq<char>, c: ChangeView, s: Seq<char>)
    ensures
        table_usable(with_table(d, name, c), s) == table_usable(d, s),
{
    let keys = keys_of(d);
    let i = key_index(keys, name);
    lemma_key_index(keys, name);
    lemma_key_index(keys, s);
    let e = with_table(d, name, c);
    if i < 0 {
        let x = (name, SectionView::Table(changed_table(Seq::empty(), c)));
        assert(keys_of(d.push(x)) =~= keys.push(name));
        lemma_key_index_push(keys, name, s);
    } else {
        match d[i].1 {
            SectionView::Table(t) => {
                let x = (name, SectionView::Table(changed_table(t, c)));
                assert(keys_of(d.update(i, x)) =~= keys);
            },
            SectionView::Other => {},
        }
    }
}

/// The changes of the package commands keep every item of a manifest a
/// table, or another value, or missing, as it was, except that a missing
/// table they write to becomes a table; so whether a change meets an item
/// that is not a table is decided on the manifest before the changes.
pub proof fn lemma_edits_keep_tables(d: Seq<(Seq<char>, SectionView)>, es: Seq<EditView>, s: Seq<char>)
    ensures
        table_usable(apply_edits_view(d, es), s) == table_usable(d, s),
    decreases es.len(),
{
    if es.len() > 0 {
        let e = es[0];
        match e {
            EditView::SetDependency(n) => lemma_with_table_usable(d, "dependencies"@, ChangeView::Put(n, EntryView::Text("builtin"@)), s),
            EditView::RemoveDependency(n) => lemma_with_table_usable(d, "dependencies"@, ChangeView::Drop(n), s),
            EditView::SetPermission(k, b) => lemma_with_table_usable(d, "permissions"@, ChangeView::Put(k, EntryView::Flag(b)), s),
        }
        lemma_edits_keep_tables(apply_edit_view(d, e), es.drop_first(), s);
    }
}

/// Setting an entry and reading it back gives the value set.
proof fn lemma_put_entry_reads_back(t: Seq<(Seq<char>, EntryView)>, key: Seq<char>, v: EntryView)
    ensures
        key_index(keys_of(put_entry(t, key, v)), key) >= 0,
        put_entry(t, key, v)[key_index(keys_of(put_entry(t, key, v)), key)].1 == v,
{
    let keys = keys_of(t);
    lemma_key_index(keys, key);
    let j = key_index(keys, key);
    if j >= 0 {
        assert(keys_of(t.update(j, (key, v))) =~= keys);
    } else {
        assert(keys_of(t.push((key, v))) =~= keys.push(key));
        lemma_key_index_push(keys, key, key);
    }
}

/// A change of the package commands can be read back from the manifest:
/// after a dependency is set, it is recorded as `"builtin"`; after a
/// permission is set, the permission holds its flag. This holds wherever
/// the table written to is a table or missing.
pub proof fn lemma_manifest_edit_reads_back(d: Seq<(Seq<char>, SectionView)>, e: EditView)
    requires
        table_usable(d, edit_section(e)),
    ensures
        match e {
            EditView::SetDependency(n) => entry_at(apply_edit_view(d, e), "dependencies"@, n) == Some(EntryView::Text("builtin"@)),
            EditView::SetPermission(k, b) => entry_at(apply_edit_view(d, e), "permissions"@, k) == Some(EntryView::Flag(b)),
            EditView::RemoveDependency(_) => true,
        },
{
    let name = edit_section(e);
    let keys = keys_of(d);
    lemma_key_index(keys, name);
    let i = key_index(keys, name);
    match e {
        EditView::RemoveDependency(_) => {},
        _ => {
            let (k, v) = match e {
                EditView::SetDependency(n) => (n, EntryView::Text("builtin"@)),
                EditView::SetPermission(k, b) => (k, EntryView::Flag(b)),
                EditView::RemoveDependency(n) => (n, EntryView::Other),
            };
            let c = ChangeView::Put(k, v);
            assert(apply_edit_view(d, e) == with_table(d, name, c));
            if i < 0 {
                let t2 = put_entry(Seq::empty(), k, v);
                lemma_put_entry_reads_back(Seq::empty(), k, v);
                let x = (name, SectionView::Table(t2));
                assert(keys_of(d.push(x)) =~= keys.push(name));
                lemma_key_index_push(keys, name, name);
                assert(d.push(x)[keys.len() as int] == x);
            } else {
                match d[i].1 {
                    SectionView::Table(t) => {
                        let t2 = put_entry(t, k, v);
                        lemma_put_entry_reads_back(t, k, v);
                        let x = (name, SectionView::Table(t2));
                        assert(keys_of(d.update(i, x)) =~= keys);
                    },
                    SectionView::Other => {},
                }
            }
        },
    }
}

/// A change to one table of a manifest.
enum TableChange {
    Put(String, TomlEntry),
    Drop(String),
}

impl View for TableChange {
    type V = ChangeView;

    closed spec fn view(&self) -> ChangeView {
        match self {
            TableChange::Put(k, v) => ChangeView::Put(k@, v@),
            TableChange::Drop(k) => ChangeView::Drop(k@),
        }
    }
}

/// Changes a table.
fn change_table(t: &mut Vec<(String, TomlEntry)>, c: TableChange)
    ensures
        table_view(final(t)@) == changed_table(table_view(old(t)@), c@),
{
    let ghost before = t@;
    let ghost cv = c@;
    assert(keys_of(table_view(t@)) =~= string_keys(t@));
    proof {
        lemma_key_index(string_keys(t@), match cv { ChangeView::Put(k, _) => k, ChangeView::Drop(k) => k });
    }
    match c {
        TableChange::Put(k, v) => {
            let ghost kv = (k@, v@);
            match position_of(t, k.as_str()) {
                Some(i) => {
                    t.remove(i);
                    t.insert(i, (k, v));
                    assert(table_view(t@) =~= table_view(before).update(i as int, kv));
                },
                None => {
                    t.push((k, v));
                    assert(table_view(t@) =~= table_view(before).push(kv));
                },
            }
        },
        TableChange::Drop(k) => {
            match position_of(t, k.as_str()) {
                Some(i) => {
                    t.remove(i);
                    assert(table_view(t@) =~= table_view(before).remove(i as int));
                },
                None => {},
            }
        },
    }
}

/// Changes the table `name` of a manifest, adding it first where it is
/// missing.
fn change_section(m: &mut ManifestDoc, name: &str, c: TableChange)
    ensures
        final(m)@ == with_table(old(m)@, name@, c@),
{
    let ghost d = m@;
    let ghost cv = c@;
    assert(keys_of(m@) =~= string_keys(m.sections@));
    proof {
        lemma_key_index(string_keys(m.sections@), name@);
    }
    match position_of(&m.sections, name) {
        None => {
            let mut t: Vec<(String, TomlEntry)> = Vec::new();
            assert(table_view(t@) =~= Seq::<(Seq<char>, EntryView)>::empty());
            change_table(&mut t, c);
            let ghost sv = SectionView::Table(table_view(t@));
            m.sections.push((owned(name), TomlSection::Table(t)));
            assert(m@ =~= d.push((name@, sv)));
        },
        Some(i) => {
            let (k, sec) = m.sections.remove(i);
            assert(k@ == name@);
            match sec {
                TomlSection::Table(mut t) => {
                    change_table(&mut t, c);
                    let ghost sv = SectionView::Table(table_view(t@));
                    m.sections.insert(i, (k, TomlSection::Table(t)));
                    assert(m@ =~= d.update(i as int, (name@, sv)));
                },
                TomlSection::Other(v) => {
                    m.sections.insert(i, (k, TomlSection::Other(v)));
                    assert(m@ =~= d);
                },
            }
        },
    }
}

/// Whether the item `name` of a manifest is a table, or missing.
fn usable_table(m: &ManifestDoc, name: &str) -> (r: bool)
    ensures
        r == table_usable(m@, name@),
{
    assert(keys_of(m@) =~= string_keys(m.sections@));
    match position_of(&m.sections, name) {
        None => true,
        Some(i) => match &m.sections[i].1 {
            TomlSection::Table(_) => true,
            TomlSection::Other(_) => false,
        },
    }
}

/// The table a change of the package commands writes to.
fn edit_section_of(e: &ManifestEdit) -> (r: &'static str)
    ensures
        r@ == edit_section(e@),
{
    match e {
        ManifestEdit::SetPermission(_, _) => "permissions",
        _ => "dependencies",
    }
}

/// Carries out one change of the package commands.
fn apply_edit(m: &mut ManifestDoc, e: &ManifestEdit)
    ensures
        final(m)@ == apply_edit_view(old(m)@, e@),
{
    match e {
        ManifestEdit::SetDependency(n) => {
            change_section(m, "dependencies", TableChange::Put(n.clone(), TomlEntry::Text(owned("builtin"))))
        },
        ManifestEdit::RemoveDependency(n) => change_section(m, "dependencies", TableChange::Drop(n.clone())),
        ManifestEdit::SetPermission(k, b) => {
            change_section(m, "permissions", TableChange::Put(k.clone(), TomlEntry::Flag(*b)))
        },
    }
}

/// Carries out the changes the package commands planned, first first; where
/// a change writes to an item that is not a table, nothing is changed and
/// the error names that item.
pub fn apply_manifest_edits(m: &mut ManifestDoc, edits: &Vec<ManifestEdit>) -> (r: Result<(), ManifestError>)
    ensures
        match first_unusable(old(m)@, edits_view(edits@)) {
            Some(name) => (r matches Err(e) && e.message@ == not_a_table_message(name)) && final(m)@ == old(m)@,
            None => r is Ok && final(m)@ == apply_edits_view(old(m)@, edits_view(edits@)),
        },
{
    let ghost d = m@;
    let ghost es = edits_view(edits@);
    assert(es.skip(0) =~= es);
    let mut i: usize = 0;
    while i < edits.len()
        invariant
            i <= edits@.len(),
            es == edits_view(edits@),
            m@ == d,
            first_unusable(d, es) == first_unusable(d, es.skip(i as int)),
        decreases edits@.len() - i,
    {
        assert(es.skip(i as int).drop_first() =~= es.skip(i + 1));
        assert(es.skip(i as int)[0] == edits@[i as int]@);
        let name = edit_section_of(&edits[i]);
        if !usable_table(m, name) {
            let mut message = owned("invalid snsx.toml: [");
            crate::text::push_str(&mut message, name);
            crate::text::push_str(&mut message, "] must be a table");
            return Err(ManifestError { message });
        }
        i = i + 1;
    }
    assert(es.skip(i as int).len() == 0);
    let mut j: usize = 0;
    while j < edits.len()
        invariant
            j <= edits@.len(),
            es == edits_view(edits@),
            apply_edits_view(d, es) == apply_edits_view(m@, es.skip(j as int)),
        decreases edits@.len() - j,
    {
        assert(es.skip(j as int).drop_first() =~= es.skip(j + 1));
        assert(es.skip(j as int)[0] == edits@[j as int]@);
        apply_edit(m, &edits[j]);
        j = j + 1;
    }
    assert(es.skip(j as int).len() == 0);
    Ok(())
}

/// Sets the package entry of a manifest, adding `[package]` where it is
/// missing; a `package` item that is not a table is left as it is.
pub fn set_manifest_entry(m: &mut ManifestDoc, entry: &str)
    ensures
        final(m)@ == with_entry_view(old(m)@, entry@),
{
    change_section(m, "package", TableChange::Put(owned("entry"), TomlEntry::Text(owned(entry))));
}

/// The default manifest of a package with a name and an entry file.
pub fn default_manifest(name: &str, entry: &str) -> (m: ManifestDoc)
    ensures
        m@ == default_manifest_view(name@, entry@),
{
    let mut package: Vec<(String, TomlEntry)> = Vec::new();
    package.push((owned("name"), TomlEntry::Text(owned(name))));
    package.push((owned("version"), TomlEntry::Text(owned("0.1.0"))));
    package.push((owned("entry"), TomlEntry::Text(owned(entry))));
    let mut permissions: Vec<(String, TomlEntry)> = Vec::new();
    permissions.push((owned("fs"), TomlEntry::Flag(false)));
    permissions.push((owned("net"), TomlEntry::Flag(false)));
    permissions.push((owned("ai"), TomlEntry::Flag(true)));
    let mut dependencies: Vec<(String, TomlEntry)> = Vec::new();
    dependencies.push((owned("std"), TomlEntry::Text(owned("builtin"))));
    let ghost pv = table_view(package@);
    let ghost fv = table_view(permissions@);
    let ghost dv = table_view(dependencies@);
    let mut sections: Vec<(String, TomlSection)> = Vec::new();
    sections.push((owned("package"), TomlSection::Table(package)));
    sections.push((owned("permissions"), TomlSection::Table(permissions)));
    sections.push((owned("dependencies"), TomlSection::Table(dependencies)));
    let m = ManifestDoc { sections };
    assert(pv =~= seq![("name"@, EntryView::Text(name@)), ("version"@, EntryView::Text("0.1.0"@)), ("entry"@, EntryView::Text(entry@))]);
    assert(fv =~= seq![("fs"@, EntryView::Flag(false)), ("net"@, EntryView::Flag(false)), ("ai"@, EntryView::Flag(true))]);
    assert(dv =~= seq![("std"@, EntryView::Text("builtin"@))]);
    assert(m@ =~= default_manifest_view(name@, entry@));
    m
}

/// Reads a manifest text.
pub fn parse_manifest(raw: &str) -> (r: Result<ManifestDoc, ManifestError>)
    ensures
        r is Ok <==> toml_parses(raw@),
        r matches Ok(d) ==> d@ == toml_document(raw@),
{
    match parse_manifest_text(raw) {
        Ok(d) => Ok(d),
        Err(e) => Err(ManifestError { message: toml_error_message(&e) }),
    }
}

/// Writes a manifest as text.
pub fn manifest_text(doc: ManifestDoc) -> (r: Result<String, ManifestError>)
    ensures
        plain_manifest(doc@) ==> r is Ok,
        r matches Ok(t) ==> (plain_manifest(doc@) ==> t@ == toml_pretty(doc@)),
{
    match write_manifest_text(doc) {
        Ok(t) => Ok(t),
        Err(e) => Err(ManifestError { message: toml_write_error_message(&e) }),
    }
}

/// The manifest the package commands leave: the one a workspace holds (its
/// text), or the default manifest where it holds none, with the planned
/// changes carried out.
pub fn manifest_after_edits(existing: Option<&str>, name: &str, entry: &str, edits: &Vec<ManifestEdit>) -> (r: Result<ManifestDoc, ManifestError>)
    ensures
        match existing {
            Some(raw) => {
                &&& (r is Ok <==> toml_parses(raw@) && first_unusable(toml_document(raw@), edits_view(edits@)) is None)
                &&& (r matches Ok(d) ==> d@ == apply_edits_view(toml_document(raw@), edits_view(edits@)))
                &&& (toml_parses(raw@) ==> match first_unusable(toml_document(raw@), edits_view(edits@)) {
                    Some(n) => r matches Err(e) && e.message@ == not_a_table_message(n),
                    None => true,
                })
            },
            None => {
                &&& (r is Ok <==> first_unusable(default_manifest_view(name@, entry@), edits_view(edits@)) is None)
                &&& (r matches Ok(d) ==> d@ == apply_edits_view(default_manifest_view(name@, entry@), edits_view(edits@)))
            },
        },
{
    let mut doc = match existing {
        Some(raw) => parse_manifest(raw)?,
        None => default_manifest(name, entry),
    };
    apply_manifest_edits(&mut doc, edits)?;
    Ok(doc)
}

/// The names of the dependencies a manifest lists, in byte order.
pub open spec fn sorted_texts(ks: Seq<Seq<char>>) -> Seq<Seq<char>> {
    crate::listing::sorted_items(ks.map_values(|k: Seq<char>| ((false, k), ()))).map_values(
        |e: ((bool, Seq<char>), ())| e.0.1,
    )
}

/// The keys of the `[dependencies]` table of a manifest, in byte order.
pub fn dependency_names(m: &ManifestDoc) -> (r: Vec<String>)
    ensures
        strings_view(r@) == sorted_texts(table_keys(m@, "dependencies"@)),
{
    let mut items: Vec<(bool, String, ())> = Vec::new();
    assert(crate::listing::keyed_view(items@) =~= Seq::<((bool, Seq<char>), ())>::empty());
    assert(keys_of(m@) =~= string_keys(m.sections@));
    match position_of(&m.sections, "dependencies") {
        None => {},
        Some(i) => match &m.sections[i].1 {
            TomlSection::Table(t) => {
                let mut j: usize = 0;
                assert(m@[i as int].1 == SectionView::Table(table_view(t@)));
                assert(string_keys(t@).take(0).map_values(|k: Seq<char>| ((false, k), ())) =~= Seq::<((bool, Seq<char>), ())>::empty());
                while j < t.len()
                    invariant
                        j <= t@.len(),
                        crate::listing::keyed_view(items@) == string_keys(t@).take(j as int).map_values(
                            |k: Seq<char>| ((false, k), ()),
                        ),
                    decreases t@.len() - j,
                {
                    let key = t[j].0.clone();
                    assert(key@ == string_keys(t@)[j as int]);
                    let ghost before = items@;
                    items.push((false, key, ()));
                    assert(crate::listing::keyed_view(items@) =~= crate::listing::keyed_view(before).push(((false, key@), ())));
                    assert(crate::listing::keyed_view(items@) =~= string_keys(t@).take(j + 1).map_values(
                        |k: Seq<char>| ((false, k), ()),
                    ));
                    j = j + 1;
                }
                assert(string_keys(t@).take(t@.len() as int) =~= string_keys(t@));
                assert(keys_of(table_view(t@)) =~= string_keys(t@));
            },
            TomlSection::Other(_) => {},
        },
    }
    assert(crate::listing::keyed_view(items@) =~= table_keys(m@, "dependencies"@).map_values(
        |k: Seq<char>| ((false, k), ()),
    ));
    let sorted = crate::listing::sort_items(items);
    let mut r: Vec<String> = Vec::new();
    assert(strings_view(r@) =~= crate::listing::keyed_view(sorted@).take(0).map_values(|e: ((bool, Seq<char>), ())| e.0.1));
    let mut k: usize = 0;
    while k < sorted.len()
        invariant
            k <= sorted@.len(),
            strings_view(r@) == crate::listing::keyed_view(sorted@).take(k as int).map_values(
                |e: ((bool, Seq<char>), ())| e.0.1,
            ),
        decreases sorted@.len() - k,
    {
        let name = sorted[k].1.clone();
        assert(name@ == crate::listing::keyed_view(sorted@)[k as int].0.1);
        let ghost before = strings_view(r@);
        r.push(name);
        assert(strings_view(r@) =~= before.push(name@));
        assert(strings_view(r@) =~= crate::listing::keyed_view(sorted@).take(k + 1).map_values(
            |e: ((bool, Seq<char>), ())| e.0.1,
        ));
        k = k + 1;
    }
    assert(crate::listing::keyed_view(sorted@).take(k as int) =~= crate::listing::keyed_view(sorted@));
    r
}

/// The dependencies a manifest text lists, in byte order.
pub fn manifest_dependencies(raw: &str) -> (r: Result<Vec<String>, ManifestError>)
    ensures
        r is Ok <==> toml_parses(raw@),
        r matches Ok(d) ==> strings_view(d@) == sorted_texts(table_keys(toml_document(raw@), "dependencies"@)),
{
    let doc = parse_manifest(raw)?;
    Ok(dependency_names(&doc))
}

/// The boolean under `key` in the table `name` of a manifest, if there is
/// one.
fn flag_of(m: &ManifestDoc, name: &str, key: &str) -> (r: Option<bool>)
    ensures
        r == flag_at(m@, name@, key@),
{
    assert(keys_of(m@) =~= string_keys(m.sections@));
    match position_of(&m.sections, name) {
        None => None,
        Some(i) => match &m.sections[i].1 {
            TomlSection::Table(t) => {
                assert(keys_of(table_view(t@)) =~= string_keys(t@));
                match position_of(t, key) {
                    None => None,
                    Some(j) => match &t[j].1 {
                        TomlEntry::Flag(b) => Some(*b),
                        _ => None,
                    },
                }
            },
            TomlSection::Other(_) => None,
        },
    }
}

/// The permission flags of a manifest.
pub fn permission_flags(m: &ManifestDoc) -> (r: (Option<bool>, Option<bool>, Option<bool>))
    ensures
        r == manifest_flags(m@),
{
    (flag_of(m, "permissions", "fs"), flag_of(m, "permissions", "net"), flag_of(m, "permissions", "ai"))
}

/// The strict policy of a manifest's flags: file system and network off
/// unless granted, AI on unless refused.
pub open spec fn policy_of_flags(f: (Option<bool>, Option<bool>, Option<bool>)) -> SecurityPolicy {
    SecurityPolicy {
        strict: true,
        allow_fs: match f.0 { Some(b) => b, None => false },
        allow_network: match f.1 { Some(b) => b, None => false },
        allow_ai: match f.2 { Some(b) => b, None => true },
    }
}

/// The sandbox of a manifest's flags: the same grants, nondeterministic,
/// 64 MiB of memory.
pub open spec fn sandbox_of_flags(f: (Option<bool>, Option<bool>, Option<bool>)) -> SandboxPolicy {
    SandboxPolicy {
        allow_fs: match f.0 { Some(b) => b, None => false },
        allow_network: match f.1 { Some(b) => b, None => false },
        allow_ai: match f.2 { Some(b) => b, None => true },
        deterministic: false,
        max_memory_bytes: 67108864usize,
    }
}

fn flag_or(f: Option<bool>, default: bool) -> (b: bool)
    ensures
        b == match f { Some(x) => x, None => default },
{
    match f {
        Some(x) => x,
        None => default,
    }
}

/// The strict policy of a manifest's flags.
pub fn policy_from_flags(fs: Option<bool>, net: Option<bool>, ai: Option<bool>) -> (p: SecurityPolicy)
    ensures
        p == policy_of_flags((fs, net, ai)),
{
    SecurityPolicy { strict: true, allow_fs: flag_or(fs, false), allow_network: flag_or(net, false), allow_ai: flag_or(ai, true) }
}

/// The sandbox of a manifest's flags.
pub fn sandbox_from_flags(fs: Option<bool>, net: Option<bool>, ai: Option<bool>) -> (p: SandboxPolicy)
    ensures
        p == sandbox_of_flags((fs, net, ai)),
{
    SandboxPolicy {
        allow_fs: flag_or(fs, false),
        allow_network: flag_or(net, false),
        allow_ai: flag_or(ai, true),
        deterministic: false,
        max_memory_bytes: 64 * 1024 * 1024,
    }
}

/// The security policy a manifest text grants.
pub fn security_policy_for_manifest(raw: &str) -> (r: Result<SecurityPolicy, ManifestError>)
    ensures
        r is Ok <==> toml_parses(raw@),
        r matches Ok(p) ==> p == policy_of_flags(manifest_flags(toml_document(raw@))),
{
    let doc = parse_manifest(raw)?;
    let (fs, net, ai) = permission_flags(&doc);
    Ok(policy_from_flags(fs, net, ai))
}

/// The sandbox a manifest text grants.
pub fn sandbox_policy_for_manifest(raw: &str) -> (r: Result<SandboxPolicy, ManifestError>)
    ensures
        r is Ok <==> toml_parses(raw@),
        r matches Ok(p) ==> p == sandbox_of_flags(manifest_flags(toml_document(raw@))),
{
    let doc = parse_manifest(raw)?;
    let (fs, net, ai) = permission_flags(&doc);
    Ok(sandbox_from_flags(fs, net, ai))
}

/// The audit summary of a policy: whether it passed, the number of
/// blockers, and the policy's permissions.
pub open spec fn audit_summary_text(blockers: nat, p: SecurityPolicy, diagnostics: Seq<char>) -> Seq<char> {
    if blockers == 0 {
        "Security audit passed\nPolicy: "@ + crate::studio::policy_label(p.allow_fs, p.allow_network, p.allow_ai)
            + "\nRun and build are unlocked."@
    } else {
        "Security audit found "@ + crate::text::decimal(blockers) + " blocker(s)\nPolicy: "@
            + crate::studio::policy_label(p.allow_fs, p.allow_network, p.allow_ai) + "\n\n"@ + diagnostics
    }
}

/// The text of an audit report for the web studio.
pub fn audit_output(blockers: usize, p: &SecurityPolicy, diagnostics: &str) -> (r: String)
    ensures
        r@ == audit_summary_text(blockers as nat, *p, diagnostics@),
{
    let label = crate::studio::security_policy_label(p.allow_fs, p.allow_network, p.allow_ai);
    if blockers == 0 {
        let mut s = crate::text::owned("Security audit passed\nPolicy: ");
        crate::text::push_str(&mut s, label.as_str());
        crate::text::push_str(&mut s, "\nRun and build are unlocked.");
        s
    } else {
        let mut s = crate::text::owned("Security audit found ");
        crate::text::push_str(&mut s, crate::text::decimal_string(blockers).as_str());
        crate::text::push_str(&mut s, " blocker(s)\nPolicy: ");
        crate::text::push_str(&mut s, label.as_str());
        crate::text::push_str(&mut s, "\n\n");
        crate::text::push_str(&mut s, diagnostics);
        s
    }
}

} // verus!
