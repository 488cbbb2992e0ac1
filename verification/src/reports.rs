//! The reports the workspace shell prints: terminal status, doctor,
//! permissions, documentation surfaces and module availability.

use vstd::prelude::*;
use crate::manifest::SecurityPolicy;
use crate::paths::{PathView, WorkspacePath};
use crate::text::{decimal, decimal_string, owned, push_str, strings_view};
use crate::workspace::on_off;

verus! {

/// Texts joined by `, `.
pub open spec fn join_comma(items: Seq<Seq<char>>) -> Seq<char>
    decreases items.len(),
{
    if items.len() == 0 {
        Seq::empty()
    } else if items.len() == 1 {
        items[0]
    } else {
        join_comma(items.drop_last()) + ", "@ + items.last()
    }
}

/// Joins texts with `, `.
pub fn join_comma_of(items: &Vec<String>) -> (r: String)
    ensures
        r@ == join_comma(strings_view(items@)),
{
    let ghost v = strings_view(items@);
    let mut s = String::new();
    let mut i: usize = 0;
    while i < items.len()
        invariant
            i <= items@.len(),
            v == strings_view(items@),
            s@ == join_comma(v.take(i as int)),
        decreases items@.len() - i,
    {
        assert(v.take(i + 1).drop_last() =~= v.take(i as int));
        if i > 0 {
            push_str(&mut s, ", ");
        }
        push_str(&mut s, items[i].as_str());
        proof {
            if i == 0 {
                assert(s@ =~= v.take(1)[0]);
            } else {
                assert(s@ =~= join_comma(v.take(i as int)) + ", "@ + v.take(i + 1).last());
            }
        }
        i = i + 1;
    }
    assert(v.take(items@.len() as int) =~= v);
    s
}

/// `on` or `off`.
pub open spec fn on_off_text(enabled: bool) -> Seq<char> {
    if enabled { "on"@ } else { "off"@ }
}

/// The permissions line of the status and doctor reports.
pub open spec fn permission_summary(p: SecurityPolicy) -> Seq<char> {
    "Permissions: strict | fs "@ + on_off_text(p.allow_fs) + " | net "@ + on_off_text(p.allow_network) + " | ai "@
        + on_off_text(p.allow_ai)
}

/// The workspace size line of the status and doctor reports.
pub open spec fn workspace_summary(dirs: nat, files: nat, sources: nat) -> Seq<char> {
    "Workspace: "@ + decimal(dirs) + " folder(s), "@ + decimal(files) + " file(s), "@ + decimal(sources)
        + " .snsx source file(s)"@
}

/// The lines both the status and the doctor report open with.
pub open spec fn report_head(
    title: Seq<char>,
    root: Seq<char>,
    entry: Seq<char>,
    manifest_present: bool,
    p: SecurityPolicy,
    dirs: nat,
    files: nat,
    sources: nat,
) -> Seq<Seq<char>> {
    seq![
        title,
        "Root: "@ + root,
        "Entry: "@ + entry,
        "Manifest: "@ + if manifest_present { "present"@ } else { "missing"@ },
        permission_summary(p),
        workspace_summary(dirs, files, sources),
    ]
}

/// Builds the opening lines of a report.
fn push_report_head(
    r: &mut Vec<String>,
    title: &str,
    root: &str,
    entry: &str,
    manifest_present: bool,
    p: &SecurityPolicy,
    dirs: usize,
    files: usize,
    sources: usize,
)
    ensures
        strings_view(final(r)@) == strings_view(old(r)@) + report_head(
            title@,
            root@,
            entry@,
            manifest_present,
            *p,
            dirs as nat,
            files as nat,
            sources as nat,
        ),
{
    let ghost start = strings_view(r@);
    r.push(owned(title));
    let mut l = owned("Root: ");
    push_str(&mut l, root);
    r.push(l);
    let mut l = owned("Entry: ");
    push_str(&mut l, entry);
    r.push(l);
    let mut l = owned("Manifest: ");
    push_str(&mut l, if manifest_present { "present" } else { "missing" });
    r.push(l);
    let mut l = owned("Permissions: strict | fs ");
    push_str(&mut l, on_off(p.allow_fs));
    push_str(&mut l, " | net ");
    push_str(&mut l, on_off(p.allow_network));
    push_str(&mut l, " | ai ");
    push_str(&mut l, on_off(p.allow_ai));
    r.push(l);
    let mut l = owned("Workspace: ");
    push_str(&mut l, decimal_string(dirs).as_str());
    push_str(&mut l, " folder(s), ");
    push_str(&mut l, decimal_string(files).as_str());
    push_str(&mut l, " file(s), ");
    push_str(&mut l, decimal_string(sources).as_str());
    push_str(&mut l, " .snsx source file(s)");
    r.push(l);
    assert(strings_view(r@) =~= start + report_head(
        title@,
        root@,
        entry@,
        manifest_present,
        *p,
        dirs as nat,
        files as nat,
        sources as nat,
    ));
}

/// The dependencies a report names: `std only` when there are none.
pub open spec fn dependency_text(deps: Seq<Seq<char>>) -> Seq<char> {
    if deps.len() == 0 { "std only"@ } else { join_comma(deps) }
}

/// What `status` prints for a workspace.
pub open spec fn terminal_status_text(
    root: Seq<char>,
    entry: Seq<char>,
    manifest_present: bool,
    p: SecurityPolicy,
    dirs: nat,
    files: nat,
    sources: nat,
    deps: Seq<Seq<char>>,
) -> Seq<Seq<char>> {
    report_head("SNSX terminal status"@, root, entry, manifest_present, p, dirs, files, sources) + seq![
        "Dependencies: "@ + dependency_text(deps),
        Seq::empty(),
        "Suggested terminal commands:"@,
        "  run"@,
        "  audit"@,
        "  package list"@,
        "  module list"@,
    ]
}

/// The `status` report: the workspace root as displayed, the entry file's
/// workspace path, whether the manifest exists, the policy, the counts of
/// folders, files and `.snsx` files, and the manifest's dependencies.
pub fn terminal_status_report(
    root: &str,
    entry: &str,
    manifest_present: bool,
    p: &SecurityPolicy,
    dirs: usize,
    files: usize,
    sources: usize,
    deps: &Vec<String>,
) -> (r: Vec<String>)
    ensures
        strings_view(r@) == terminal_status_text(
            root@,
            entry@,
            manifest_present,
            *p,
            dirs as nat,
            files as nat,
            sources as nat,
            strings_view(deps@),
        ),
{
    let mut r: Vec<String> = Vec::new();
    push_report_head(&mut r, "SNSX terminal status", root, entry, manifest_present, p, dirs, files, sources);
    let ghost head = strings_view(r@);
    let mut l = owned("Dependencies: ");
    if deps.len() == 0 {
        push_str(&mut l, "std only");
    } else {
        push_str(&mut l, join_comma_of(deps).as_str());
    }
    r.push(l);
    r.push(String::new());
    r.push(owned("Suggested terminal commands:"));
    r.push(owned("  run"));
    r.push(owned("  audit"));
    r.push(owned("  package list"));
    r.push(owned("  module list"));
    assert(strings_view(r@) =~= terminal_status_text(
        root@,
        entry@,
        manifest_present,
        *p,
        dirs as nat,
        files as nat,
        sources as nat,
        strings_view(deps@),
    ));
    r
}

/// The audit part of the doctor report: clean when there is no blocker,
/// else their count and the first of them.
pub open spec fn audit_text(blockers: Seq<Seq<char>>) -> Seq<Seq<char>> {
    if blockers.len() == 0 {
        seq!["Audit: clean"@, "Compiler gate: unlocked"@]
    } else {
        seq![
            "Audit: "@ + decimal(blockers.len()) + " blocker(s)"@,
            "Compiler gate: locked until blockers are fixed"@,
            "Top blocker: "@ + blockers[0],
        ]
    }
}

/// What `doctor` prints for a workspace.
pub open spec fn doctor_text(
    root: Seq<char>,
    entry: Seq<char>,
    manifest_present: bool,
    p: SecurityPolicy,
    dirs: nat,
    files: nat,
    sources: nat,
    deps: Seq<Seq<char>>,
    blockers: Seq<Seq<char>>,
) -> Seq<Seq<char>> {
    report_head("SNSX workspace doctor"@, root, entry, manifest_present, p, dirs, files, sources) + seq![
        "Dependencies tracked: "@ + decimal(deps.len()),
        if deps.len() == 0 { "Dependencies: std only"@ } else { "Dependencies: "@ + join_comma(deps) },
        Seq::empty(),
    ] + audit_text(blockers) + seq![
        Seq::empty(),
        "Useful next commands:"@,
        "  outline"@,
        "  find main"@,
        "  search guard"@,
        "  snippet list"@,
    ]
}

/// The `doctor` report: as `status`, with the entry's audit blockers as the
/// compiler reported them (none when the audit is clean).
pub fn doctor_report(
    root: &str,
    entry: &str,
    manifest_present: bool,
    p: &SecurityPolicy,
    dirs: usize,
    files: usize,
    sources: usize,
    deps: &Vec<String>,
    blockers: &Vec<String>,
) -> (r: Vec<String>)
    ensures
        strings_view(r@) == doctor_text(
            root@,
            entry@,
            manifest_present,
            *p,
            dirs as nat,
            files as nat,
            sources as nat,
            strings_view(deps@),
            strings_view(blockers@),
        ),
{
    let mut r: Vec<String> = Vec::new();
    push_report_head(&mut r, "SNSX workspace doctor", root, entry, manifest_present, p, dirs, files, sources);
    let mut l = owned("Dependencies tracked: ");
    push_str(&mut l, decimal_string(deps.len()).as_str());
    r.push(l);
    let mut l = owned("Dependencies: ");
    if deps.len() == 0 {
        push_str(&mut l, "std only");
    } else {
        push_str(&mut l, join_comma_of(deps).as_str());
    }
    r.push(l);
    r.push(String::new());
    if blockers.len() == 0 {
        r.push(owned("Audit: clean"));
        r.push(owned("Compiler gate: unlocked"));
    } else {
        let mut l = owned("Audit: ");
        push_str(&mut l, decimal_string(blockers.len()).as_str());
        push_str(&mut l, " blocker(s)");
        r.push(l);
        r.push(owned("Compiler gate: locked until blockers are fixed"));
        let mut l = owned("Top blocker: ");
        push_str(&mut l, blockers[0].as_str());
        r.push(l);
    }
    r.push(String::new());
    r.push(owned("Useful next commands:"));
    r.push(owned("  outline"));
    r.push(owned("  find main"));
    r.push(owned("  search guard"));
    r.push(owned("  snippet list"));
    proof {
        reveal_strlit("Dependencies: ");
        reveal_strlit("std only");
        reveal_strlit("Dependencies: std only");
        assert("Dependencies: "@ + "std only"@ =~= "Dependencies: std only"@);
    }
    assert(strings_view(r@) =~= doctor_text(
        root@,
        entry@,
        manifest_present,
        *p,
        dirs as nat,
        files as nat,
        sources as nat,
        strings_view(deps@),
        strings_view(blockers@),
    ));
    r
}

/// What `permissions` prints for the entry file's policy.
pub open spec fn permissions_report_text(entry: Seq<char>, p: SecurityPolicy) -> Seq<Seq<char>> {
    seq![
        "SNSX permission policy"@,
        "Entry: "@ + entry,
        "Strict mode: "@ + on_off_text(p.strict),
        "Filesystem: "@ + on_off_text(p.allow_fs),
        "Network: "@ + on_off_text(p.allow_network),
        "AI: "@ + on_off_text(p.allow_ai),
        "Use `perm fs on`, `perm net on`, or `perm ai on` to update the workspace policy."@,
    ]
}

/// The `permissions` report for the entry file, shown as `entry`.
pub fn permissions_report(entry: &str, p: &SecurityPolicy) -> (r: Vec<String>)
    ensures
        strings_view(r@) == permissions_report_text(entry@, *p),
{
    let mut r: Vec<String> = Vec::new();
    r.push(owned("SNSX permission policy"));
    let mut l = owned("Entry: ");
    push_str(&mut l, entry);
    r.push(l);
    let mut l = owned("Strict mode: ");
    push_str(&mut l, on_off(p.strict));
    r.push(l);
    let mut l = owned("Filesystem: ");
    push_str(&mut l, on_off(p.allow_fs));
    r.push(l);
    let mut l = owned("Network: ");
    push_str(&mut l, on_off(p.allow_network));
    r.push(l);
    let mut l = owned("AI: ");
    push_str(&mut l, on_off(p.allow_ai));
    r.push(l);
    r.push(owned("Use `perm fs on`, `perm net on`, or `perm ai on` to update the workspace policy."));
    assert(strings_view(r@) =~= permissions_report_text(entry@, *p));
    r
}

} // verus!

verus! {

/// A path below the repository root.
pub open spec fn below(repo: PathView, parts: Seq<Seq<char>>) -> PathView {
    PathView { absolute: repo.absolute, parts: repo.parts + parts }
}

/// Appends names to a path.
fn path_below(repo: &WorkspacePath, names: &[&'static str]) -> (r: WorkspacePath)
    ensures
        r@ == below(repo@, names@.map_values(|n: &'static str| n@)),
{
    let mut r = crate::paths::clone_path(repo);
    let mut i: usize = 0;
    while i < names.len()
        invariant
            i <= names@.len(),
            r@ == below(repo@, names@.take(i as int).map_values(|n: &'static str| n@)),
        decreases names@.len() - i,
    {
        let ghost before = strings_view(r.parts@);
        r.parts.push(owned(names[i]));
        assert(strings_view(r.parts@) =~= before.push(names@[i as int]@));
        assert(names@.take(i + 1).map_values(|n: &'static str| n@) =~= names@.take(i as int).map_values(|n: &'static str| n@).push(names@[i as int]@));
        i = i + 1;
    }
    assert(names@.take(names@.len() as int) =~= names@);
    r
}

/// The training manual of the repository at `repo`.
pub fn manual_doc_path(repo: &WorkspacePath) -> (r: WorkspacePath)
    ensures
        r@ == below(repo@, seq!["docs"@, "SNSX_Training_Manual.md"@]),
{
    let names: [&'static str; 2] = ["docs", "SNSX_Training_Manual.md"];
    let r = path_below(repo, &names);
    assert(names@.map_values(|n: &'static str| n@) =~= seq!["docs"@, "SNSX_Training_Manual.md"@]);
    r
}

/// The language specification of the repository at `repo`.
pub fn spec_doc_path(repo: &WorkspacePath) -> (r: WorkspacePath)
    ensures
        r@ == below(repo@, seq!["spec"@, "SNSX.md"@]),
{
    let names: [&'static str; 2] = ["spec", "SNSX.md"];
    let r = path_below(repo, &names);
    assert(names@.map_values(|n: &'static str| n@) =~= seq!["spec"@, "SNSX.md"@]);
    r
}

/// The technical specification of the repository at `repo`.
pub fn technical_spec_doc_path(repo: &WorkspacePath) -> (r: WorkspacePath)
    ensures
        r@ == below(repo@, seq!["docs"@, "SNSX_Technical_Specification.md"@]),
{
    let names: [&'static str; 2] = ["docs", "SNSX_Technical_Specification.md"];
    let r = path_below(repo, &names);
    assert(names@.map_values(|n: &'static str| n@) =~= seq!["docs"@, "SNSX_Technical_Specification.md"@]);
    r
}

/// The README of the repository at `repo`.
pub fn readme_doc_path(repo: &WorkspacePath) -> (r: WorkspacePath)
    ensures
        r@ == below(repo@, seq!["README.md"@]),
{
    let names: [&'static str; 1] = ["README.md"];
    let r = path_below(repo, &names);
    assert(names@.map_values(|n: &'static str| n@) =~= seq!["README.md"@]);
    r
}

/// What `docs` prints for the repository at `repo`.
pub open spec fn documentation_text(repo: PathView) -> Seq<Seq<char>> {
    seq![
        "SNSX documentation surfaces:"@,
        "manual    "@ + crate::paths::path_text(below(repo, seq!["docs"@, "SNSX_Training_Manual.md"@])),
        "spec      "@ + crate::paths::path_text(below(repo, seq!["spec"@, "SNSX.md"@])),
        "techspec  "@ + crate::paths::path_text(below(repo, seq!["docs"@, "SNSX_Technical_Specification.md"@])),
        "readme    "@ + crate::paths::path_text(below(repo, seq!["README.md"@])),
        "Web studio routes: /docs/manual /docs/spec /docs/techspec /docs/readme"@,
    ]
}

/// The documentation surfaces of the repository at `repo`.
pub fn documentation_lines(repo: &WorkspacePath) -> (r: Vec<String>)
    ensures
        strings_view(r@) == documentation_text(repo@),
{
    let mut r: Vec<String> = Vec::new();
    r.push(owned("SNSX documentation surfaces:"));
    let mut l = owned("manual    ");
    push_str(&mut l, crate::paths::display_path(&manual_doc_path(repo)).as_str());
    r.push(l);
    let mut l = owned("spec      ");
    push_str(&mut l, crate::paths::display_path(&spec_doc_path(repo)).as_str());
    r.push(l);
    let mut l = owned("techspec  ");
    push_str(&mut l, crate::paths::display_path(&technical_spec_doc_path(repo)).as_str());
    r.push(l);
    let mut l = owned("readme    ");
    push_str(&mut l, crate::paths::display_path(&readme_doc_path(repo)).as_str());
    r.push(l);
    r.push(owned("Web studio routes: /docs/manual /docs/spec /docs/techspec /docs/readme"));
    assert(strings_view(r@) =~= documentation_text(repo@));
    r
}

/// Where a standard module stands in a workspace: copied in, tracked by the
/// manifest only, or `absent`.
pub open spec fn module_state(root: PathView, name: Seq<char>, vendored: bool, installed: Seq<Seq<char>>, absent: Seq<char>) -> Seq<char> {
    if vendored {
        "vendored at "@ + crate::listing::shown(root, crate::paths::vendored_path(root, name))
    } else if installed.contains(name) {
        "tracked in manifest"@
    } else {
        absent
    }
}

/// One line per standard module in byte order, with its state;
/// `vendored[i]` tells whether the i-th module's copy exists.
pub open spec fn module_state_lines(root: PathView, installed: Seq<Seq<char>>, vendored: Seq<bool>, absent: Seq<char>) -> Seq<Seq<char>> {
    Seq::new(10, |i: int| {
        let name = crate::modules::sorted_module_names()[i];
        crate::text::pad_right(name, 16) + seq![' '] + module_state(root, name, vendored[i], installed, absent)
    })
}

/// Appends the module state lines.
fn push_module_states(
    r: &mut Vec<String>,
    root: &WorkspacePath,
    installed: &Vec<String>,
    vendored: &Vec<bool>,
    registry: &crate::modules::ModuleRegistry,
    absent: &str,
)
    requires
        vendored@.len() == 10,
    ensures
        strings_view(final(r)@) == strings_view(old(r)@) + module_state_lines(root@, strings_view(installed@), vendored@, absent@),
{
    let ghost start = strings_view(r@);
    let ghost lines = module_state_lines(root@, strings_view(installed@), vendored@, absent@);
    let names = registry.names();
    let mut k: usize = 0;
    while k < 10
        invariant
            k <= 10,
            vendored@.len() == 10,
            names@.len() == 10,
            forall|j: int| 0 <= j < 10 ==> (#[trigger] names@[j])@ == crate::modules::sorted_module_names()[j],
            lines == module_state_lines(root@, strings_view(installed@), vendored@, absent@),
            strings_view(r@) == start + lines.take(k as int),
        decreases 10 - k,
    {
        let name = names[k];
        let mut line = crate::text::pad_right_string(name, 16);
        crate::text::push_char(&mut line, ' ');
        if vendored[k] {
            push_str(&mut line, "vendored at ");
            let path = crate::paths::vendored_module_path(root, name);
            push_str(&mut line, crate::paths::workspace_path(root, &path).as_str());
        } else if crate::workspace::contains_text(installed, name) {
            push_str(&mut line, "tracked in manifest");
        } else {
            push_str(&mut line, absent);
        }
        let ghost before = strings_view(r@);
        r.push(line);
        assert(line@ == lines[k as int]);
        assert(strings_view(r@) =~= before.push(line@));
        assert(lines.take(k + 1) =~= lines.take(k as int).push(lines[k as int]));
        k = k + 1;
    }
    assert(lines.take(10) =~= lines);
}

/// What `deps` prints: the manifest's dependencies, then where each
/// standard module stands.
pub open spec fn dependencies_report_text(root: PathView, installed: Seq<Seq<char>>, vendored: Seq<bool>) -> Seq<Seq<char>> {
    seq![
        "SNSX dependency report"@,
        if installed.len() == 0 { "Manifest dependencies: std only"@ } else { "Manifest dependencies: "@ + join_comma(installed) },
        Seq::empty(),
        "Built-in module availability:"@,
    ] + module_state_lines(root, installed, vendored, "available"@)
}

/// The `deps` report: `installed` holds the manifest's dependencies in
/// order, `vendored[i]` whether the i-th standard module (in byte order)
/// has been copied into the workspace.
pub fn dependencies_report(
    root: &WorkspacePath,
    installed: &Vec<String>,
    vendored: &Vec<bool>,
    registry: &crate::modules::ModuleRegistry,
) -> (r: Vec<String>)
    requires
        vendored@.len() == 10,
    ensures
        strings_view(r@) == dependencies_report_text(root@, strings_view(installed@), vendored@),
{
    let mut r: Vec<String> = Vec::new();
    r.push(owned("SNSX dependency report"));
    if installed.len() == 0 {
        r.push(owned("Manifest dependencies: std only"));
    } else {
        let mut l = owned("Manifest dependencies: ");
        push_str(&mut l, join_comma_of(installed).as_str());
        r.push(l);
    }
    r.push(String::new());
    r.push(owned("Built-in module availability:"));
    let ghost head = strings_view(r@);
    push_module_states(&mut r, root, installed, vendored, registry, "available");
    assert(strings_view(r@) =~= dependencies_report_text(root@, strings_view(installed@), vendored@));
    r
}

/// What `module list` prints.
pub open spec fn module_list_text(root: PathView, installed: Seq<Seq<char>>, vendored: Seq<bool>) -> Seq<Seq<char>> {
    seq!["SNSX modules:"@] + module_state_lines(root, installed, vendored, "not installed"@)
}

/// The `module list` report, with the same inputs as [`dependencies_report`].
pub fn list_modules(
    root: &WorkspacePath,
    installed: &Vec<String>,
    vendored: &Vec<bool>,
    registry: &crate::modules::ModuleRegistry,
) -> (r: Vec<String>)
    requires
        vendored@.len() == 10,
    ensures
        strings_view(r@) == module_list_text(root@, strings_view(installed@), vendored@),
{
    let mut r: Vec<String> = Vec::new();
    r.push(owned("SNSX modules:"));
    push_module_states(&mut r, root, installed, vendored, registry, "not installed");
    assert(strings_view(r@) =~= module_list_text(root@, strings_view(installed@), vendored@));
    r
}

} // verus!
