//! Installing and removing packages and modules, and setting permissions:
//! what each changes in the manifest, which module copies it asks for, and
//! what it reports.

use vstd::prelude::*;
use crate::modules::ModuleRegistry;
use crate::paths::{PathView, WorkspacePath};
use crate::shell::ShellError;
use crate::text::{owned, push_str, strings_view, trim};
use crate::workspace::{find_recipe, package_recipes, recipe_import_text, PackageRecipe};

verus! {

/// A change to the workspace manifest.
#[derive(Debug, Clone, PartialEq, Eq)]
pub enum ManifestEdit {
    /// `[dependencies] <name> = "builtin"`.
    SetDependency(String),
    /// Drops `<name>` from `[dependencies]`.
    RemoveDependency(String),
    /// `[permissions] <key> = <value>`.
    SetPermission(String, bool),
}

/// The mathematical value of a manifest change.
pub enum EditView {
    SetDependency(Seq<char>),
    RemoveDependency(Seq<char>),
    SetPermission(Seq<char>, bool),
}

impl View for ManifestEdit {
    type V = EditView;

    open spec fn view(&self) -> EditView {
        match self {
            ManifestEdit::SetDependency(n) => EditView::SetDependency(n@),
            ManifestEdit::RemoveDependency(n) => EditView::RemoveDependency(n@),
            ManifestEdit::SetPermission(k, v) => EditView::SetPermission(k@, *v),
        }
    }
}

/// The values of a list of changes.
pub open spec fn edits_view(v: Seq<ManifestEdit>) -> Seq<EditView> {
    v.map_values(|e: ManifestEdit| e@)
}

/// Whether a module is registered.
pub open spec fn registered(entries: Seq<(Seq<char>, Seq<char>)>, name: Seq<char>) -> bool {
    exists|i: int| 0 <= i < entries.len() && #[trigger] entries[i].0 == name
}

/// What installing one module does: a report line and the manifest changes
/// (the dependency, and the permission that `std.net` and `std.ai` need), or
/// why it cannot be installed.
pub open spec fn module_effect(root: PathView, entries: Seq<(Seq<char>, Seq<char>)>, module: Seq<char>) -> Result<
    (Seq<char>, Seq<EditView>),
    Seq<char>,
> {
    if !registered(entries, module) {
        Err("unknown SNSX stdlib module '"@ + module + "'"@)
    } else {
        let line = "Installed "@ + module + " at "@ + crate::listing::shown(root, crate::paths::vendored_path(root, module));
        let extra = if module == "std.net"@ {
            seq![EditView::SetPermission("net"@, true)]
        } else if module == "std.ai"@ {
            seq![EditView::SetPermission("ai"@, true)]
        } else {
            Seq::empty()
        };
        Ok((line, seq![EditView::SetDependency(module)] + extra))
    }
}

/// What installing modules one after another does, stopping at the first
/// that cannot be installed.
pub open spec fn modules_effect(root: PathView, entries: Seq<(Seq<char>, Seq<char>)>, modules: Seq<Seq<char>>) -> Result<
    (Seq<Seq<char>>, Seq<EditView>),
    Seq<char>,
>
    decreases modules.len(),
{
    if modules.len() == 0 {
        Ok((Seq::empty(), Seq::empty()))
    } else {
        match modules_effect(root, entries, modules.drop_last()) {
            Err(e) => Err(e),
            Ok((lines, edits)) => match module_effect(root, entries, modules.last()) {
                Err(e) => Err(e),
                Ok((line, more)) => Ok((lines.push(line), edits + more)),
            },
        }
    }
}

/// Once installing leading modules fails, installing all of them fails the
/// same way.
proof fn lemma_modules_effect_err(root: PathView, entries: Seq<(Seq<char>, Seq<char>)>, modules: Seq<Seq<char>>, n: int)
    requires
        0 <= n <= modules.len(),
        modules_effect(root, entries, modules.take(n)) is Err,
    ensures
        modules_effect(root, entries, modules) == modules_effect(root, entries, modules.take(n)),
    decreases modules.len(),
{
    if n == modules.len() {
        assert(modules.take(n) =~= modules);
    } else {
        assert(modules.drop_last().take(n) =~= modules.take(n));
        lemma_modules_effect_err(root, entries, modules.drop_last(), n);
    }
}

/// The permission changes a recipe asks for.
pub open spec fn recipe_permission_edits(allow_fs: bool, allow_network: bool, allow_ai: bool) -> Seq<EditView> {
    (if allow_fs { seq![EditView::SetPermission("fs"@, true)] } else { Seq::empty() })
        + (if allow_network { seq![EditView::SetPermission("net"@, true)] } else { Seq::empty() })
        + (if allow_ai { seq![EditView::SetPermission("ai"@, true)] } else { Seq::empty() })
}

/// What `package add` does: its report, the modules whose copies it puts
/// into the workspace, and the manifest changes; or why it fails.
pub struct PlanView {
    pub lines: Seq<Seq<char>>,
    pub vendor: Seq<Seq<char>>,
    pub edits: Seq<EditView>,
}

/// What `package add <spec>` does: a recipe installs its modules and grants
/// its permissions; another name installs that one module.
pub open spec fn install_plan(root: PathView, entries: Seq<(Seq<char>, Seq<char>)>, spec: Seq<char>) -> Result<PlanView, Seq<char>> {
    let name = trim(spec);
    if name.len() == 0 {
        Err("package name cannot be empty"@)
    } else {
        match find_recipe(package_recipes(), name) {
            Some(recipe) => match modules_effect(root, entries, recipe.modules) {
                Err(e) => Err(e),
                Ok((lines, edits)) => Ok(PlanView {
                    lines: seq!["Installing package "@ + recipe.name, recipe.description] + lines + recipe_import_text(
                        recipe.modules,
                    ) + seq!["Manifest updated."@],
                    vendor: recipe.modules,
                    edits: edits + recipe_permission_edits(recipe.allow_fs, recipe.allow_network, recipe.allow_ai),
                }),
            },
            None => match module_effect(root, entries, name) {
                Err(e) => Err(e),
                Ok((line, edits)) => Ok(PlanView {
                    lines: seq![line, "Manifest updated."@],
                    vendor: seq![name],
                    edits,
                }),
            },
        }
    }
}

/// The report, module copies and manifest changes of `package add`.
pub struct InstallPlan {
    pub lines: Vec<String>,
    pub vendor: Vec<String>,
    pub edits: Vec<ManifestEdit>,
}

impl View for InstallPlan {
    type V = PlanView;

    open spec fn view(&self) -> PlanView {
        PlanView { lines: strings_view(self.lines@), vendor: strings_view(self.vendor@), edits: edits_view(self.edits@) }
    }
}

/// What installing one module does.
fn install_module(root: &WorkspacePath, registry: &ModuleRegistry, module: &str) -> (r: Result<(String, Vec<ManifestEdit>), ShellError>)
    ensures
        match r {
            Ok((line, edits)) => module_effect(root@, registry.entries(), module@) == Ok::<(Seq<char>, Seq<EditView>), Seq<char>>(
                (line@, edits_view(edits@)),
            ),
            Err(e) => module_effect(root@, registry.entries(), module@) == Err::<(Seq<char>, Seq<EditView>), Seq<char>>(e@),
        },
{
    proof {
        reveal_strlit("unknown SNSX stdlib module '");
        reveal_strlit("'");
    }
    match registry.source(module) {
        Err(_) => {
            let v = crate::text::chars_of(module);
            Err(ShellError::framed("unknown SNSX stdlib module '", &v, "'"))
        },
        Ok(src) => {
            proof {
                let i = choose|i: int| 0 <= i < registry.entries().len() && registry.entries()[i] == (module@, src@);
                assert(registry.entries()[i].0 == module@);
            }
            let path = crate::paths::vendored_module_path(root, module);
            let mut line = owned("Installed ");
            push_str(&mut line, module);
            push_str(&mut line, " at ");
            push_str(&mut line, crate::paths::workspace_path(root, &path).as_str());
            let mut edits: Vec<ManifestEdit> = Vec::new();
            edits.push(ManifestEdit::SetDependency(owned(module)));
            if crate::text::str_eq(module, "std.net") {
                edits.push(ManifestEdit::SetPermission(owned("net"), true));
            } else if crate::text::str_eq(module, "std.ai") {
                edits.push(ManifestEdit::SetPermission(owned("ai"), true));
            }
            let ghost extra = if module@ == "std.net"@ {
                seq![EditView::SetPermission("net"@, true)]
            } else if module@ == "std.ai"@ {
                seq![EditView::SetPermission("ai"@, true)]
            } else {
                Seq::<EditView>::empty()
            };
            assert(edits_view(edits@) =~= seq![EditView::SetDependency(module@)] + extra);
            Ok((line, edits))
        },
    }
}

/// Appends the permission changes a recipe asks for.
fn push_recipe_permissions(edits: &mut Vec<ManifestEdit>, recipe: &PackageRecipe)
    ensures
        edits_view(final(edits)@) == edits_view(old(edits)@) + recipe_permission_edits(
            recipe.allow_fs,
            recipe.allow_network,
            recipe.allow_ai,
        ),
{
    let ghost start = edits_view(edits@);
    if recipe.allow_fs {
        edits.push(ManifestEdit::SetPermission(owned("fs"), true));
    }
    if recipe.allow_network {
        edits.push(ManifestEdit::SetPermission(owned("net"), true));
    }
    if recipe.allow_ai {
        edits.push(ManifestEdit::SetPermission(owned("ai"), true));
    }
    assert(edits_view(edits@) =~= start + recipe_permission_edits(recipe.allow_fs, recipe.allow_network, recipe.allow_ai));
}

/// What `package add <spec>` does in the workspace at `root`: the report,
/// the modules whose copies go into `vendor/modules`, and the manifest
/// changes, or why nothing is done.
pub fn install_package(root: &WorkspacePath, registry: &ModuleRegistry, spec: &str) -> (r: Result<InstallPlan, ShellError>)
    ensures
        match r {
            Ok(plan) => install_plan(root@, registry.entries(), spec@) == Ok::<PlanView, Seq<char>>(plan@),
            Err(e) => install_plan(root@, registry.entries(), spec@) == Err::<PlanView, Seq<char>>(e@),
        },
{
    let name = crate::text::trim_str(spec);
    if name.unicode_len() == 0 {
        return Err(ShellError::new("package name cannot be empty"));
    }
    match crate::workspace::package_recipe(name.as_str()) {
        Some(recipe) => {
            let ghost rv = recipe@;
            let mut lines: Vec<String> = Vec::new();
            let mut head = owned("Installing package ");
            push_str(&mut head, recipe.name);
            lines.push(head);
            lines.push(owned(recipe.description));
            let ghost head_lines = strings_view(lines@);
            assert(head_lines =~= seq!["Installing package "@ + rv.name, rv.description]);
            let mut edits: Vec<ManifestEdit> = Vec::new();
            let mut vendor: Vec<String> = Vec::new();
            let mut i: usize = 0;
            assert(rv.modules.take(0) =~= Seq::<Seq<char>>::empty());
            assert(strings_view(lines@).skip(2) =~= Seq::<Seq<char>>::empty());
            assert(edits_view(edits@) =~= Seq::<EditView>::empty());
            assert(strings_view(vendor@) =~= Seq::<Seq<char>>::empty());
            while i < recipe.modules.len()
                invariant
                    rv == recipe@,
                    name@ == trim(spec@),
                    name@.len() > 0,
                    find_recipe(package_recipes(), name@) == Some(rv),
                    i <= recipe.modules@.len(),
                    strings_view(vendor@) == rv.modules.take(i as int),
                    modules_effect(root@, registry.entries(), rv.modules.take(i as int)) == Ok::<
                        (Seq<Seq<char>>, Seq<EditView>),
                        Seq<char>,
                    >((strings_view(lines@).skip(2), edits_view(edits@))),
                    strings_view(lines@).take(2) == head_lines,
                    strings_view(lines@).len() >= 2,
                decreases recipe.modules@.len() - i,
            {
                let m = recipe.modules[i];
                assert(rv.modules[i as int] == m@);
                assert(rv.modules.take(i + 1).drop_last() =~= rv.modules.take(i as int));
                assert(rv.modules.take(i + 1).last() == m@);
                match install_module(root, registry, m) {
                    Err(e) => {
                        proof {
                            assert(modules_effect(root@, registry.entries(), rv.modules.take(i + 1)) == Err::<
                                (Seq<Seq<char>>, Seq<EditView>),
                                Seq<char>,
                            >(e@));
                            lemma_modules_effect_err(root@, registry.entries(), rv.modules, i + 1);
                        }
                        return Err(e);
                    },
                    Ok((line, more)) => {
                        let ghost lb = strings_view(lines@);
                        let ghost eb = edits_view(edits@);
                        lines.push(line);
                        assert(strings_view(lines@) =~= lb.push(line@));
                        assert(strings_view(lines@).skip(2) =~= lb.skip(2).push(line@));
                        assert(strings_view(lines@).take(2) =~= lb.take(2));
                        let mut more = more;
                        let ghost mv = edits_view(more@);
                        edits.append(&mut more);
                        assert(edits_view(edits@) =~= eb + mv);
                        let ghost vb = strings_view(vendor@);
                        vendor.push(owned(m));
                        assert(strings_view(vendor@) =~= vb.push(m@));
                    },
                }
                i = i + 1;
            }
            assert(rv.modules.take(recipe.modules@.len() as int) =~= rv.modules);
            let ghost mid = strings_view(lines@);
            let imports = crate::workspace::recipe_import_lines(&recipe);
            let mut k: usize = 0;
            while k < imports.len()
                invariant
                    k <= imports@.len(),
                    strings_view(lines@) == mid + strings_view(imports@).take(k as int),
                decreases imports@.len() - k,
            {
                let ghost lb = strings_view(lines@);
                let item = imports[k].clone();
                lines.push(item);
                assert(strings_view(lines@) =~= lb.push(item@));
                assert(strings_view(imports@).take(k + 1) =~= strings_view(imports@).take(k as int).push(item@));
                k = k + 1;
            }
            assert(strings_view(imports@).take(imports@.len() as int) =~= strings_view(imports@));
            lines.push(owned("Manifest updated."));
            push_recipe_permissions(&mut edits, &recipe);
            let plan = InstallPlan { lines, vendor, edits };
            assert(mid =~= head_lines + mid.skip(2));
            assert(plan@.lines =~= seq!["Installing package "@ + rv.name, rv.description] + mid.skip(2) + recipe_import_text(rv.modules)
                + seq!["Manifest updated."@]);
            Ok(plan)
        },
        None => match install_module(root, registry, name.as_str()) {
            Err(e) => Err(e),
            Ok((line, edits)) => {
                let mut lines: Vec<String> = Vec::new();
                lines.push(line);
                lines.push(owned("Manifest updated."));
                let mut vendor: Vec<String> = Vec::new();
                vendor.push(name);
                let plan = InstallPlan { lines, vendor, edits };
                assert(plan@.lines =~= seq![line@, "Manifest updated."@]);
                assert(plan@.vendor =~= seq![trim(spec@)]);
                Ok(plan)
            },
        },
    }
}

} // verus!

verus! {

/// The modules `package remove <spec>` takes out: a recipe's modules, or
/// the one registered module named, or why there are none.
pub open spec fn removal_targets(entries: Seq<(Seq<char>, Seq<char>)>, spec: Seq<char>) -> Result<Seq<Seq<char>>, Seq<char>> {
    let name = trim(spec);
    if name.len() == 0 {
        Err("package name cannot be empty"@)
    } else {
        match find_recipe(package_recipes(), name) {
            Some(recipe) => Ok(recipe.modules),
            None => if registered(entries, name) {
                Ok(seq![name])
            } else {
                Err("unknown SNSX package or module '"@ + name + "'"@)
            },
        }
    }
}

/// The modules `package remove <spec>` takes out.
pub fn removal_modules(registry: &ModuleRegistry, spec: &str) -> (r: Result<Vec<String>, ShellError>)
    ensures
        match r {
            Ok(v) => removal_targets(registry.entries(), spec@) == Ok::<Seq<Seq<char>>, Seq<char>>(strings_view(v@)),
            Err(e) => removal_targets(registry.entries(), spec@) == Err::<Seq<Seq<char>>, Seq<char>>(e@),
        },
{
    proof {
        reveal_strlit("unknown SNSX package or module '");
        reveal_strlit("'");
    }
    let name = crate::text::trim_str(spec);
    if name.unicode_len() == 0 {
        return Err(ShellError::new("package name cannot be empty"));
    }
    match crate::workspace::package_recipe(name.as_str()) {
        Some(recipe) => {
            let mut v: Vec<String> = Vec::new();
            let mut i: usize = 0;
            while i < recipe.modules.len()
                invariant
                    i <= recipe.modules@.len(),
                    strings_view(v@) == recipe@.modules.take(i as int),
                decreases recipe.modules@.len() - i,
            {
                let ghost before = strings_view(v@);
                v.push(owned(recipe.modules[i]));
                assert(strings_view(v@) =~= before.push(recipe@.modules[i as int]));
                assert(recipe@.modules.take(i + 1) =~= recipe@.modules.take(i as int).push(recipe@.modules[i as int]));
                i = i + 1;
            }
            assert(recipe@.modules.take(recipe@.modules.len() as int) =~= recipe@.modules);
            Ok(v)
        },
        None => match registry.source(name.as_str()) {
            Ok(src) => {
                proof {
                    let i = choose|i: int| 0 <= i < registry.entries().len() && registry.entries()[i] == (name@, src@);
                    assert(registry.entries()[i].0 == name@);
                }
                let mut v: Vec<String> = Vec::new();
                v.push(name);
                assert(strings_view(v@) =~= seq![trim(spec@)]);
                Ok(v)
            },
            Err(_) => {
                let c = crate::text::chars_of(name.as_str());
                Err(ShellError::framed("unknown SNSX package or module '", &c, "'"))
            },
        },
    }
}

/// What `package remove` reports for the modules it takes out;
/// `present[i]` tells whether the i-th module's copy existed and was
/// deleted.
pub open spec fn removal_text(root: PathView, modules: Seq<Seq<char>>, present: Seq<bool>) -> Seq<Seq<char>> {
    Seq::new(
        modules.len(),
        |i: int|
            if present[i] {
                "Removed "@ + crate::listing::shown(root, crate::paths::vendored_path(root, modules[i]))
            } else {
                "Dependency "@ + modules[i] + " removed from manifest"@
            },
    ) + seq!["Manifest updated."@]
}

/// The manifest changes of `package remove`: each module leaves the
/// dependencies.
pub open spec fn removal_edits(modules: Seq<Seq<char>>) -> Seq<EditView> {
    modules.map_values(|m: Seq<char>| EditView::RemoveDependency(m))
}

/// The report and manifest changes of `package remove` for its modules.
pub fn removal_report(root: &WorkspacePath, modules: &Vec<String>, present: &Vec<bool>) -> (r: (Vec<String>, Vec<ManifestEdit>))
    requires
        present@.len() == modules@.len(),
    ensures
        strings_view(r.0@) == removal_text(root@, strings_view(modules@), present@),
        edits_view(r.1@) == removal_edits(strings_view(modules@)),
{
    let ghost mv = strings_view(modules@);
    let ghost all = removal_text(root@, mv, present@);
    let mut lines: Vec<String> = Vec::new();
    let mut edits: Vec<ManifestEdit> = Vec::new();
    let mut i: usize = 0;
    while i < modules.len()
        invariant
            i <= modules@.len(),
            present@.len() == modules@.len(),
            mv == strings_view(modules@),
            all == removal_text(root@, mv, present@),
            strings_view(lines@) == all.take(i as int),
            edits_view(edits@) == removal_edits(mv).take(i as int),
        decreases modules@.len() - i,
    {
        let m = modules[i].as_str();
        let line = if present[i] {
            let path = crate::paths::vendored_module_path(root, m);
            let mut l = owned("Removed ");
            push_str(&mut l, crate::paths::workspace_path(root, &path).as_str());
            l
        } else {
            let mut l = owned("Dependency ");
            push_str(&mut l, m);
            push_str(&mut l, " removed from manifest");
            l
        };
        let ghost lb = strings_view(lines@);
        let ghost eb = edits_view(edits@);
        lines.push(line);
        edits.push(ManifestEdit::RemoveDependency(owned(m)));
        assert(line@ == all[i as int]);
        assert(strings_view(lines@) =~= lb.push(line@));
        assert(all.take(i + 1) =~= all.take(i as int).push(all[i as int]));
        assert(edits_view(edits@) =~= eb.push(EditView::RemoveDependency(mv[i as int])));
        assert(removal_edits(mv).take(i + 1) =~= removal_edits(mv).take(i as int).push(EditView::RemoveDependency(mv[i as int])));
        i = i + 1;
    }
    let ghost lb = strings_view(lines@);
    lines.push(owned("Manifest updated."));
    assert(removal_edits(mv).take(mv.len() as int) =~= removal_edits(mv));
    assert(strings_view(lines@) =~= lb.push("Manifest updated."@));
    assert(all.len() == mv.len() + 1);
    assert(all.take(mv.len() as int).push("Manifest updated."@) =~= all);
    (lines, edits)
}

/// What `perm <name> <on|off>` does: the report and the manifest change, or
/// why the name is not a permission.
pub fn set_permission(name: &str, enabled: bool) -> (r: Result<(Vec<String>, ManifestEdit), ShellError>)
    ensures
        match r {
            Ok((lines, edit)) => {
                &&& permission_key_ok(name@)
                &&& strings_view(lines@) == seq![
                    "Permission "@ + permission_key_of_name(name@) + " set to "@ + (if enabled { "on"@ } else { "off"@ }),
                    "Manifest updated."@,
                ]
                &&& edit@ == EditView::SetPermission(permission_key_of_name(name@), enabled)
            },
            Err(e) => crate::workspace::permission_key(name@) == Err::<Seq<char>, Seq<char>>(e@),
        },
{
    match crate::workspace::permission_key_of(name) {
        Err(e) => Err(e),
        Ok(key) => {
            let lines = crate::workspace::permission_lines(key, enabled);
            Ok((lines, ManifestEdit::SetPermission(owned(key), enabled)))
        },
    }
}

/// Whether a name is a permission.
pub open spec fn permission_key_ok(name: Seq<char>) -> bool {
    crate::workspace::permission_key(name) is Ok
}

/// The manifest key of a permission name.
pub open spec fn permission_key_of_name(name: Seq<char>) -> Seq<char> {
    match crate::workspace::permission_key(name) {
        Ok(k) => k,
        Err(_) => Seq::empty(),
    }
}

/// The package name a new manifest gets: the workspace folder's name with
/// spaces turned into `_`, else `snsx_project`.
pub open spec fn default_package_name(root: PathView) -> Seq<char> {
    match crate::paths::file_name(root) {
        Some(n) => crate::workspace::replace_char(n, ' ', '_'),
        None => "snsx_project"@,
    }
}

/// The package name a new manifest gets.
pub fn package_name_for(root: &WorkspacePath) -> (r: String)
    ensures
        r@ == default_package_name(root@),
{
    match crate::paths::file_name_of(root) {
        Some(n) => {
            let v = crate::text::chars_of(n.as_str());
            let w = crate::workspace::replace_char_of(&v, ' ', '_');
            crate::text::string_of(&w)
        },
        None => owned("snsx_project"),
    }
}

} // verus!

verus! {

/// Each module that installing puts in place is also recorded as a
/// dependency.
proof fn lemma_modules_effect_records(root: PathView, entries: Seq<(Seq<char>, Seq<char>)>, modules: Seq<Seq<char>>)
    requires
        modules_effect(root, entries, modules) is Ok,
    ensures
        forall|i: int| 0 <= i < modules.len() ==> modules_effect(root, entries, modules)->Ok_0.1.contains(
            EditView::SetDependency(#[trigger] modules[i]),
        ),
    decreases modules.len(),
{
    if modules.len() > 0 {
        let prefix = modules.drop_last();
        lemma_modules_effect_records(root, entries, prefix);
        let edits = modules_effect(root, entries, prefix)->Ok_0.1;
        let more = module_effect(root, entries, modules.last())->Ok_0.1;
        let all = edits + more;
        assert forall|i: int| 0 <= i < modules.len() implies all.contains(EditView::SetDependency(#[trigger] modules[i])) by {
            if i < modules.len() - 1 {
                assert(prefix[i] == modules[i]);
                let k = choose|k: int| 0 <= k < edits.len() && edits[k] == EditView::SetDependency(prefix[i]);
                assert(all[k] == edits[k]);
            } else {
                assert(more[0] == EditView::SetDependency(modules.last()));
                assert(all[edits.len() as int] == more[0]);
            }
        }
    }
}

/// `package add` records every module whose copy it puts into the
/// workspace as a dependency of the manifest.
pub proof fn lemma_install_records_dependencies(root: PathView, entries: Seq<(Seq<char>, Seq<char>)>, spec: Seq<char>)
    requires
        install_plan(root, entries, spec) is Ok,
    ensures
        forall|i: int| 0 <= i < install_plan(root, entries, spec)->Ok_0.vendor.len()
            ==> install_plan(root, entries, spec)->Ok_0.edits.contains(
                EditView::SetDependency(#[trigger] install_plan(root, entries, spec)->Ok_0.vendor[i]),
            ),
{
    let name = trim(spec);
    let plan = install_plan(root, entries, spec)->Ok_0;
    match find_recipe(package_recipes(), name) {
        Some(recipe) => {
            lemma_modules_effect_records(root, entries, recipe.modules);
            let edits = modules_effect(root, entries, recipe.modules)->Ok_0.1;
            assert forall|i: int| 0 <= i < plan.vendor.len() implies plan.edits.contains(EditView::SetDependency(#[trigger] plan.vendor[i])) by {
                let k = choose|k: int| 0 <= k < edits.len() && edits[k] == EditView::SetDependency(recipe.modules[i]);
                assert(plan.edits[k] == edits[k]);
            }
        },
        None => {
            assert(plan.edits[0] == EditView::SetDependency(name));
        },
    }
}

/// `package add` grants every permission its recipe asks for.
pub proof fn lemma_install_grants_recipe_permissions(root: PathView, entries: Seq<(Seq<char>, Seq<char>)>, spec: Seq<char>)
    requires
        install_plan(root, entries, spec) is Ok,
        find_recipe(package_recipes(), trim(spec)) is Some,
    ensures
        ({
            let recipe = find_recipe(package_recipes(), trim(spec))->0;
            let edits = install_plan(root, entries, spec)->Ok_0.edits;
            &&& recipe.allow_fs ==> edits.contains(EditView::SetPermission("fs"@, true))
            &&& recipe.allow_network ==> edits.contains(EditView::SetPermission("net"@, true))
            &&& recipe.allow_ai ==> edits.contains(EditView::SetPermission("ai"@, true))
        }),
{
    let recipe = find_recipe(package_recipes(), trim(spec))->0;
    let base = modules_effect(root, entries, recipe.modules)->Ok_0.1;
    let perms = recipe_permission_edits(recipe.allow_fs, recipe.allow_network, recipe.allow_ai);
    let edits = install_plan(root, entries, spec)->Ok_0.edits;
    assert(edits == base + perms);
    let f: Seq<EditView> = if recipe.allow_fs { seq![EditView::SetPermission("fs"@, true)] } else { Seq::empty() };
    let n: Seq<EditView> = if recipe.allow_network { seq![EditView::SetPermission("net"@, true)] } else { Seq::empty() };
    if recipe.allow_fs {
        assert(edits[base.len() as int] == EditView::SetPermission("fs"@, true));
    }
    if recipe.allow_network {
        assert(edits[(base.len() + f.len()) as int] == EditView::SetPermission("net"@, true));
    }
    if recipe.allow_ai {
        assert(edits[(base.len() + f.len() + n.len()) as int] == EditView::SetPermission("ai"@, true));
    }
}

} // verus!
