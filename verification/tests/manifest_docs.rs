use snsx::manifest::{
    apply_manifest_edits, default_manifest, dependency_names, manifest_after_edits, manifest_dependencies,
    manifest_text, parse_manifest, permission_flags, set_manifest_entry, ManifestDoc, TomlEntry, TomlSection,
};
use snsx::modules::ModuleRegistry;
use snsx::packages::{install_package, package_name_for, removal_report, ManifestEdit};
use snsx::paths::WorkspacePath;

fn path(parts: &[&str]) -> WorkspacePath {
    WorkspacePath { absolute: true, parts: parts.iter().map(|p| p.to_string()).collect() }
}

fn modules() -> ModuleRegistry {
    ModuleRegistry::new(["io", "math", "ai", "db", "net", "gfx", "web", "design", "error", "sentinel"])
}

fn table<'a>(doc: &'a ManifestDoc, name: &str) -> &'a Vec<(String, TomlEntry)> {
    match doc.sections.iter().find(|(k, _)| k == name) {
        Some((_, TomlSection::Table(t))) => t,
        other => panic!("no table {name}: {other:?}"),
    }
}

fn text_at(doc: &ManifestDoc, name: &str, key: &str) -> Option<String> {
    table(doc, name).iter().find(|(k, _)| k == key).and_then(|(_, v)| match v {
        TomlEntry::Text(s) => Some(s.clone()),
        _ => None,
    })
}

fn flag_at(doc: &ManifestDoc, name: &str, key: &str) -> Option<bool> {
    table(doc, name).iter().find(|(k, _)| k == key).and_then(|(_, v)| match v {
        TomlEntry::Flag(b) => Some(*b),
        _ => None,
    })
}

#[test]
fn default_manifest_holds_package_permissions_and_std() {
    let doc = default_manifest("demo", "src/main.snsx");
    assert_eq!(text_at(&doc, "package", "name").as_deref(), Some("demo"));
    assert_eq!(text_at(&doc, "package", "version").as_deref(), Some("0.1.0"));
    assert_eq!(text_at(&doc, "package", "entry").as_deref(), Some("src/main.snsx"));
    assert_eq!(flag_at(&doc, "permissions", "fs"), Some(false));
    assert_eq!(flag_at(&doc, "permissions", "net"), Some(false));
    assert_eq!(flag_at(&doc, "permissions", "ai"), Some(true));
    assert_eq!(text_at(&doc, "dependencies", "std").as_deref(), Some("builtin"));
    assert_eq!(permission_flags(&doc), (Some(false), Some(false), Some(true)));
}

#[test]
fn package_add_into_a_workspace_without_a_manifest() {
    let root = path(&["home", "demo"]);
    let plan = install_package(&root, &modules(), "ai-lab").unwrap();
    let doc = manifest_after_edits(None, &package_name_for(&root), "src/main.snsx", &plan.edits).unwrap();
    assert_eq!(text_at(&doc, "package", "entry").as_deref(), Some("src/main.snsx"));
    for dep in ["std", "std.ai", "std.math", "std.design"] {
        assert_eq!(text_at(&doc, "dependencies", dep).as_deref(), Some("builtin"), "{dep}");
    }
    assert_eq!(flag_at(&doc, "permissions", "fs"), Some(false));
    assert_eq!(flag_at(&doc, "permissions", "net"), Some(false));
    assert_eq!(flag_at(&doc, "permissions", "ai"), Some(true));
    let text = manifest_text(doc).unwrap();
    let back: toml::Table = text.parse().unwrap();
    assert_eq!(back["dependencies"]["std.design"].as_str(), Some("builtin"));
    assert_eq!(back["permissions"]["ai"].as_bool(), Some(true));
    assert_eq!(back["package"]["version"].as_str(), Some("0.1.0"));
}

#[test]
fn edits_keep_unknown_entries_and_sort_dependencies() {
    let raw = "title = 3\n[package]\nname = \"x\"\nauthors = [\"a\", \"b\"]\n[dependencies]\nzeta = \"builtin\"\nalpha = \"builtin\"\n";
    let mut doc = parse_manifest(raw).unwrap();
    let edits = vec![
        ManifestEdit::SetDependency("std.net".to_string()),
        ManifestEdit::RemoveDependency("zeta".to_string()),
        ManifestEdit::SetPermission("net".to_string(), true),
    ];
    apply_manifest_edits(&mut doc, &edits).unwrap();
    set_manifest_entry(&mut doc, "src/app.snsx");
    assert_eq!(dependency_names(&doc), vec!["alpha", "std.net"]);
    assert_eq!(flag_at(&doc, "permissions", "net"), Some(true));
    let text = manifest_text(doc).unwrap();
    let back: toml::Table = text.parse().unwrap();
    assert_eq!(back["title"].as_integer(), Some(3));
    assert_eq!(back["package"]["authors"].as_array().map(|a| a.len()), Some(2));
    assert_eq!(back["package"]["entry"].as_str(), Some("src/app.snsx"));
    assert!(back["dependencies"].get("zeta").is_none());
    assert_eq!(manifest_dependencies(raw).unwrap(), vec!["alpha", "zeta"]);
    assert_eq!(manifest_dependencies("x = 1\n").unwrap(), Vec::<String>::new());
    assert!(manifest_dependencies("[dependencies\n").is_err());
}

#[test]
fn edits_on_an_item_that_is_not_a_table_change_nothing() {
    let mut doc = parse_manifest("dependencies = 1\n[permissions]\nfs = true\n").unwrap();
    let edits = vec![
        ManifestEdit::SetPermission("ai".to_string(), false),
        ManifestEdit::SetDependency("std.io".to_string()),
    ];
    let err = apply_manifest_edits(&mut doc, &edits).unwrap_err();
    assert_eq!(err.message, "invalid snsx.toml: [dependencies] must be a table");
    assert_eq!(flag_at(&doc, "permissions", "ai"), None);
    let root = path(&["w"]);
    let (_, removal) = removal_report(&root, &vec!["std.io".to_string()], &vec![false]);
    let fresh = manifest_after_edits(Some("[package]\nname = \"w\"\n"), "w", "main.snsx", &removal).unwrap();
    assert_eq!(dependency_names(&fresh), Vec::<String>::new());
    assert!(manifest_after_edits(Some("[oops"), "w", "main.snsx", &removal).is_err());
}
