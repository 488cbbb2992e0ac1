use snsx::artifacts::{artifact_preview, default_output_path, ArtifactSummary};
use snsx::shell::Target;
use snsx::manifest::SecurityPolicy;
use snsx::modules::ModuleRegistry;
use snsx::packages::{install_package, package_name_for, removal_modules, removal_report, set_permission, ManifestEdit};
use snsx::paths::WorkspacePath;
use snsx::reports::{
    dependencies_report, doctor_report, documentation_lines, join_comma_of, list_modules, manual_doc_path,
    permissions_report, readme_doc_path, spec_doc_path, technical_spec_doc_path, terminal_status_report,
};
use snsx::web::WebStudioOptions;

fn path(parts: &[&str]) -> WorkspacePath {
    WorkspacePath { absolute: true, parts: parts.iter().map(|p| p.to_string()).collect() }
}

fn registry() -> ModuleRegistry {
    ModuleRegistry::new(["io", "math", "ai", "db", "net", "gfx", "web", "design", "error", "sentinel"])
}

fn policy() -> SecurityPolicy {
    SecurityPolicy { strict: true, allow_fs: false, allow_network: true, allow_ai: true }
}

#[test]
fn comma_joined_dependencies() {
    assert_eq!(join_comma_of(&vec![]), "");
    assert_eq!(join_comma_of(&vec!["std".to_string(), "std.io".to_string()]), "std, std.io");
}

#[test]
fn terminal_status_lists_the_workspace() {
    let deps = vec!["std".to_string(), "std.io".to_string()];
    assert_eq!(
        terminal_status_report("/w", "main.snsx", true, &policy(), 2, 5, 3, &deps),
        vec![
            "SNSX terminal status",
            "Root: /w",
            "Entry: main.snsx",
            "Manifest: present",
            "Permissions: strict | fs off | net on | ai on",
            "Workspace: 2 folder(s), 5 file(s), 3 .snsx source file(s)",
            "Dependencies: std, std.io",
            "",
            "Suggested terminal commands:",
            "  run",
            "  audit",
            "  package list",
            "  module list",
        ]
    );
    let lines = terminal_status_report("/w", "main.snsx", false, &policy(), 0, 1, 1, &vec![]);
    assert_eq!(lines[3], "Manifest: missing");
    assert_eq!(lines[6], "Dependencies: std only");
}

#[test]
fn doctor_reports_audit_blockers() {
    let clean = doctor_report("/w", "main.snsx", true, &policy(), 1, 2, 1, &vec![], &vec![]);
    assert_eq!(clean[6], "Dependencies tracked: 0");
    assert_eq!(clean[7], "Dependencies: std only");
    assert_eq!(clean[8], "");
    assert_eq!(clean[9], "Audit: clean");
    assert_eq!(clean[10], "Compiler gate: unlocked");
    assert_eq!(clean[clean.len() - 1], "  snippet list");
    let blocked = doctor_report(
        "/w",
        "main.snsx",
        true,
        &policy(),
        1,
        2,
        1,
        &vec!["std.io".to_string()],
        &vec!["net call without permission".to_string(), "second".to_string()],
    );
    assert_eq!(blocked[0], "SNSX workspace doctor");
    assert_eq!(blocked[7], "Dependencies: std.io");
    assert_eq!(blocked[9], "Audit: 2 blocker(s)");
    assert_eq!(blocked[10], "Compiler gate: locked until blockers are fixed");
    assert_eq!(blocked[11], "Top blocker: net call without permission");
    assert_eq!(blocked.len(), 18);
}

#[test]
fn permissions_report_lines() {
    assert_eq!(
        permissions_report("/w/main.snsx", &policy()),
        vec![
            "SNSX permission policy",
            "Entry: /w/main.snsx",
            "Strict mode: on",
            "Filesystem: off",
            "Network: on",
            "AI: on",
            "Use `perm fs on`, `perm net on`, or `perm ai on` to update the workspace policy.",
        ]
    );
}

#[test]
fn documentation_surfaces() {
    let repo = path(&["repo"]);
    assert_eq!(manual_doc_path(&repo).parts, vec!["repo", "docs", "SNSX_Training_Manual.md"]);
    assert_eq!(spec_doc_path(&repo).parts, vec!["repo", "spec", "SNSX.md"]);
    assert_eq!(technical_spec_doc_path(&repo).parts, vec!["repo", "docs", "SNSX_Technical_Specification.md"]);
    assert_eq!(readme_doc_path(&repo).parts, vec!["repo", "README.md"]);
    assert_eq!(
        documentation_lines(&repo),
        vec![
            "SNSX documentation surfaces:",
            "manual    /repo/docs/SNSX_Training_Manual.md",
            "spec      /repo/spec/SNSX.md",
            "techspec  /repo/docs/SNSX_Technical_Specification.md",
            "readme    /repo/README.md",
            "Web studio routes: /docs/manual /docs/spec /docs/techspec /docs/readme",
        ]
    );
}

#[test]
fn module_availability() {
    let root = path(&["w"]);
    let mut vendored = vec![false; 10];
    vendored[0] = true;
    let installed = vec!["std.io".to_string()];
    let deps = dependencies_report(&root, &installed, &vendored, &registry());
    assert_eq!(deps[0], "SNSX dependency report");
    assert_eq!(deps[1], "Manifest dependencies: std.io");
    assert_eq!(deps[3], "Built-in module availability:");
    assert_eq!(deps[4], format!("{:<16} {}", "std.ai", "vendored at vendor/modules/std/ai.snsx"));
    assert_eq!(deps[5], format!("{:<16} {}", "std.db", "available"));
    assert_eq!(deps[9], format!("{:<16} {}", "std.io", "tracked in manifest"));
    assert_eq!(deps.len(), 14);
    let modules = list_modules(&root, &vec![], &vec![false; 10], &registry());
    assert_eq!(modules[0], "SNSX modules:");
    assert_eq!(modules[1], format!("{:<16} {}", "std.ai", "not installed"));
    assert_eq!(modules[10], format!("{:<16} {}", "std.web", "not installed"));
}

#[test]
fn installing_a_recipe() {
    let root = path(&["w"]);
    let plan = install_package(&root, &registry(), " foundation ").unwrap();
    assert_eq!(
        plan.lines,
        vec![
            "Installing package foundation",
            "Base console and math surfaces for most SNSX projects.",
            "Installed std.io at vendor/modules/std/io.snsx",
            "Installed std.math at vendor/modules/std/math.snsx",
            "Recommended import:",
            "bring <module/std.io>",
            "bring <module/std.math>",
            "Manifest updated.",
        ]
    );
    assert_eq!(plan.vendor, vec!["std.io", "std.math"]);
    assert_eq!(
        plan.edits,
        vec![ManifestEdit::SetDependency("std.io".to_string()), ManifestEdit::SetDependency("std.math".to_string())]
    );
    let ai = install_package(&root, &registry(), "ai-lab").unwrap();
    assert_eq!(
        ai.edits,
        vec![
            ManifestEdit::SetDependency("std.ai".to_string()),
            ManifestEdit::SetPermission("ai".to_string(), true),
            ManifestEdit::SetDependency("std.math".to_string()),
            ManifestEdit::SetDependency("std.design".to_string()),
            ManifestEdit::SetPermission("ai".to_string(), true),
        ]
    );
    assert_eq!(ai.lines[8], "bring <lib/std.design>");
}

#[test]
fn installing_a_single_module() {
    let root = path(&["w"]);
    let plan = install_package(&root, &registry(), "std.net").unwrap();
    assert_eq!(plan.lines, vec!["Installed std.net at vendor/modules/std/net.snsx", "Manifest updated."]);
    assert_eq!(plan.vendor, vec!["std.net"]);
    assert_eq!(
        plan.edits,
        vec![ManifestEdit::SetDependency("std.net".to_string()), ManifestEdit::SetPermission("net".to_string(), true)]
    );
    assert_eq!(install_package(&root, &registry(), "   ").err().unwrap().message(), "package name cannot be empty");
    assert_eq!(
        install_package(&root, &registry(), "nope").err().unwrap().message(),
        "unknown SNSX stdlib module 'nope'"
    );
}

#[test]
fn removing_packages() {
    let root = path(&["w"]);
    assert_eq!(removal_modules(&registry(), "secure-core").unwrap(), vec!["std.error", "std.sentinel"]);
    assert_eq!(removal_modules(&registry(), " std.db ").unwrap(), vec!["std.db"]);
    assert_eq!(
        removal_modules(&registry(), "bogus").unwrap_err().message(),
        "unknown SNSX package or module 'bogus'"
    );
    assert_eq!(removal_modules(&registry(), "").unwrap_err().message(), "package name cannot be empty");
    let modules = vec!["std.error".to_string(), "std.sentinel".to_string()];
    let (lines, edits) = removal_report(&root, &modules, &vec![true, false]);
    assert_eq!(
        lines,
        vec![
            "Removed vendor/modules/std/error.snsx",
            "Dependency std.sentinel removed from manifest",
            "Manifest updated.",
        ]
    );
    assert_eq!(
        edits,
        vec![
            ManifestEdit::RemoveDependency("std.error".to_string()),
            ManifestEdit::RemoveDependency("std.sentinel".to_string()),
        ]
    );
}

#[test]
fn setting_permissions() {
    let (lines, edit) = set_permission("network", true).unwrap();
    assert_eq!(lines, vec!["Permission net set to on", "Manifest updated."]);
    assert_eq!(edit, ManifestEdit::SetPermission("net".to_string(), true));
    let (lines, edit) = set_permission("fs", false).unwrap();
    assert_eq!(lines[0], "Permission fs set to off");
    assert_eq!(edit, ManifestEdit::SetPermission("fs".to_string(), false));
    assert_eq!(set_permission("gpu", true).unwrap_err().message(), "unknown permission 'gpu'. Use fs, net, or ai.");
}

#[test]
fn default_package_names() {
    assert_eq!(package_name_for(&path(&["home", "me", "my proj"])), "my_proj");
    assert_eq!(package_name_for(&path(&[])), "snsx_project");
}

#[test]
fn web_studio_defaults() {
    let o = WebStudioOptions::default();
    assert_eq!(o.host, "127.0.0.1");
    assert_eq!(o.port, 8860);
    assert!(!o.auto_open);
    assert!(!o.app_mode);
}

#[test]
fn build_outputs_go_to_dist_beside_the_entry() {
    let root = path(&["w"]);
    let entry = path(&["w", "src", "main.snsx"]);
    assert_eq!(default_output_path(&entry, &root, Target::Vm).parts, vec!["w", "src", "dist", "main.snsxbc"]);
    assert_eq!(default_output_path(&entry, &root, Target::NativeX86_64).parts, vec!["w", "src", "dist", "main.x86_64.s"]);
    let dotted = path(&["w", "app.v2.snsx"]);
    assert_eq!(default_output_path(&dotted, &root, Target::Wasm).parts, vec!["w", "dist", "app.v2.wat"]);
    let hidden = path(&["w", ".hidden"]);
    assert_eq!(default_output_path(&hidden, &root, Target::Llvm).parts, vec!["w", "dist", ".hidden.ll"]);
    let bare = path(&[]);
    assert_eq!(default_output_path(&bare, &root, Target::Vm).parts, vec!["w", "dist", "main.snsxbc"]);
}

#[test]
fn artifact_previews() {
    assert_eq!(
        artifact_preview(&ArtifactSummary::Bytecode { symbols: 3, functions: 2, entry: 1 }, 14),
        vec!["Bytecode preview:", "Symbols: 3", "Functions: 2", "Entry symbol index: 1"]
    );
    assert_eq!(artifact_preview(&ArtifactSummary::Binary(42), 14), vec!["Binary artifact preview:", "Bytes: 42"]);
    let text = (1..=20).map(|i| format!("line {i}")).collect::<Vec<_>>().join("\n");
    let preview = artifact_preview(&ArtifactSummary::Text(text), 14);
    assert_eq!(preview.len(), 15);
    assert_eq!(preview[0], "Artifact preview:");
    assert_eq!(preview[14], "line 14");
}

#[test]
fn installing_records_every_vendored_module_as_a_dependency() {
    let root = path(&["w"]);
    for spec in ["foundation", "ai-lab", "secure-core", "web-console", "network-grid", "std.gfx"] {
        let plan = install_package(&root, &registry(), spec).unwrap();
        for module in &plan.vendor {
            assert!(plan.edits.contains(&ManifestEdit::SetDependency(module.clone())), "{spec}: {module}");
        }
    }
    let grid = install_package(&root, &registry(), "network-grid").unwrap();
    assert!(grid.edits.contains(&ManifestEdit::SetPermission("net".to_string(), true)));
}

#[test]
fn runs_act_on_the_open_source_file() {
    let root = path(&["w"]);
    let entry = path(&["w", "src", "main.snsx"]);
    let other = path(&["w", "src", "tool.snsx"]);
    let notes = path(&["w", "notes.md"]);
    let manifest = path(&["w", "snsx.toml"]);
    let dotted = path(&["w", ".snsx"]);
    assert_eq!(snsx::artifacts::execution_target(&other, &entry, &root).parts, other.parts);
    assert_eq!(snsx::artifacts::execution_target(&notes, &entry, &root).parts, entry.parts);
    assert_eq!(snsx::artifacts::execution_target(&manifest, &entry, &root).parts, entry.parts);
    assert_eq!(snsx::artifacts::execution_target(&dotted, &entry, &root).parts, entry.parts);
}

#[test]
fn waiting_programs_show_their_output_and_trace() {
    let request = snsx::vm::InputRequest { stdout: "Name?\n".to_string(), trace: vec!["call main".to_string()], consumed_lines: 1 };
    assert_eq!(
        snsx::artifacts::input_request_lines(&request),
        vec!["Name?", "", "Program is waiting for input line 2.", "", "Trace:", "call main"]
    );
    let quiet = snsx::vm::InputRequest { stdout: "  \n".to_string(), trace: vec![], consumed_lines: 0 };
    assert_eq!(
        snsx::artifacts::input_request_lines(&quiet),
        vec!["Program is waiting for input", "", "Program is waiting for input line 1."]
    );
}
