use snsx::modules::ModuleRegistry;
use snsx::shell::{
    history_lines, parse_shell_command, shell_help_lines, snippet_catalog, snippet_list_lines, ShellCommand, Target,
};
use snsx::web::{command_label, parse_outline_item, parse_search_hit, render_doc_page};
use snsx::workspace::{
    agent_relative_path, import_surface, is_hidden_workspace_entry, is_searchable_text_file, list_packages,
    module_relative_path, module_template, outline_lines, package_recipe, permission_key_of, sanitize_symbol_name,
    snippet_relative_path, snippet_template, stem_title, trim_search_line,
};

fn registry() -> ModuleRegistry {
    ModuleRegistry::new(["io", "math", "ai", "db", "net", "gfx", "web", "design", "error", "sentinel"])
}

#[test]
fn symbol_names_are_sanitized() {
    assert_eq!(sanitize_symbol_name("My File-2"), "my_file_2");
    assert_eq!(sanitize_symbol_name("9lives"), "m_9lives");
    assert_eq!(sanitize_symbol_name(""), "module");
    assert_eq!(sanitize_symbol_name("ok_name"), "ok_name");
    assert_eq!(stem_title("my_new_mod"), "my new mod");
}

#[test]
fn snippet_and_module_paths() {
    assert_eq!(snippet_relative_path(" demo ").unwrap(), "demo.snsx");
    assert_eq!(snippet_relative_path("src\\x.snsx").unwrap(), "src/x.snsx");
    assert_eq!(snippet_relative_path("  ").unwrap_err().message(), "snippet create expects a target path");
    assert_eq!(module_relative_path("util").unwrap(), "modules/util.snsx");
    assert_eq!(module_relative_path("modules/net/x").unwrap(), "modules/net/x.snsx");
    assert_eq!(module_relative_path("").unwrap_err().message(), "module scaffold expects a module name or path");
    assert_eq!(agent_relative_path(Some("  "), "apps/a"), "apps/a.snsx");
    assert_eq!(agent_relative_path(Some(" b.snsx "), "apps/a"), "b.snsx");
    assert_eq!(agent_relative_path(None, "apps\\a.snsx"), "apps/a.snsx");
}

#[test]
fn templates() {
    assert_eq!(
        snippet_template("starter", "x", "Hello").unwrap(),
        "bring <module/std.io> as io\n\nentry\n    show \"Hello\"\n    0\n"
    );
    assert_eq!(
        snippet_template("worker", "job", "Job").unwrap(),
        "flow work_job\n    takes x: Int\n    gives Int\n    x * 10\n\nentry\n    hold task = launch work_job(7)\n    hold value = wait task\n    show value\n    0\n"
    );
    assert_eq!(
        snippet_template("zzz", "x", "y").unwrap_err().message(),
        "unknown snippet 'zzz'. Use starter, mind, service, design, worker, or tensor."
    );
    assert_eq!(
        module_template("util", "util"),
        "bring <module/std.io> as io\n\nflow util\n    gives Int\n    show \"util\"\n    0\n"
    );
}

#[test]
fn outlines_list_declarations() {
    let source = "bring <module/std.io> as io\n\nflow greet\n  takes name: String\nagent helper:\nentry\n  guard x, \"y\"\n";
    assert_eq!(
        outline_lines("src/main.snsx", source),
        vec![
            "Outline for src/main.snsx".to_string(),
            format!("{:>4} import  {}", 1, "<module/std.io> as io"),
            format!("{:>4} flow    {}", 3, "greet"),
            format!("{:>4} agent   {}", 5, "helper"),
            format!("{:>4} entry", 6),
            format!("{:>4} guard", 7),
        ]
    );
    assert_eq!(
        outline_lines("a.txt", "just text"),
        vec!["Outline for a.txt", "No SNSX declarations detected in this file."]
    );
}

#[test]
fn workspace_predicates() {
    assert!(is_hidden_workspace_entry(".git"));
    assert!(is_hidden_workspace_entry("dist"));
    assert!(!is_hidden_workspace_entry("src"));
    assert!(is_searchable_text_file(Some("snsx")));
    assert!(is_searchable_text_file(Some("yml")));
    assert!(!is_searchable_text_file(Some("png")));
    assert!(!is_searchable_text_file(None));
    assert_eq!(trim_search_line("   spaced   ", "x"), "spaced");
    assert_eq!(import_surface("std.sentinel"), "lib");
    assert_eq!(import_surface("std.error"), "package");
    assert_eq!(import_surface("std.io"), "module");
    assert_eq!(permission_key_of("filesystem").unwrap(), "fs");
    assert_eq!(permission_key_of("ai").unwrap(), "ai");
}

#[test]
fn package_listing() {
    let lines = list_packages(&vec!["std.io".to_string()], &registry());
    assert_eq!(lines[0], "Built-in SNSX packages:");
    assert_eq!(
        lines[1],
        format!("bundle {:<14} {}", "foundation", "Base console and math surfaces for most SNSX projects.")
    );
    assert_eq!(lines[6], "");
    assert_eq!(lines[7], "Installable stdlib modules:");
    assert_eq!(lines[8], format!("module {:<16} {}", "std.ai", "available"));
    assert_eq!(lines[13], format!("module {:<16} {}", "std.io", "installed"));
    assert_eq!(lines.len(), 18);
    let recipe = package_recipe("network-grid").unwrap();
    assert_eq!(recipe.modules, vec!["std.net", "std.error", "std.sentinel"]);
    assert!(recipe.allow_network);
    assert!(package_recipe("nope").is_none());
}

#[test]
fn registry_sources() {
    let r = registry();
    assert_eq!(r.source("std.net").unwrap(), "net");
    assert_eq!(r.source("std.nope").unwrap_err().name, "std.nope");
    assert_eq!(r.source("std.nope").unwrap_err().message(), "unknown stdlib module 'std.nope'");
    assert_eq!(r.source("io").unwrap_err().message(), "unknown stdlib module 'io'");
    assert!(r.source("std.io").is_ok());
    assert_eq!(
        r.names(),
        vec!["std.ai", "std.db", "std.design", "std.error", "std.gfx", "std.io", "std.math", "std.net", "std.sentinel", "std.web"]
    );
}

#[test]
fn shell_listings() {
    assert_eq!(shell_help_lines()[0], "SNSX shell commands:");
    assert_eq!(snippet_catalog().len(), 6);
    assert_eq!(snippet_catalog()[0].name, "starter");
    let lines = snippet_list_lines();
    assert_eq!(lines[0], "SNSX snippets:");
    assert_eq!(lines[1], format!("{:<8} {}", snippet_catalog()[0].name, snippet_catalog()[0].description));
    assert_eq!(history_lines(&vec![]), vec!["SNSX shell history:", "(no commands yet)"]);
    assert_eq!(
        history_lines(&vec!["ls".to_string(), "tree src".to_string()]),
        vec!["SNSX shell history:".to_string(), format!("{:>3}  {}", 1, "ls"), format!("{:>3}  {}", 2, "tree src")]
    );
}

#[test]
fn command_labels_read_back_as_the_same_command() {
    for text in [
        "help",
        "ls",
        "tree src",
        "open src/main.snsx",
        "build wasm",
        "mv a b",
        "cp a b",
        "perm net on",
        "package add foundation",
        "snippet create mind notes/a",
        "agent write apps/x build me a todo app",
        "!git status",
        "entry",
        "manifest",
    ] {
        let parsed = parse_shell_command(text).unwrap();
        let label = command_label(&parsed);
        assert_eq!(label, text);
        let again = parse_shell_command(&label).unwrap();
        assert_eq!(command_label(&again), label);
    }
    assert!(matches!(parse_shell_command("build").unwrap(), ShellCommand::Build(Target::Vm)));
    assert_eq!(command_label(&ShellCommand::Build(Target::NativeAarch64)), "build native-aarch64");
}

#[test]
fn web_records_read_back_from_lines() {
    let hit = parse_search_hit("src/a:b.snsx:12 | hold x = 1").unwrap();
    assert_eq!(hit.path, "src/a:b.snsx");
    assert_eq!(hit.line, Some(12));
    assert_eq!(hit.excerpt, "hold x = 1");
    let odd = parse_search_hit("file:abc | x").unwrap();
    assert_eq!(odd.line, None);
    assert!(parse_search_hit("no separator").is_none());
    let item = parse_outline_item("   3 flow    greet the user").unwrap();
    assert_eq!((item.line, item.kind.as_str(), item.label.as_str()), (3, "flow", "greet the user"));
    assert!(parse_outline_item("Outline for x").is_none());
    let page = render_doc_page("Manual", "a < b");
    assert!(page.contains("<pre>a &lt; b</pre>"));
    assert!(page.contains("Manual"));
}
