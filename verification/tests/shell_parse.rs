use snsx::shell::{parse_shell_command, validate_host_shell_command, ShellCommand, Target};

fn parse(input: &str) -> ShellCommand {
    match parse_shell_command(input) {
        Ok(c) => c,
        Err(e) => panic!("unexpected error: {}", e.message()),
    }
}

fn parse_err(input: &str) -> String {
    match parse_shell_command(input) {
        Ok(c) => panic!("unexpected command: {:?}", c),
        Err(e) => e.message(),
    }
}

#[test]
fn simple_commands_parse() {
    assert!(matches!(parse("help"), ShellCommand::Help));
    assert!(matches!(parse("  ?  "), ShellCommand::Help));
    assert!(matches!(parse("toolbox"), ShellCommand::Tools));
    assert!(matches!(parse("technical-spec"), ShellCommand::TechSpec));
    assert!(matches!(parse("state"), ShellCommand::Status));
    assert!(matches!(parse("policy"), ShellCommand::PermissionsShow));
    assert!(matches!(parse("dependencies"), ShellCommand::DependenciesShow));
    assert!(matches!(parse("security"), ShellCommand::Audit));
    assert!(matches!(parse("manifest"), ShellCommand::ManifestShow));
}

#[test]
fn empty_input_is_refused() {
    assert_eq!(parse_err("   "), "SNSX shell command cannot be empty");
    assert_eq!(parse_err(":"), "SNSX shell command cannot be empty");
    assert_eq!(parse_err("!"), "host shell escape cannot be empty");
    match parse("shell    ") {
        ShellCommand::Host(c) => assert_eq!(c, "shell"),
        other => panic!("{:?}", other),
    }
}

#[test]
fn host_commands() {
    match parse("!git status") {
        ShellCommand::Host(c) => assert_eq!(c, "git status"),
        other => panic!("{:?}", other),
    }
    match parse("shell  ls -la ") {
        ShellCommand::Host(c) => assert_eq!(c, "ls -la"),
        other => panic!("{:?}", other),
    }
    match parse("git status") {
        ShellCommand::Host(c) => assert_eq!(c, "git status"),
        other => panic!("{:?}", other),
    }
    assert_eq!(parse_err(":git status"), "unknown SNSX shell command 'git'");
    assert_eq!(parse_err("snsx frobnicate now"), "unknown SNSX shell command 'frobnicate'");
}

#[test]
fn rest_arguments() {
    match parse("open  src/main.snsx ") {
        ShellCommand::Open(p) => assert_eq!(p, "src/main.snsx"),
        other => panic!("{:?}", other),
    }
    assert_eq!(parse_err("open"), "open <path>");
    assert!(matches!(parse("ls"), ShellCommand::Ls(None)));
    match parse("tree docs") {
        ShellCommand::Tree(Some(p)) => assert_eq!(p, "docs"),
        other => panic!("{:?}", other),
    }
    match parse("grep hello world") {
        ShellCommand::Search(q) => assert_eq!(q, "hello world"),
        other => panic!("{:?}", other),
    }
    assert!(matches!(parse("entry"), ShellCommand::EntryShow));
    match parse("entry app/main.snsx") {
        ShellCommand::EntrySet(p) => assert_eq!(p, "app/main.snsx"),
        other => panic!("{:?}", other),
    }
}

#[test]
fn two_argument_commands() {
    match parse("mv a.snsx b.snsx") {
        ShellCommand::Move { from, to } => {
            assert_eq!(from, "a.snsx");
            assert_eq!(to, "b.snsx");
        }
        other => panic!("{:?}", other),
    }
    assert_eq!(parse_err("cp only"), "cp <from> <to>");
    assert_eq!(parse_err("cp a b c"), "cp <from> <to>");
    match parse("perm net on") {
        ShellCommand::PermSet { name, enabled } => {
            assert_eq!(name, "net");
            assert!(enabled);
        }
        other => panic!("{:?}", other),
    }
    assert_eq!(parse_err("perm ai maybe"), "unknown permission state 'maybe'. Use on/off.");
}

#[test]
fn build_targets() {
    assert!(matches!(parse("build"), ShellCommand::Build(Target::Vm)));
    assert!(matches!(parse("build wasm"), ShellCommand::Build(Target::Wasm)));
    assert!(matches!(parse("build aarch64"), ShellCommand::Build(Target::NativeAarch64)));
    assert_eq!(parse_err("build riscv"), "unknown build target 'riscv'");
}

#[test]
fn grouped_commands() {
    match parse("install package ai-lab") {
        ShellCommand::PackageAdd(p) => assert_eq!(p, "ai-lab"),
        other => panic!("{:?}", other),
    }
    match parse("install std.io") {
        ShellCommand::PackageAdd(p) => assert_eq!(p, "std.io"),
        other => panic!("{:?}", other),
    }
    match parse("remove module std.net") {
        ShellCommand::PackageRemove(p) => assert_eq!(p, "std.net"),
        other => panic!("{:?}", other),
    }
    match parse("new folder src/lib") {
        ShellCommand::Mkdir(p) => assert_eq!(p, "src/lib"),
        other => panic!("{:?}", other),
    }
    assert_eq!(
        parse_err("new thing x"),
        "unknown create target 'thing'. Use `new file <path>` or `new folder <path>`."
    );
    assert!(matches!(parse("pkg list"), ShellCommand::PackageList));
    assert_eq!(parse_err("package"), "package expects `init`, `list`, `add`, or `remove`");
    match parse("module scaffold billing") {
        ShellCommand::ModuleScaffold(p) => assert_eq!(p, "billing"),
        other => panic!("{:?}", other),
    }
    match parse("snippet create mind notes/today") {
        ShellCommand::SnippetCreate { kind, path } => {
            assert_eq!(kind, "mind");
            assert_eq!(path, "notes/today");
        }
        other => panic!("{:?}", other),
    }
    assert_eq!(parse_err("install package"), "install package <name>");
    assert_eq!(parse_err("install"), "install expects a package or module name");
}

#[test]
fn agent_commands() {
    match parse("agent write src/app.snsx build a todo list") {
        ShellCommand::AgentWrite { path, prompt } => {
            assert_eq!(path, "src/app.snsx");
            assert_eq!(prompt, "build a todo list");
        }
        other => panic!("{:?}", other),
    }
    match parse("ai summarize this") {
        ShellCommand::Agent(p) => assert_eq!(p, "summarize this"),
        other => panic!("{:?}", other),
    }
    assert_eq!(parse_err("agent"), "agent expects a prompt or `agent write <path> <prompt>`");
    assert_eq!(parse_err("agent write only"), "agent write <path> <prompt>");
}

#[test]
fn words_are_skipped_whatever_white_space_separates_them() {
    match parse("install  module  std.io") {
        ShellCommand::ModuleInstall(p) => assert_eq!(p, "std.io"),
        other => panic!("{:?}", other),
    }
    match parse("module\u{3000}\u{3000}\u{3000}install x") {
        ShellCommand::ModuleInstall(p) => assert_eq!(p, "x"),
        other => panic!("{:?}", other),
    }
    match parse("new\u{3000}\u{3000}file x") {
        ShellCommand::Touch(p) => assert_eq!(p, "x"),
        other => panic!("{:?}", other),
    }
    match parse("install\tpackage   foo bar ") {
        ShellCommand::PackageAdd(p) => assert_eq!(p, "foo bar"),
        other => panic!("{:?}", other),
    }
    assert_eq!(parse_err("install module"), "install module <name>");
    assert_eq!(parse_err("install module   "), "install module <name>");
    match parse("snippet   create  mind   notes/x") {
        ShellCommand::SnippetCreate { kind, path } => {
            assert_eq!(kind, "mind");
            assert_eq!(path, "notes/x");
        }
        other => panic!("{:?}", other),
    }
}

#[test]
fn documented_package_and_module_actions_parse() {
    assert!(matches!(parse("package init"), ShellCommand::PackageInit));
    assert!(matches!(parse("pkg init"), ShellCommand::PackageInit));
    match parse("module vendor std.net") {
        ShellCommand::ModuleInstall(p) => assert_eq!(p, "std.net"),
        other => panic!("{:?}", other),
    }
    assert_eq!(parse_err("module vendor"), "module vendor <name>");
    assert_eq!(
        parse_err("package publish"),
        "unknown package action 'publish'. Use `package init`, `package list`, `package add`, or `package remove`."
    );
    assert_eq!(
        parse_err("module drop x"),
        "unknown module action 'drop'. Use `module list`, `module vendor`, `module install`, or `module scaffold`."
    );
    assert_eq!(parse_err("module"), "module expects `list`, `vendor`, `install`, or `scaffold`");
}

#[test]
fn documented_permission_actions_parse() {
    assert!(matches!(parse("perm show"), ShellCommand::PermissionsShow));
    match parse("perm grant net") {
        ShellCommand::PermSet { name, enabled } => {
            assert_eq!(name, "net");
            assert!(enabled);
        }
        other => panic!("{:?}", other),
    }
    match parse("permission revoke ai") {
        ShellCommand::PermSet { name, enabled } => {
            assert_eq!(name, "ai");
            assert!(!enabled);
        }
        other => panic!("{:?}", other),
    }
    match parse("perm fs on") {
        ShellCommand::PermSet { name, enabled } => {
            assert_eq!(name, "fs");
            assert!(enabled);
        }
        other => panic!("{:?}", other),
    }
    assert_eq!(parse_err("perm grant"), "perm <fs|net|ai> <on|off>");
}

#[test]
fn host_commands_are_guarded() {
    assert!(validate_host_shell_command("git status").is_ok());
    assert!(validate_host_shell_command("  RM -rf /").is_err());
    assert!(validate_host_shell_command("shutdown").is_err());
    assert!(validate_host_shell_command("rm").is_err());
    assert!(validate_host_shell_command("rmdir x").is_ok());
    match validate_host_shell_command("   ") {
        Err(e) => assert_eq!(e.message(), "host shell command cannot be empty"),
        Ok(()) => panic!("blank command accepted"),
    }
}
