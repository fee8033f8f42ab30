use rune::executor::CommandExecutor;
use rune::plugin::Plugin;
use rune::registry::PluginDatabase;
use rune::run::{
    build_command_args, command_for, find_script, load_plugin_by_name,
    load_plugin_for_extension, resolve, run, run_selected, select_plugin_interactive,
    selection_menu, selection_prompt, Resolution, RunError, RunStep,
};
use rune::script::Script;
use rune::template::{expand, expand_args};
use std::path::PathBuf;

fn bare(name: &str, executor: &str, extensions: &[&str]) -> Plugin {
    Plugin {
        name: name.to_string(),
        executor: executor.to_string(),
        arg_template: vec!["{file}".to_string()],
        extensions: extensions.iter().map(|x| x.to_string()).collect(),
        description: "".to_string(),
        author: "".to_string(),
        version: "".to_string(),
        requires: vec![],
    }
}

fn pythons() -> PluginDatabase {
    let mut db = PluginDatabase::new();
    db.add_plugin(bare("python", "python3", &["py"])).unwrap();
    db.add_plugin(bare("pypy", "pypy3", &["py"])).unwrap();
    db
}

fn script(name: &str, extension: &str) -> Script {
    Script {
        name: name.to_string(),
        extension: extension.to_string(),
        path: PathBuf::from(format!("/scripts/{}.{}", name, extension)),
    }
}

fn candidates(db: &PluginDatabase, extension: &str) -> Vec<Plugin> {
    match load_plugin_for_extension(db, extension) {
        Ok(Resolution::Ambiguous(found)) => found,
        other => panic!("unexpected: {:?}", other),
    }
}

#[test]
fn auto_mode_with_two_candidates_asks() {
    let db = pythons();
    let found = candidates(&db, "py");
    let names: Vec<&str> = found.iter().map(|p| p.name.as_str()).collect();
    assert_eq!(names, vec!["pypy", "python"]);
}

#[test]
fn input_two_selects_the_second_candidate() {
    let db = pythons();
    let found = candidates(&db, "py");
    let chosen = select_plugin_interactive(&found, Some("2")).unwrap();
    assert_eq!(chosen.name, "python");
    assert_eq!(chosen.executor, "python3");
}

#[test]
fn input_one_selects_the_first_candidate() {
    let db = pythons();
    let found = candidates(&db, "py");
    let chosen = select_plugin_interactive(&found, Some("1\n")).unwrap();
    assert_eq!(chosen.name, "pypy");
}

#[test]
fn input_zero_three_and_text_fail() {
    let db = pythons();
    let found = candidates(&db, "py");
    for input in ["0", "3", "abc"] {
        match select_plugin_interactive(&found, Some(input)) {
            Err(RunError::InvalidSelection) => {}
            other => panic!("for {:?}: {:?}", input, other),
        }
    }
}

#[test]
fn unreadable_input_fails() {
    let db = pythons();
    let found = candidates(&db, "py");
    match select_plugin_interactive(&found, None) {
        Err(RunError::InvalidSelection) => {}
        other => panic!("unexpected: {:?}", other),
    }
    assert_eq!(RunError::InvalidSelection.message(), "Invalid selection");
}

#[test]
fn selection_agrees_with_the_standard_parse() {
    let db = pythons();
    let found = candidates(&db, "py");
    let inputs = [
        "", " ", "1", " 1 ", "\t2\r\n", "+1", "+ 1", "++1", "-1", "-0", "01", "002", "1.0", "1 2",
        "２", "2x", "x2", "0x1", "99999999999999999999999999", "18446744073709551616", "+", "\u{a0}2\u{3000}",
        "\u{85}1", "1\u{200b}", "1e0", "١",
    ];
    for input in inputs {
        let expected = input
            .trim()
            .parse::<usize>()
            .ok()
            .and_then(|n| if n > 0 && n <= found.len() { Some(n - 1) } else { None });
        let got = select_plugin_interactive(&found, Some(input));
        match (expected, got) {
            (Some(i), Ok(p)) => assert_eq!(p.name, found[i].name, "for {:?}", input),
            (None, Err(RunError::InvalidSelection)) => {}
            (want, got) => panic!("for {:?}: wanted {:?}, got {:?}", input, want, got),
        }
    }
}

#[test]
fn auto_mode_with_one_candidate_uses_it() {
    let mut db = PluginDatabase::new();
    db.add_plugin(bare("bash", "bash", &["sh"])).unwrap();
    db.add_plugin(bare("python", "python3", &["py"])).unwrap();
    match resolve(&db, "sh", None) {
        Ok(Resolution::Chosen(p)) => assert_eq!(p.name, "bash"),
        other => panic!("unexpected: {:?}", other),
    }
}

#[test]
fn auto_mode_without_a_candidate_fails() {
    let db = pythons();
    match resolve(&db, "rb", None) {
        Err(RunError::NoPlugin(extension)) => assert_eq!(extension, "rb"),
        other => panic!("unexpected: {:?}", other),
    }
    assert_eq!(
        resolve(&db, "rb", None).unwrap_err().message(),
        "No plugin found for extension '.rb'.\nUse 'rune plugin list' to see available plugins or 'rune plugin add <source>' to add a new plugin."
    );
}

#[test]
fn explicit_plugin_that_is_unknown() {
    let db = pythons();
    match resolve(&db, "py", Some("ruby")) {
        Err(RunError::PluginNotFound(name)) => assert_eq!(name, "ruby"),
        other => panic!("unexpected: {:?}", other),
    }
    assert_eq!(
        load_plugin_by_name(&db, "ruby").unwrap_err().message(),
        "Plugin 'ruby' not found.\nUse 'rune plugin list' to see available plugins."
    );
}

#[test]
fn explicit_plugin_that_claims_the_extension() {
    let db = pythons();
    match resolve(&db, "py", Some("pypy")) {
        Ok(Resolution::Chosen(p)) => {
            assert_eq!(p.name, "pypy");
            assert_eq!(p.executor, "pypy3");
        }
        other => panic!("unexpected: {:?}", other),
    }
}

#[test]
fn explicit_plugin_without_the_extension_is_a_mismatch() {
    let mut db = pythons();
    db.add_plugin(bare("shell", "sh", &["sh", "bash", "zsh"])).unwrap();
    match resolve(&db, "py", Some("shell")) {
        Err(RunError::Unsupported { plugin, extension, supported }) => {
            assert_eq!(plugin, "shell");
            assert_eq!(extension, "py");
            assert_eq!(supported, vec!["sh", "bash", "zsh"]);
        }
        other => panic!("unexpected: {:?}", other),
    }
    assert_eq!(
        resolve(&db, "py", Some("shell")).unwrap_err().message(),
        "Plugin 'shell' does not support '.py' extension.\nSupported extensions: sh, bash, zsh"
    );
}

#[test]
fn explicit_mode_matches_the_extension_as_written() {
    let db = pythons();
    match resolve(&db, "PY", Some("python")) {
        Err(RunError::Unsupported { supported, .. }) => assert_eq!(supported, vec!["py"]),
        other => panic!("unexpected: {:?}", other),
    }
}

#[test]
fn load_plugin_by_name_returns_the_record() {
    let db = pythons();
    let plugin = load_plugin_by_name(&db, "python").unwrap();
    assert_eq!(plugin.executor, "python3");
}

#[test]
fn build_args_replaces_the_placeholder_and_appends() {
    let mut plugin = bare("python", "python3", &["py"]);
    plugin.arg_template = vec!["-c".to_string(), "run {file} now".to_string()];
    let args = build_command_args(
        &plugin,
        &PathBuf::from("/tmp/s.py"),
        &vec!["--flag".to_string()],
    )
    .unwrap();
    assert_eq!(args, vec!["-c", "run /tmp/s.py now", "--flag"]);
}

#[test]
fn build_args_with_the_default_template() {
    let plugin = bare("python", "python3", &["py"]);
    let args = build_command_args(&plugin, &PathBuf::from("/tmp/s.py"), &vec![]).unwrap();
    assert_eq!(args, vec!["/tmp/s.py"]);
}

#[test]
fn build_args_with_an_empty_template() {
    let mut plugin = bare("x", "x", &["x"]);
    plugin.arg_template = vec![];
    let args = build_command_args(
        &plugin,
        &PathBuf::from("a b"),
        &vec!["{file}".to_string(), "".to_string()],
    )
    .unwrap();
    // the user's arguments are taken as they are
    assert_eq!(args, vec!["{file}", ""]);
}

#[test]
fn expand_replaces_every_occurrence() {
    assert_eq!(expand("{file}", "/p"), "/p");
    assert_eq!(expand("{file}{file}", "/p"), "/p/p");
    assert_eq!(expand("a{file}b{file}c", "/p"), "a/pb/pc");
    assert_eq!(expand("chmod +x {file} && {file}", "/s/x.sh"), "chmod +x /s/x.sh && /s/x.sh");
}

#[test]
fn expand_leaves_other_text_alone() {
    assert_eq!(expand("", "/p"), "");
    assert_eq!(expand("-c", "/p"), "-c");
    assert_eq!(expand("{file", "/p"), "{file");
    assert_eq!(expand("file}", "/p"), "file}");
    assert_eq!(expand("{File}", "/p"), "{File}");
    assert_eq!(expand("{ file }", "/p"), "{ file }");
    assert_eq!(expand("{{file}}", "/p"), "{/p}");
    assert_eq!(expand("{fil{file}e}", "/p"), "{fil/pe}");
}

#[test]
fn expand_does_not_search_the_path_again() {
    assert_eq!(expand("{file}", "{file}"), "{file}");
    assert_eq!(expand("x{file}", "{fi"), "x{fi");
    assert_eq!(expand("{file}le}", "{fi"), "{file}");
}

#[test]
fn expand_agrees_with_the_standard_replace() {
    let templates = [
        "", "{", "}", "{file}", "{file}{file}", "a{file}", "{file}b", "{f{file}", "{file}}",
        "日本{file}語", "{fi{file}le}", "{file{file}", "--in={file} --out={file}.out",
    ];
    let paths = ["", "/tmp/s.py", "{file}", "路径/脚本.py", "a b"];
    for template in templates {
        for path in paths {
            assert_eq!(expand(template, path), template.replace("{file}", path));
        }
    }
}

#[test]
fn expand_args_keeps_the_order() {
    let template = vec!["-c".to_string(), "run {file} now".to_string()];
    let args = expand_args(&template, "/tmp/s.py", &vec!["--flag".to_string(), "-v".to_string()]);
    assert_eq!(args, vec!["-c", "run /tmp/s.py now", "--flag", "-v"]);
}

#[test]
fn command_for_uses_the_executor() {
    let plugin = bare("python", "python3", &["py"]);
    let command =
        command_for(&plugin, &PathBuf::from("/tmp/s.py"), &vec!["-v".to_string()]).unwrap();
    assert_eq!(command.command, "python3");
    assert_eq!(command.args, vec!["/tmp/s.py", "-v"]);
}

#[test]
fn find_script_by_name() {
    let scripts = vec![script("backup", "sh"), script("deploy", "py"), script("deploy", "sh")];
    let found = find_script(&scripts, "deploy", None).unwrap();
    // the first of the name
    assert_eq!(found.extension, "py");
}

#[test]
fn find_script_by_name_and_extension() {
    let scripts = vec![script("backup", "sh"), script("deploy", "py"), script("deploy", "sh")];
    let found = find_script(&scripts, "deploy", Some("sh")).unwrap();
    assert_eq!(found.path, PathBuf::from("/scripts/deploy.sh"));
}

#[test]
fn find_script_reports_what_was_asked_for() {
    let scripts = vec![script("backup", "sh")];
    match find_script(&scripts, "deploy", None) {
        Err(RunError::ScriptNotFound { name, extension }) => {
            assert_eq!(name, "deploy");
            assert_eq!(extension, None);
        }
        other => panic!("unexpected: {:?}", other),
    }
    assert_eq!(
        find_script(&scripts, "deploy", None).unwrap_err().message(),
        "Script 'deploy' not found"
    );
    assert_eq!(
        find_script(&scripts, "backup", Some("py")).unwrap_err().message(),
        "Script 'backup.py' not found"
    );
    assert_eq!(
        find_script(&Vec::new(), "backup", Some("")).unwrap_err().message(),
        "Script 'backup.' not found"
    );
}

#[test]
fn menu_numbers_the_candidates_from_one() {
    let mut first = bare("pypy", "pypy3", &["py"]);
    first.description = "Fast Python".to_string();
    let second = bare("python", "python3", &["py"]);
    let lines = selection_menu(&vec![first, second]);
    assert_eq!(
        lines,
        vec!["  [1] pypy (pypy3)", "      Fast Python", "  [2] python (python3)"]
    );
}

#[test]
fn menu_with_many_candidates() {
    let all: Vec<Plugin> = (0..12).map(|i| bare(&format!("p{}", i), "x", &["x"])).collect();
    let lines = selection_menu(&all);
    assert_eq!(lines.len(), 12);
    assert_eq!(lines[0], "  [1] p0 (x)");
    assert_eq!(lines[9], "  [10] p9 (x)");
    assert_eq!(lines[11], "  [12] p11 (x)");
    assert!(selection_menu(&Vec::new()).is_empty());
}

#[test]
fn prompt_names_the_range() {
    assert_eq!(selection_prompt(2), "Select a plugin [1-2]: ");
    assert_eq!(selection_prompt(10), "Select a plugin [1-10]: ");
}

#[test]
fn run_with_one_plugin_builds_the_command() {
    let mut db = PluginDatabase::new();
    let mut python = bare("python", "python3", &["py"]);
    python.arg_template = vec!["-u".to_string(), "{file}".to_string()];
    db.add_plugin(python).unwrap();
    let scripts = vec![script("deploy", "py")];
    let step = run(&scripts, &db, "deploy", None, None, &vec!["--dry".to_string()]).unwrap();
    match step {
        RunStep::Start(CommandExecutor { command, args }) => {
            assert_eq!(command, "python3");
            assert_eq!(args, vec!["-u", "/scripts/deploy.py", "--dry"]);
        }
        other => panic!("unexpected: {:?}", other),
    }
}

#[test]
fn run_with_two_plugins_asks_and_goes_on() {
    let db = pythons();
    let scripts = vec![script("deploy", "py")];
    let args = vec!["x".to_string()];
    let step = run(&scripts, &db, "deploy", Some("py"), None, &args).unwrap();
    let (found, choices) = match step {
        RunStep::Choose { script, candidates } => (script, candidates),
        other => panic!("unexpected: {:?}", other),
    };
    assert_eq!(found.name, "deploy");
    assert_eq!(choices.len(), 2);
    let command = run_selected(found, &choices, Some("2\n"), &args).unwrap();
    assert_eq!(command.command, "python3");
    assert_eq!(command.args, vec!["/scripts/deploy.py", "x"]);
    match run_selected(found, &choices, Some("3"), &args) {
        Err(RunError::InvalidSelection) => {}
        other => panic!("unexpected: {:?}", other),
    }
}

#[test]
fn run_with_a_named_plugin() {
    let db = pythons();
    let scripts = vec![script("deploy", "py")];
    match run(&scripts, &db, "deploy", None, Some("pypy"), &vec![]).unwrap() {
        RunStep::Start(command) => assert_eq!(command.command, "pypy3"),
        other => panic!("unexpected: {:?}", other),
    }
}

#[test]
fn run_errors() {
    let db = pythons();
    let scripts = vec![script("deploy", "py"), script("build", "sh")];
    match run(&scripts, &db, "missing", None, None, &vec![]) {
        Err(RunError::ScriptNotFound { name, .. }) => assert_eq!(name, "missing"),
        other => panic!("unexpected: {:?}", other),
    }
    match run(&scripts, &db, "build", None, None, &vec![]) {
        Err(RunError::NoPlugin(extension)) => assert_eq!(extension, "sh"),
        other => panic!("unexpected: {:?}", other),
    }
    match run(&scripts, &db, "build", None, Some("python"), &vec![]) {
        Err(RunError::Unsupported { plugin, .. }) => assert_eq!(plugin, "python"),
        other => panic!("unexpected: {:?}", other),
    }
    match run(&scripts, &db, "build", None, Some("nope"), &vec![]) {
        Err(RunError::PluginNotFound(name)) => assert_eq!(name, "nope"),
        other => panic!("unexpected: {:?}", other),
    }
}

#[test]
fn invalid_path_message() {
    assert_eq!(
        RunError::InvalidPath.message(),
        "Invalid script path: non-UTF8 characters"
    );
}
