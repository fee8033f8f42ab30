use rune::commands::{
    add_step, find_plugin, install, read_confirmation, remove_step, AddOutcome, AddStep,
    PluginMissing, RemoveStep,
};
use rune::paths::{
    get_data_home, get_plugin_db, get_plugin_path, get_script_path, Environment, NoDataDirectory,
};
use rune::plugin::Plugin;
use rune::registry::PluginDatabase;

fn bare(name: &str, executor: &str, extensions: &[&str]) -> Plugin {
    Plugin {
        name: name.to_string(),
        executor: executor.to_string(),
        arg_template: vec!["{file}".to_string()],
        extensions: extensions.iter().map(|x| x.to_string()).collect(),
        description: "".to_string(),
        author: "".to_string(),
        version: "".to_string(),
        requires: vec![],
    }
}

fn registry() -> PluginDatabase {
    let mut db = PluginDatabase::new();
    db.add_plugin(bare("python", "python3", &["py"])).unwrap();
    db
}

fn env(repo: Option<&str>, plugin: Option<&str>, data: Option<&str>, home: Option<&str>) -> Environment {
    Environment {
        repo: repo.map(String::from),
        plugin: plugin.map(String::from),
        data: data.map(String::from),
        home: home.map(String::from),
        windows: false,
    }
}

#[test]
fn confirmation_answers() {
    for line in ["y", "Y", "yes", "YES", "Yes\n", "  y  ", "yEs\r\n"] {
        assert_eq!(read_confirmation(line, false), Some(true), "for {:?}", line);
    }
    for line in ["n", "N", "no", "NO", "No\n", "\tn"] {
        assert_eq!(read_confirmation(line, true), Some(false), "for {:?}", line);
    }
}

#[test]
fn confirmation_default_on_an_empty_line() {
    for line in ["", "\n", "   ", "\r\n"] {
        assert_eq!(read_confirmation(line, true), Some(true));
        assert_eq!(read_confirmation(line, false), Some(false));
    }
}

#[test]
fn confirmation_asks_again() {
    for line in ["maybe", "ye", "yess", "y e s", "1", "nope", "是"] {
        assert_eq!(read_confirmation(line, true), None, "for {:?}", line);
    }
}

#[test]
fn add_steps() {
    let db = registry();
    assert_eq!(add_step(&db, "bash", false), AddStep::Insert);
    assert_eq!(add_step(&db, "bash", true), AddStep::Insert);
    assert_eq!(add_step(&db, "python", true), AddStep::Overwrite);
    assert_eq!(add_step(&db, "python", false), AddStep::Ask);
}

#[test]
fn install_a_new_plugin() {
    let mut db = registry();
    match install(&mut db, bare("bash", "bash", &["sh"]), false) {
        AddOutcome::Added(_) => {}
        other => panic!("unexpected: {:?}", other),
    }
    assert_eq!(db.get_plugin("bash").unwrap().executor, "bash");
}

#[test]
fn install_over_an_existing_plugin() {
    let mut db = registry();
    match install(&mut db, bare("python", "pypy3", &["py"]), true) {
        AddOutcome::Updated(_) => {}
        other => panic!("unexpected: {:?}", other),
    }
    assert_eq!(db.get_plugin("python").unwrap().executor, "pypy3");
    assert_eq!(db.all_plugins().len(), 1);
}

#[test]
fn install_without_consent_changes_nothing() {
    let mut db = registry();
    match install(&mut db, bare("python", "pypy3", &["py"]), false) {
        AddOutcome::Cancelled => {}
        other => panic!("unexpected: {:?}", other),
    }
    assert_eq!(db.get_plugin("python").unwrap().executor, "python3");
}

#[test]
fn install_reports_missing_commands() {
    let mut db = registry();
    match install(&mut db, bare("ghost", "nonexistent_command_12345", &["g"]), false) {
        AddOutcome::Added(notes) => assert_eq!(notes.len(), 1),
        other => panic!("unexpected: {:?}", other),
    }
    assert!(db.get_plugin("ghost").is_some());
}

#[test]
fn remove_steps() {
    let db = registry();
    assert_eq!(remove_step(&db, "python", true).unwrap(), RemoveStep::Remove);
    assert_eq!(remove_step(&db, "python", false).unwrap(), RemoveStep::Ask);
    for yes in [true, false] {
        match remove_step(&db, "bash", yes) {
            Err(PluginMissing(name)) => assert_eq!(name, "bash"),
            other => panic!("unexpected: {:?}", other),
        }
    }
    assert_eq!(
        remove_step(&db, "bash", true).unwrap_err().message(),
        "Plugin 'bash' not found"
    );
}

#[test]
fn find_plugin_for_a_command() {
    let db = registry();
    assert_eq!(find_plugin(&db, "python").unwrap().executor, "python3");
    assert_eq!(
        find_plugin(&db, "ruby").unwrap_err().message(),
        "Plugin 'ruby' not found"
    );
}

#[test]
fn data_home_from_the_data_variable() {
    let home = get_data_home(&env(None, None, Some("/xdg"), Some("/home/u"))).unwrap();
    assert_eq!(home.base, "/xdg");
    assert_eq!(home.parts, vec!["rune"]);
}

#[test]
fn data_home_below_the_home_directory() {
    let home = get_data_home(&env(None, None, None, Some("/home/u"))).unwrap();
    assert_eq!(home.base, "/home/u");
    assert_eq!(home.parts, vec![".local", "share", "rune"]);
}

#[test]
fn data_home_on_windows() {
    let mut e = env(None, None, None, Some("C:\\Users\\u"));
    e.windows = true;
    let home = get_data_home(&e).unwrap();
    assert_eq!(home.base, "C:\\Users\\u");
    assert_eq!(home.parts, vec!["AppData", "Roaming", "rune"]);
    e.data = Some("C:\\Users\\u\\AppData\\Roaming".to_string());
    let home = get_data_home(&e).unwrap();
    assert_eq!(home.base, "C:\\Users\\u\\AppData\\Roaming");
    assert_eq!(home.parts, vec!["rune"]);
}

#[test]
fn data_home_without_any_variable() {
    let error = get_data_home(&env(None, None, None, None)).unwrap_err();
    assert_eq!(error, NoDataDirectory { windows: false });
    assert_eq!(
        error.message(),
        "Could not determine data directory: XDG_DATA_HOME or HOME not set"
    );
    assert_eq!(
        NoDataDirectory { windows: true }.message(),
        "Could not determine data directory: APPDATA or USERPROFILE not set"
    );
}

#[test]
fn script_directory() {
    let named = get_script_path(&env(Some("/repo"), None, None, None)).unwrap();
    assert_eq!(named.base, "/repo");
    assert!(named.parts.is_empty());
    let derived = get_script_path(&env(None, None, Some("/xdg"), None)).unwrap();
    assert_eq!(derived.base, "/xdg");
    assert_eq!(derived.parts, vec!["rune", "scripts"]);
    assert!(get_script_path(&env(None, Some("/p"), None, None)).is_err());
}

#[test]
fn plugin_directory_and_store() {
    let named = get_plugin_path(&env(None, Some("/plugins"), None, None)).unwrap();
    assert_eq!(named.base, "/plugins");
    assert!(named.parts.is_empty());
    let store = get_plugin_db(&env(None, Some("/plugins"), None, None)).unwrap();
    assert_eq!(store.base, "/plugins");
    assert_eq!(store.parts, vec!["plugin.dat"]);
    let store = get_plugin_db(&env(None, None, None, Some("/home/u"))).unwrap();
    assert_eq!(store.base, "/home/u");
    assert_eq!(store.parts, vec![".local", "share", "rune", "plugin", "plugin.dat"]);
    assert!(get_plugin_db(&env(Some("/repo"), None, None, None)).is_err());
}

#[test]
fn info_lines_of_a_full_plugin() {
    let mut plugin = bare("python", "python3", &["py", "pyw"]);
    plugin.arg_template = vec!["-u".to_string(), "{file}".to_string()];
    plugin.version = "1.0.0".to_string();
    plugin.author = "Test Author".to_string();
    plugin.description = "Python 3 interpreter".to_string();
    plugin.requires = vec!["pip".to_string(), "venv".to_string()];
    let lines = rune::commands::info_lines(&plugin, true, &vec![true, false]);
    assert_eq!(
        lines,
        vec![
            "Plugin: python",
            "Version: 1.0.0",
            "Author: Test Author",
            "Description: Python 3 interpreter",
            "",
            "Executor: python3",
            "Extensions: py, pyw",
            "Argument Template: -u {file}",
            "",
            "Requirements:",
            "  ✓ pip (installed)",
            "  ✗ venv (not found)",
            "",
            "Status: ✓ Ready to use",
        ]
    );
}

#[test]
fn info_lines_of_a_bare_plugin_without_its_executor() {
    let plugin = bare("ghost", "ghostly", &["g"]);
    let lines = rune::commands::info_lines(&plugin, false, &vec![]);
    assert_eq!(
        lines,
        vec![
            "Plugin: ghost",
            "Version: ",
            "",
            "Executor: ghostly",
            "Extensions: g",
            "Argument Template: {file}",
            "",
            "Status: ✗ Executor not found in PATH",
            "        Please install 'ghostly' to use this plugin",
        ]
    );
}

#[test]
fn info_looks_at_the_search_path() {
    let mut plugin = bare("shell", "sh", &["sh"]);
    plugin.requires = vec!["nonexistent_dep_98765".to_string()];
    let lines = rune::commands::info(&plugin);
    assert!(lines.contains(&"  ✗ nonexistent_dep_98765 (not found)".to_string()));
    assert_eq!(lines.last().unwrap(), "Status: ✓ Ready to use");
}

#[test]
fn extension_cell_of_a_plugin() {
    assert_eq!(rune::commands::extension_cell(&bare("a", "b", &["sh", "bash"])), "[sh,bash]");
    assert_eq!(rune::commands::extension_cell(&bare("a", "b", &[])), "[]");
}

#[test]
fn editor_choice() {
    assert_eq!(rune::commands::choose_editor(Some("vim".to_string()), false), "vim");
    assert_eq!(rune::commands::choose_editor(None, false), "nano");
    assert_eq!(rune::commands::choose_editor(None, true), "notepad");
}
