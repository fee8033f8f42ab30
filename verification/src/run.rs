//! Running a script: finding it in the catalogue, resolving the plugin that
//! runs it, and building the command to start.

use std::path::PathBuf;
use vstd::prelude::*;
use vstd::string::StringExecFns;
use crate::executor::CommandExecutor;
use crate::plugin::{Plugin, PluginView};
use crate::registry::{claiming, plugin_views, PluginDatabase};
use crate::script::{path_text, path_to_text, script_views, Script, ScriptView};
use crate::selection::{parse_selection, selection};
use crate::template::{command_line, expand_args};
use crate::text::{
    contains_text, copy_texts, decimal, decimal_text, join_texts, joined, same_text, texts,
};

verus! {

/// Why a script could not be run.
#[derive(Debug)]
pub enum RunError {
    /// No script of that name (and extension, where one was asked for).
    ScriptNotFound { name: String, extension: Option<String> },
    /// No plugin of that name is registered.
    PluginNotFound(String),
    /// The plugin that was asked for does not claim the script's extension.
    Unsupported { plugin: String, extension: String, supported: Vec<String> },
    /// No registered plugin claims the script's extension.
    NoPlugin(String),
    /// The line that should pick a candidate picks none.
    InvalidSelection,
    /// The script's path is not valid UTF-8.
    InvalidPath,
}

/// The text of a run error.
pub open spec fn run_message(e: RunError) -> Seq<char> {
    match e {
        RunError::ScriptNotFound { name, extension } => match extension {
            Some(x) => "Script '"@ + name@ + "."@ + x@ + "' not found"@,
            None => "Script '"@ + name@ + "' not found"@,
        },
        RunError::PluginNotFound(n) => "Plugin '"@ + n@
            + "' not found.\nUse 'rune plugin list' to see available plugins."@,
        RunError::Unsupported { plugin, extension, supported } => "Plugin '"@ + plugin@
            + "' does not support '."@ + extension@ + "' extension.\nSupported extensions: "@
            + joined(texts(supported@), ", "@),
        RunError::NoPlugin(x) => "No plugin found for extension '."@ + x@
            + "'.\nUse 'rune plugin list' to see available plugins or 'rune plugin add <source>' to add a new plugin."@,
        RunError::InvalidSelection => "Invalid selection"@,
        RunError::InvalidPath => "Invalid script path: non-UTF8 characters"@,
    }
}

impl RunError {
    /// The message shown for this error.
    pub fn message(&self) -> (r: String)
        ensures
            r@ == run_message(*self),
    {
        match self {
            RunError::ScriptNotFound { name, extension } => {
                let mut out = String::from_str("Script '");
                out.append(name.as_str());
                match extension {
                    Some(x) => {
                        out.append(".");
                        out.append(x.as_str());
                    },
                    None => {},
                }
                out.append("' not found");
                out
            },
            RunError::PluginNotFound(n) => {
                let mut out = String::from_str("Plugin '");
                out.append(n.as_str());
                out.append("' not found.\nUse 'rune plugin list' to see available plugins.");
                out
            },
            RunError::Unsupported { plugin, extension, supported } => {
                let mut out = String::from_str("Plugin '");
                out.append(plugin.as_str());
                out.append("' does not support '.");
                out.append(extension.as_str());
                out.append("' extension.\nSupported extensions: ");
                out.append(join_texts(supported, ", ").as_str());
                out
            },
            RunError::NoPlugin(x) => {
                let mut out = String::from_str("No plugin found for extension '.");
                out.append(x.as_str());
                out.append(
                    "'.\nUse 'rune plugin list' to see available plugins or 'rune plugin add <source>' to add a new plugin.",
                );
                out
            },
            RunError::InvalidSelection => String::from_str("Invalid selection"),
            RunError::InvalidPath => String::from_str("Invalid script path: non-UTF8 characters"),
        }
    }
}

/// The text of an optional borrowed string.
pub open spec fn wanted_text(x: Option<&str>) -> Option<Seq<char>> {
    match x {
        Some(t) => Some(t@),
        None => None,
    }
}

/// The text of an optional string.
pub open spec fn held_text(x: Option<String>) -> Option<Seq<char>> {
    match x {
        Some(t) => Some(t@),
        None => None,
    }
}

/// A script answers a request when it has the name asked for and, where an
/// extension was asked for, that extension.
pub open spec fn answers(s: ScriptView, name: Seq<char>, extension: Option<Seq<char>>) -> bool {
    s.name == name && match extension {
        Some(x) => s.extension == x,
        None => true,
    }
}

/// The first script of the catalogue that answers the request.
pub fn find_script<'a>(scripts: &'a Vec<Script>, name: &str, extension: Option<&str>) -> (r:
    Result<&'a Script, RunError>)
    ensures
        match r {
            Ok(script) => exists|i: int|
                0 <= i < scripts.len() && *script == scripts@[i] && answers(
                    scripts@[i]@,
                    name@,
                    wanted_text(extension),
                ) && forall|j: int|
                    0 <= j < i ==> !answers(
                        (#[trigger] scripts@[j])@,
                        name@,
                        wanted_text(extension),
                    ),
            Err(e) => (forall|j: int|
                0 <= j < scripts.len() ==> !answers(
                    (#[trigger] scripts@[j])@,
                    name@,
                    wanted_text(extension),
                )) && (e matches RunError::ScriptNotFound { name: n, extension: x } && n@ == name@
                && held_text(x) == wanted_text(extension)),
        },
{
    let mut i: usize = 0;
    while i < scripts.len()
        invariant
            i <= scripts.len(),
            forall|j: int|
                0 <= j < i ==> !answers(
                    (#[trigger] scripts@[j])@,
                    name@,
                    wanted_text(extension),
                ),
        decreases scripts.len() - i,
    {
        let script = &scripts[i];
        let fits = same_text(script.name.as_str(), name) && match extension {
            Some(x) => same_text(script.extension.as_str(), x),
            None => true,
        };
        if fits {
            return Ok(script);
        }
        i += 1;
    }
    let missing = match extension {
        Some(x) => Some(String::from_str(x)),
        None => None,
    };
    Err(RunError::ScriptNotFound { name: String::from_str(name), extension: missing })
}

/// How the plugin for a script was resolved.
#[derive(Debug)]
pub enum Resolution {
    /// One plugin runs the script.
    Chosen(Plugin),
    /// Several plugins claim the extension: one of these candidates, which
    /// come in the order of their names, is still to be picked.
    Ambiguous(Vec<Plugin>),
}

/// `r` is what looking up the plugin `name` gives: the record of that name,
/// or a not-found error that names it.
pub open spec fn named(
    db: Map<Seq<char>, PluginView>,
    name: Seq<char>,
    r: Result<Plugin, RunError>,
) -> bool {
    match r {
        Ok(p) => db.contains_key(name) && p@ == db[name],
        Err(e) => !db.contains_key(name) && (e matches RunError::PluginNotFound(n) && n@ == name),
    }
}

/// The plugin of that name.
pub fn load_plugin_by_name(db: &PluginDatabase, name: &str) -> (r: Result<Plugin, RunError>)
    ensures
        named(db@, name@, r),
{
    match db.get_plugin(name) {
        Some(p) => Ok(p.clone()),
        None => Err(RunError::PluginNotFound(String::from_str(name))),
    }
}

/// `r` is what the candidates for an extension resolve to: with none, an
/// error that names the extension; with one, that plugin; with more, the
/// candidates themselves.
pub open spec fn settles(
    candidates: Seq<PluginView>,
    extension: Seq<char>,
    r: Result<Resolution, RunError>,
) -> bool {
    if candidates.len() == 0 {
        r matches Err(RunError::NoPlugin(x)) && x@ == extension
    } else if candidates.len() == 1 {
        r matches Ok(Resolution::Chosen(p)) && p@ == candidates[0]
    } else {
        r matches Ok(Resolution::Ambiguous(v)) && plugin_views(v@) == candidates
    }
}

/// The plugin for an extension: the one that claims it, or the candidates
/// in the order of their names where several do.
pub fn load_plugin_for_extension(db: &PluginDatabase, extension: &str) -> (r: Result<
    Resolution,
    RunError,
>)
    ensures
        settles(claiming(db.records(), extension@), extension@, r),
{
    let matches = db.find_all_by_extension(extension);
    if matches.len() == 0 {
        Err(RunError::NoPlugin(String::from_str(extension)))
    } else if matches.len() == 1 {
        Ok(Resolution::Chosen(matches[0].clone()))
    } else {
        let mut out: Vec<Plugin> = Vec::new();
        let mut i: usize = 0;
        while i < matches.len()
            invariant
                i <= matches.len(),
                out.len() == i,
                forall|k: int| 0 <= k < i ==> out@[k]@ == matches@[k]@,
            decreases matches.len() - i,
        {
            out.push(matches[i].clone());
            i += 1;
        }
        assert(plugin_views(out@) =~= claiming(db.records(), extension@));
        Ok(Resolution::Ambiguous(out))
    }
}

/// `r` is what naming a plugin for a script of this extension gives: a
/// not-found error where no plugin has that name; where the plugin does
/// not claim the extension, an error that names the plugin, the extension
/// and the extensions that the plugin does claim; otherwise the plugin.
pub open spec fn explicit(
    db: Map<Seq<char>, PluginView>,
    extension: Seq<char>,
    name: Seq<char>,
    r: Result<Resolution, RunError>,
) -> bool {
    if !db.contains_key(name) {
        r matches Err(RunError::PluginNotFound(n)) && n@ == name
    } else if !db[name].extensions.contains(extension) {
        r matches Err(RunError::Unsupported { plugin, extension: x, supported }) && plugin@
            == db[name].name && x@ == extension && texts(supported@) == db[name].extensions
    } else {
        r matches Ok(Resolution::Chosen(p)) && p@ == db[name]
    }
}

/// `r` is what resolving the plugin for a script of this extension gives,
/// with or without a plugin named by the user.
pub open spec fn resolves(
    db: &PluginDatabase,
    extension: Seq<char>,
    plugin_name: Option<Seq<char>>,
    r: Result<Resolution, RunError>,
) -> bool {
    match plugin_name {
        Some(name) => explicit(db@, extension, name, r),
        None => settles(claiming(db.records(), extension), extension, r),
    }
}

/// Resolves the plugin that runs a script of this extension. With a plugin
/// named by the user, that plugin, which must claim the extension; without,
/// the plugin that claims the extension, or the candidates where several
/// do.
pub fn resolve(db: &PluginDatabase, extension: &str, plugin_name: Option<&str>) -> (r: Result<
    Resolution,
    RunError,
>)
    ensures
        resolves(db, extension@, wanted_text(plugin_name), r),
{
    match plugin_name {
        Some(name) => {
            let plugin = match load_plugin_by_name(db, name) {
                Ok(p) => p,
                Err(e) => {
                    return Err(e);
                },
            };
            if !contains_text(&plugin.extensions, extension) {
                return Err(
                    RunError::Unsupported {
                        plugin: plugin.name.clone(),
                        extension: String::from_str(extension),
                        supported: copy_texts(&plugin.extensions),
                    },
                );
            }
            Ok(Resolution::Chosen(plugin))
        },
        None => load_plugin_for_extension(db, extension),
    }
}

/// `r` is what a line of input picks among the candidates: the candidate
/// whose number, counted from 1, the line writes; an error for a line that
/// was not read or that writes no such number.
pub open spec fn picks(
    candidates: Seq<PluginView>,
    input: Option<Seq<char>>,
    r: Result<Plugin, RunError>,
) -> bool {
    match input {
        Some(line) => match selection(line, candidates.len()) {
            Some(i) => r matches Ok(p) && p@ == candidates[i as int],
            None => r matches Err(RunError::InvalidSelection),
        },
        None => r matches Err(RunError::InvalidSelection),
    }
}

/// Picks one of the candidates by the line that the user typed; `None`
/// stands for a line that could not be read.
pub fn select_plugin_interactive(plugins: &Vec<Plugin>, input: Option<&str>) -> (r: Result<
    Plugin,
    RunError,
>)
    ensures
        picks(plugin_views(plugins@), wanted_text(input), r),
{
    match input {
        Some(line) => match parse_selection(line, plugins.len()) {
            Some(i) => Ok(plugins[i].clone()),
            None => Err(RunError::InvalidSelection),
        },
        None => Err(RunError::InvalidSelection),
    }
}

/// The lines that present the candidate at place `i` (counted from 0): its
/// number, name and executor, and below them its description, if it has
/// one.
pub open spec fn menu_entry(i: nat, p: PluginView) -> Seq<Seq<char>> {
    let first = "  ["@ + decimal(i + 1) + "] "@ + p.name + " ("@ + p.executor + ")"@;
    if p.description.len() == 0 {
        seq![first]
    } else {
        seq![first, "      "@ + p.description]
    }
}

/// The lines that present the candidates, numbered from 1.
pub open spec fn menu(candidates: Seq<PluginView>) -> Seq<Seq<char>>
    decreases candidates.len(),
{
    if candidates.len() == 0 {
        Seq::empty()
    } else {
        menu(candidates.drop_last()) + menu_entry(
            (candidates.len() - 1) as nat,
            candidates.last(),
        )
    }
}

/// The lines that present the candidates to the user.
pub fn selection_menu(plugins: &Vec<Plugin>) -> (r: Vec<String>)
    ensures
        texts(r@) == menu(plugin_views(plugins@)),
{
    let ghost all = plugin_views(plugins@);
    let mut out: Vec<String> = Vec::new();
    let mut i: usize = 0;
    assert(all.take(0) =~= Seq::<PluginView>::empty());
    assert(texts(out@) =~= menu(all.take(0)));
    while i < plugins.len()
        invariant
            all == plugin_views(plugins@),
            i <= plugins.len(),
            texts(out@) == menu(all.take(i as int)),
        decreases plugins.len() - i,
    {
        let ghost seen = texts(out@);
        let ghost after = all.take(i + 1);
        assert(after.drop_last() =~= all.take(i as int));
        assert(after.last() == plugins@[i as int]@);
        let p = &plugins[i];
        let mut first = String::from_str("  [");
        first.append(decimal_text((i as u64) + 1).as_str());
        first.append("] ");
        first.append(p.name.as_str());
        first.append(" (");
        first.append(p.executor.as_str());
        first.append(")");
        out.push(first);
        if !p.description.as_str().is_empty() {
            let mut second = String::from_str("      ");
            second.append(p.description.as_str());
            out.push(second);
        }
        assert(texts(out@) =~= seen + menu_entry(i as nat, plugins@[i as int]@));
        i += 1;
    }
    assert(all.take(plugins.len() as int) =~= all);
    out
}

/// The question that asks for one of `count` candidates.
pub fn selection_prompt(count: usize) -> (r: String)
    ensures
        r@ == "Select a plugin [1-"@ + decimal(count as nat) + "]: "@,
{
    let mut out = String::from_str("Select a plugin [1-");
    out.append(decimal_text(count as u64).as_str());
    out.append("]: ");
    out
}

/// `r` is the argument vector for a script at this path, or the error for
/// a path that is not valid UTF-8.
pub open spec fn argues(
    template: Seq<Seq<char>>,
    path: Option<Seq<char>>,
    user_args: Seq<Seq<char>>,
    r: Result<Vec<String>, RunError>,
) -> bool {
    match path {
        Some(p) => r matches Ok(v) && texts(v@) == command_line(template, p, user_args),
        None => r matches Err(RunError::InvalidPath),
    }
}

/// The argument vector for running the script at `script_path` through
/// `plugin`: the plugin's template with the path in place of each
/// placeholder, then the user's arguments. A path that is not valid UTF-8
/// is refused.
pub fn build_command_args(plugin: &Plugin, script_path: &PathBuf, user_args: &Vec<String>) -> (r:
    Result<Vec<String>, RunError>)
    ensures
        argues(plugin@.arg_template, path_text(*script_path), texts(user_args@), r),
{
    match path_to_text(script_path) {
        Some(path) => Ok(expand_args(&plugin.arg_template, path.as_str(), user_args)),
        None => Err(RunError::InvalidPath),
    }
}

/// `r` is the command that runs the script at this path through `plugin`.
pub open spec fn commands(
    plugin: PluginView,
    path: Option<Seq<char>>,
    user_args: Seq<Seq<char>>,
    r: Result<CommandExecutor, RunError>,
) -> bool {
    match path {
        Some(p) => r matches Ok(c) && c.command@ == plugin.executor && texts(c.args@)
            == command_line(plugin.arg_template, p, user_args),
        None => r matches Err(RunError::InvalidPath),
    }
}

/// The command that runs the script at `script_path` through `plugin`.
pub fn command_for(plugin: &Plugin, script_path: &PathBuf, user_args: &Vec<String>) -> (r:
    Result<CommandExecutor, RunError>)
    ensures
        commands(plugin@, path_text(*script_path), texts(user_args@), r),
{
    match build_command_args(plugin, script_path, user_args) {
        Ok(args) => {
            let made = CommandExecutor::new(plugin.executor.as_str()).with_args(args);
            assert(texts(made.args@) =~= texts(args@));
            Ok(made)
        },
        Err(e) => Err(e),
    }
}

/// What is to be done next to run a script.
#[derive(Debug)]
pub enum RunStep<'a> {
    /// Start this command.
    Start(CommandExecutor),
    /// Ask the user for one of these candidates, then go on with
    /// `run_selected`.
    Choose { script: &'a Script, candidates: Vec<Plugin> },
}

/// Plans the run of the script `name`: finds the script in the catalogue,
/// resolves its plugin and builds the command. Where several plugins claim
/// the script's extension, the candidates are handed back for the user to
/// pick one.
pub fn run<'a>(
    scripts: &'a Vec<Script>,
    db: &PluginDatabase,
    name: &str,
    extension: Option<&str>,
    plugin_name: Option<&str>,
    args: &Vec<String>,
) -> (r: Result<RunStep<'a>, RunError>)
    ensures
        match first_answering(script_views(scripts@), name@, wanted_text(extension)) {
            None => r matches Err(RunError::ScriptNotFound { name: n, extension: x }) && n@
                == name@ && held_text(x) == wanted_text(extension),
            Some(i) => {
                let script = scripts@[i];
                match r {
                    Ok(RunStep::Start(command)) => exists|p: Plugin|
                        resolves(
                            db,
                            script@.extension,
                            wanted_text(plugin_name),
                            Ok(Resolution::Chosen(p)),
                        ) && commands(p@, path_text(script.path), texts(args@), Ok(command)),
                    Ok(RunStep::Choose { script: found, candidates }) => *found == script
                        && resolves(
                        db,
                        script@.extension,
                        wanted_text(plugin_name),
                        Ok(Resolution::Ambiguous(candidates)),
                    ),
                    Err(e) => resolves(db, script@.extension, wanted_text(plugin_name), Err(e))
                        || (e is InvalidPath && path_text(script.path) is None && exists|
                        p: Plugin,
                    |
                        resolves(
                            db,
                            script@.extension,
                            wanted_text(plugin_name),
                            Ok(Resolution::Chosen(p)),
                        )),
                }
            },
        },
{
    let script = match find_script(scripts, name, extension) {
        Ok(script) => script,
        Err(e) => {
            proof {
                lemma_find_none(script_views(scripts@), name@, wanted_text(extension));
            }
            return Err(e);
        },
    };
    proof {
        let i = choose|i: int|
            0 <= i < scripts.len() && *script == scripts@[i] && answers(
                scripts@[i]@,
                name@,
                wanted_text(extension),
            ) && forall|j: int|
                0 <= j < i ==> !answers((#[trigger] scripts@[j])@, name@, wanted_text(extension));
        lemma_find_first(script_views(scripts@), name@, wanted_text(extension), i);
    }
    match resolve(db, script.extension.as_str(), plugin_name) {
        Err(e) => Err(e),
        Ok(Resolution::Ambiguous(candidates)) => Ok(RunStep::Choose { script, candidates }),
        Ok(Resolution::Chosen(plugin)) => match command_for(&plugin, &script.path, args) {
            Ok(command) => Ok(RunStep::Start(command)),
            Err(e) => Err(e),
        },
    }
}

/// The place of the first script that answers the request.
pub open spec fn first_answering(
    scripts: Seq<ScriptView>,
    name: Seq<char>,
    extension: Option<Seq<char>>,
) -> Option<int>
    decreases scripts.len(),
{
    if scripts.len() == 0 {
        None
    } else {
        match first_answering(scripts.drop_last(), name, extension) {
            Some(i) => Some(i),
            None => if answers(scripts.last(), name, extension) {
                Some(scripts.len() - 1)
            } else {
                None
            },
        }
    }
}

proof fn lemma_find_none(scripts: Seq<ScriptView>, name: Seq<char>, extension: Option<Seq<char>>)
    requires
        forall|j: int| 0 <= j < scripts.len() ==> !answers(#[trigger] scripts[j], name, extension),
    ensures
        first_answering(scripts, name, extension) is None,
    decreases scripts.len(),
{
    if scripts.len() > 0 {
        assert forall|j: int| 0 <= j < scripts.drop_last().len() implies !answers(
            #[trigger] scripts.drop_last()[j],
            name,
            extension,
        ) by {
            assert(scripts.drop_last()[j] == scripts[j]);
        }
        lemma_find_none(scripts.drop_last(), name, extension);
        assert(scripts.last() == scripts[scripts.len() - 1]);
    }
}

proof fn lemma_find_first(
    scripts: Seq<ScriptView>,
    name: Seq<char>,
    extension: Option<Seq<char>>,
    i: int,
)
    requires
        0 <= i < scripts.len(),
        answers(scripts[i], name, extension),
        forall|j: int| 0 <= j < i ==> !answers(#[trigger] scripts[j], name, extension),
    ensures
        first_answering(scripts, name, extension) == Some(i),
    decreases scripts.len(),
{
    let front = scripts.drop_last();
    if i < scripts.len() - 1 {
        assert(front[i] == scripts[i]);
        assert forall|j: int| 0 <= j < i implies !answers(#[trigger] front[j], name, extension) by {
            assert(front[j] == scripts[j]);
        }
        lemma_find_first(front, name, extension, i);
    } else {
        assert forall|j: int| 0 <= j < front.len() implies !answers(
            #[trigger] front[j],
            name,
            extension,
        ) by {
            assert(front[j] == scripts[j]);
        }
        lemma_find_none(front, name, extension);
        assert(scripts.last() == scripts[i]);
    }
}

/// Goes on with a run after the user was asked: picks the candidate that
/// the line names and builds the command for the script.
pub fn run_selected(
    script: &Script,
    candidates: &Vec<Plugin>,
    input: Option<&str>,
    args: &Vec<String>,
) -> (r: Result<CommandExecutor, RunError>)
    ensures
        match wanted_text(input) {
            Some(line) => match selection(line, candidates.len() as nat) {
                Some(i) => commands(
                    candidates@[i as int]@,
                    path_text(script.path),
                    texts(args@),
                    r,
                ),
                None => r matches Err(RunError::InvalidSelection),
            },
            None => r matches Err(RunError::InvalidSelection),
        },
{
    match select_plugin_interactive(candidates, input) {
        Ok(plugin) => command_for(&plugin, &script.path, args),
        Err(e) => Err(e),
    }
}

} // verus!
