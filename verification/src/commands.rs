//! The decisions of the plugin and script commands: whether a change needs
//! the user's consent, what a consent given or withheld leads to, and how
//! an answer is read.

use vstd::prelude::*;
use vstd::string::StringExecFns;
use crate::format::{matches_folded, same_folded};
use crate::lookup::on_search_path;
use crate::plugin::{advisories, advisory_views, Advisory, Plugin, PluginView};
use crate::registry::PluginDatabase;
use crate::script::Script;
use crate::selection::{trim, trimmed};
use crate::text::{join_texts, joined, texts};

verus! {

/// A plugin that a command names and the registry does not hold.
#[derive(Debug)]
pub struct PluginMissing(pub String);

impl PluginMissing {
    /// The message shown for this error.
    pub fn message(&self) -> (r: String)
        ensures
            r@ == "Plugin '"@ + self.0@ + "' not found"@,
    {
        let mut out = String::from_str("Plugin '");
        out.append(self.0.as_str());
        out.append("' not found");
        out
    }
}

/// What a yes/no answer says: `Some` for yes and no, the default for an
/// empty line, `None` for anything else, after which the question is asked
/// again. The line is trimmed, and the case of its letters does not count.
pub open spec fn confirmation(line: Seq<char>, default_yes: bool) -> Option<bool> {
    let t = trimmed(line);
    if same_folded(t, "y"@) || same_folded(t, "yes"@) {
        Some(true)
    } else if same_folded(t, "n"@) || same_folded(t, "no"@) {
        Some(false)
    } else if t.len() == 0 {
        Some(default_yes)
    } else {
        None
    }
}

/// Reads a yes/no answer.
pub fn read_confirmation(line: &str, default_yes: bool) -> (r: Option<bool>)
    ensures
        r == confirmation(line@, default_yes),
{
    let t = trim(line);
    if matches_folded(t, "y") || matches_folded(t, "yes") {
        Some(true)
    } else if matches_folded(t, "n") || matches_folded(t, "no") {
        Some(false)
    } else if t.is_empty() {
        Some(default_yes)
    } else {
        None
    }
}

/// What adding a plugin asks for.
#[derive(Debug, Clone, Copy, PartialEq, Eq, Structural)]
pub enum AddStep {
    /// No plugin of that name is registered: the plugin is added.
    Insert,
    /// A plugin of that name is registered and is to be overwritten.
    Overwrite,
    /// A plugin of that name is registered: the user decides.
    Ask,
}

/// The step that adding a plugin of this name takes.
pub open spec fn add_choice(
    db: Map<Seq<char>, PluginView>,
    name: Seq<char>,
    force: bool,
) -> AddStep {
    if !db.contains_key(name) {
        AddStep::Insert
    } else if force {
        AddStep::Overwrite
    } else {
        AddStep::Ask
    }
}

/// What adding a plugin of this name asks for: a new name is added, and an
/// existing plugin is overwritten only under `force` or with the user's
/// consent.
pub fn add_step(db: &PluginDatabase, name: &str, force: bool) -> (r: AddStep)
    ensures
        r == add_choice(db@, name@, force),
{
    match db.get_plugin(name) {
        None => AddStep::Insert,
        Some(_) => if force {
            AddStep::Overwrite
        } else {
            AddStep::Ask
        },
    }
}

/// How adding a plugin ended.
#[derive(Debug)]
pub enum AddOutcome {
    /// The plugin is new in the registry.
    Added(Vec<Advisory>),
    /// The plugin took the place of the one of its name.
    Updated(Vec<Advisory>),
    /// A plugin of that name stays as it was.
    Cancelled,
}

/// Adds `plugin` to the registry. A plugin whose name is new is added. One
/// whose name is taken replaces the registered plugin where `overwrite`
/// allows it, and otherwise leaves the registry as it was. The advisories
/// name the commands that the plugin needs and the search path lacks.
pub fn install(db: &mut PluginDatabase, plugin: Plugin, overwrite: bool) -> (r: AddOutcome)
    ensures
        final(db).schema_version() == old(db).schema_version(),
        !old(db)@.contains_key(plugin@.name) ==> r is Added && final(db)@ == old(db)@.insert(
            plugin@.name,
            plugin@,
        ),
        old(db)@.contains_key(plugin@.name) && overwrite ==> r is Updated && final(db)@ == old(
            db,
        )@.insert(plugin@.name, plugin@),
        old(db)@.contains_key(plugin@.name) && !overwrite ==> r is Cancelled && final(db)@ == old(
            db,
        )@,
        match r {
            AddOutcome::Added(notes) | AddOutcome::Updated(notes) => exists|
                executor_found: bool,
                found: Seq<bool>,
            |
                advisory_views(notes@) == advisories(plugin@, executor_found, found),
            AddOutcome::Cancelled => true,
        },
{
    let exists = db.get_plugin(plugin.name.as_str()).is_some();
    if !exists {
        match db.add_plugin(plugin) {
            Ok(notes) => AddOutcome::Added(notes),
            Err(_) => AddOutcome::Cancelled,
        }
    } else if overwrite {
        match db.update_plugin(plugin) {
            Ok(notes) => AddOutcome::Updated(notes),
            Err(_) => AddOutcome::Cancelled,
        }
    } else {
        AddOutcome::Cancelled
    }
}

/// What removing a plugin asks for.
#[derive(Debug, Clone, Copy, PartialEq, Eq, Structural)]
pub enum RemoveStep {
    /// The plugin is removed without a question.
    Remove,
    /// The user decides.
    Ask,
}

/// What removing the plugin of this name asks for: an unknown name is an
/// error, and a known plugin is removed under `yes` or with the user's
/// consent.
pub fn remove_step(db: &PluginDatabase, name: &str, yes: bool) -> (r: Result<
    RemoveStep,
    PluginMissing,
>)
    ensures
        match r {
            Ok(step) => db@.contains_key(name@) && step == if yes {
                RemoveStep::Remove
            } else {
                RemoveStep::Ask
            },
            Err(e) => !db@.contains_key(name@) && e.0@ == name@,
        },
{
    match db.get_plugin(name) {
        None => Err(PluginMissing(String::from_str(name))),
        Some(_) => if yes {
            Ok(RemoveStep::Remove)
        } else {
            Ok(RemoveStep::Ask)
        },
    }
}

/// The plugin of this name, for the commands that show or export it.
pub fn find_plugin<'a>(db: &'a PluginDatabase, name: &str) -> (r: Result<&'a Plugin, PluginMissing>)
    ensures
        match r {
            Ok(p) => db@.contains_key(name@) && p@ == db@[name@],
            Err(e) => !db@.contains_key(name@) && e.0@ == name@,
        },
{
    match db.get_plugin(name) {
        Some(p) => Ok(p),
        None => Err(PluginMissing(String::from_str(name))),
    }
}

/// The file name of a script: its name, a dot and its extension, or the
/// name alone where the extension is empty.
pub open spec fn display_text(name: Seq<char>, extension: Seq<char>) -> Seq<char> {
    if extension.len() == 0 {
        name
    } else {
        name + "."@ + extension
    }
}

/// The name under which a script is shown.
pub fn display_name(script: &Script) -> (r: String)
    ensures
        r@ == display_text(script@.name, script@.extension),
{
    let mut out = script.name.clone();
    if !script.extension.as_str().is_empty() {
        out.append(".");
        out.append(script.extension.as_str());
    }
    out
}

/// The line that says whether the auxiliary command `req` was found.
pub open spec fn requirement_line(req: Seq<char>, found: bool) -> Seq<char> {
    if found {
        "  ✓ "@ + req + " (installed)"@
    } else {
        "  ✗ "@ + req + " (not found)"@
    }
}

/// One line for each auxiliary command, in the order of the list; a
/// command without an answer counts as missing.
pub open spec fn requirement_lines(reqs: Seq<Seq<char>>, found: Seq<bool>) -> Seq<Seq<char>>
    decreases reqs.len(),
{
    if reqs.len() == 0 {
        Seq::empty()
    } else {
        requirement_lines(reqs.drop_last(), found).push(
            requirement_line(
                reqs.last(),
                reqs.len() - 1 < found.len() && found[reqs.len() - 1],
            ),
        )
    }
}

/// The lines that identify a plugin: name and version, then author and
/// description where they are not empty.
pub open spec fn identity_lines(p: PluginView) -> Seq<Seq<char>> {
    seq!["Plugin: "@ + p.name, "Version: "@ + p.version] + (if p.author.len() == 0 {
        Seq::<Seq<char>>::empty()
    } else {
        seq!["Author: "@ + p.author]
    }) + (if p.description.len() == 0 {
        Seq::<Seq<char>>::empty()
    } else {
        seq!["Description: "@ + p.description]
    })
}

/// The lines that say how a plugin runs a script.
pub open spec fn invocation_lines(p: PluginView) -> Seq<Seq<char>> {
    seq![
        Seq::<char>::empty(),
        "Executor: "@ + p.executor,
        "Extensions: "@ + joined(p.extensions, ", "@),
        "Argument Template: "@ + joined(p.arg_template, " "@),
    ]
}

/// The lines on the auxiliary commands; none where the plugin needs none.
pub open spec fn requirements_section(p: PluginView, found: Seq<bool>) -> Seq<Seq<char>> {
    if p.requires.len() == 0 {
        Seq::<Seq<char>>::empty()
    } else {
        seq![Seq::<char>::empty(), "Requirements:"@] + requirement_lines(p.requires, found)
    }
}

/// The lines that say whether the plugin can be used.
pub open spec fn status_lines(p: PluginView, executor_found: bool) -> Seq<Seq<char>> {
    if executor_found {
        seq![Seq::<char>::empty(), "Status: ✓ Ready to use"@]
    } else {
        seq![
            Seq::<char>::empty(),
            "Status: ✗ Executor not found in PATH"@,
            "        Please install '"@ + p.executor + "' to use this plugin"@,
        ]
    }
}

/// The description of a plugin, line by line, given what a look at the
/// search path found.
pub open spec fn info_text(p: PluginView, executor_found: bool, found: Seq<bool>) -> Seq<
    Seq<char>,
> {
    identity_lines(p) + invocation_lines(p) + requirements_section(p, found) + status_lines(
        p,
        executor_found,
    )
}

fn labelled(label: &str, value: &str) -> (r: String)
    ensures
        r@ == label@ + value@,
{
    let mut out = String::from_str(label);
    out.append(value);
    out
}

/// The description of a plugin, line by line: `executor_found` says
/// whether the executor was found on the search path, `found[i]` whether
/// the auxiliary command at `i` was.
pub fn info_lines(plugin: &Plugin, executor_found: bool, found: &Vec<bool>) -> (r: Vec<String>)
    ensures
        texts(r@) == info_text(plugin@, executor_found, found@),
{
    let mut out: Vec<String> = Vec::new();
    out.push(labelled("Plugin: ", plugin.name.as_str()));
    out.push(labelled("Version: ", plugin.version.as_str()));
    if !plugin.author.as_str().is_empty() {
        out.push(labelled("Author: ", plugin.author.as_str()));
    }
    if !plugin.description.as_str().is_empty() {
        out.push(labelled("Description: ", plugin.description.as_str()));
    }
    assert(texts(out@) =~= identity_lines(plugin@));
    out.push(String::new());
    out.push(labelled("Executor: ", plugin.executor.as_str()));
    out.push(labelled("Extensions: ", join_texts(&plugin.extensions, ", ").as_str()));
    out.push(labelled("Argument Template: ", join_texts(&plugin.arg_template, " ").as_str()));
    assert(texts(out@) =~= identity_lines(plugin@) + invocation_lines(plugin@));
    let ghost lead = texts(out@);
    if plugin.requires.len() > 0 {
        out.push(String::new());
        out.push(String::from_str("Requirements:"));
        let ghost head = texts(out@);
        assert(head =~= lead + seq![Seq::<char>::empty(), "Requirements:"@]);
        let mut i: usize = 0;
        assert(plugin@.requires.take(0) =~= Seq::<Seq<char>>::empty());
        assert(texts(out@) =~= head + requirement_lines(plugin@.requires.take(0), found@));
        while i < plugin.requires.len()
            invariant
                i <= plugin.requires.len(),
                texts(out@) == head + requirement_lines(plugin@.requires.take(i as int), found@),
            decreases plugin.requires.len() - i,
        {
            let ghost seen = texts(out@);
            let ghost after = plugin@.requires.take(i + 1);
            assert(after.drop_last() =~= plugin@.requires.take(i as int));
            assert(after.last() == plugin.requires@[i as int]@);
            let was_found = i < found.len() && found[i];
            let mut line = if was_found {
                String::from_str("  ✓ ")
            } else {
                String::from_str("  ✗ ")
            };
            line.append(plugin.requires[i].as_str());
            if was_found {
                line.append(" (installed)");
            } else {
                line.append(" (not found)");
            }
            assert(line@ == requirement_line(after.last(), was_found));
            out.push(line);
            assert(texts(out@) =~= seen.push(requirement_line(after.last(), was_found)));
            assert(texts(out@) =~= head + requirement_lines(after, found@));
            i += 1;
        }
        assert(plugin@.requires.take(plugin.requires.len() as int) =~= plugin@.requires);
        assert(texts(out@) =~= lead + requirements_section(plugin@, found@));
    } else {
        assert(texts(out@) =~= lead + requirements_section(plugin@, found@));
    }
    let ghost body = texts(out@);
    out.push(String::new());
    if executor_found {
        out.push(String::from_str("Status: ✓ Ready to use"));
    } else {
        out.push(String::from_str("Status: ✗ Executor not found in PATH"));
        let mut hint = String::from_str("        Please install '");
        hint.append(plugin.executor.as_str());
        hint.append("' to use this plugin");
        out.push(hint);
    }
    assert(texts(out@) =~= body + status_lines(plugin@, executor_found));
    out
}

/// The description of a plugin, with a look at the search path for its
/// executor and its auxiliary commands.
pub fn info(plugin: &Plugin) -> (r: Vec<String>)
    ensures
        exists|executor_found: bool, found: Seq<bool>|
            found.len() == plugin@.requires.len() && texts(r@) == info_text(
                plugin@,
                executor_found,
                found,
            ),
{
    let executor_found = on_search_path(plugin.executor.as_str());
    let mut found: Vec<bool> = Vec::new();
    let mut i: usize = 0;
    while i < plugin.requires.len()
        invariant
            i <= plugin.requires.len(),
            found.len() == i,
        decreases plugin.requires.len() - i,
    {
        found.push(on_search_path(plugin.requires[i].as_str()));
        i += 1;
    }
    info_lines(plugin, executor_found, &found)
}

/// The extensions of a plugin as they stand in the list of plugins:
/// between brackets, with commas.
pub fn extension_cell(plugin: &Plugin) -> (r: String)
    ensures
        r@ == "["@ + joined(plugin@.extensions, ","@) + "]"@,
{
    let mut out = String::from_str("[");
    out.append(join_texts(&plugin.extensions, ",").as_str());
    out.append("]");
    out
}

/// The editor that opens a script: the one that `EDITOR` names, else the
/// plain editor of the platform.
pub fn choose_editor(named: Option<String>, windows: bool) -> (r: String)
    ensures
        r@ == match named {
            Some(e) => e@,
            None => if windows {
                "notepad"@
            } else {
                "nano"@
            },
        },
{
    match named {
        Some(e) => e,
        None => if windows {
            String::from_str("notepad")
        } else {
            String::from_str("nano")
        },
    }
}

} // verus!
