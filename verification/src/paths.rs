//! Where the scripts and the plugin store are kept, as decided from the
//! environment variables that the caller read.

use vstd::prelude::*;
use vstd::string::StringExecFns;
use crate::text::texts;

verus! {

/// The environment variables that decide where the data is kept; `None`
/// stands for a variable that is not set.
#[derive(Debug)]
pub struct Environment {
    /// `RUNE_REPO`: the script directory itself.
    pub repo: Option<String>,
    /// `RUNE_PLUGIN`: the plugin directory itself.
    pub plugin: Option<String>,
    /// The directory for application data: `XDG_DATA_HOME`, or `APPDATA`
    /// on Windows.
    pub data: Option<String>,
    /// The user's home directory: `HOME`, or `USERPROFILE` on Windows.
    pub home: Option<String>,
    /// Whether the program runs on Windows.
    pub windows: bool,
}

/// A path: a base directory and the names to go down from it, in order.
#[derive(Debug)]
pub struct Location {
    pub base: String,
    pub parts: Vec<String>,
}

/// A location as mathematical values.
pub struct LocationView {
    pub base: Seq<char>,
    pub parts: Seq<Seq<char>>,
}

impl View for Location {
    type V = LocationView;

    open spec fn view(&self) -> LocationView {
        LocationView { base: self.base@, parts: texts(self.parts@) }
    }
}

/// No variable says where the data directory is.
#[derive(Debug, Clone, Copy, PartialEq, Eq, Structural)]
pub struct NoDataDirectory {
    pub windows: bool,
}

impl NoDataDirectory {
    /// The message shown for this error: it names the variables that were
    /// looked at.
    pub fn message(&self) -> (r: String)
        ensures
            r@ == if self.windows {
                "Could not determine data directory: APPDATA or USERPROFILE not set"@
            } else {
                "Could not determine data directory: XDG_DATA_HOME or HOME not set"@
            },
    {
        if self.windows {
            String::from_str("Could not determine data directory: APPDATA or USERPROFILE not set")
        } else {
            String::from_str("Could not determine data directory: XDG_DATA_HOME or HOME not set")
        }
    }
}

/// The text of an optional string.
pub open spec fn set_to(x: Option<String>) -> Option<Seq<char>> {
    match x {
        Some(t) => Some(t@),
        None => None,
    }
}

/// The names that lead from the home directory to the data directory.
pub open spec fn home_parts(windows: bool) -> Seq<Seq<char>> {
    if windows {
        seq!["AppData"@, "Roaming"@, "rune"@]
    } else {
        seq![".local"@, "share"@, "rune"@]
    }
}

/// The data directory: `rune` below the directory for application data,
/// else the conventional place below the home directory.
pub open spec fn data_home(
    data: Option<Seq<char>>,
    home: Option<Seq<char>>,
    windows: bool,
) -> Option<LocationView> {
    match data {
        Some(d) => Some(LocationView { base: d, parts: seq!["rune"@] }),
        None => match home {
            Some(h) => Some(LocationView { base: h, parts: home_parts(windows) }),
            None => None,
        },
    }
}

/// A directory that the user may name outright, and that is otherwise
/// `leaf` below the data directory.
pub open spec fn chosen_dir(
    named: Option<Seq<char>>,
    data: Option<Seq<char>>,
    home: Option<Seq<char>>,
    windows: bool,
    leaf: Seq<char>,
) -> Option<LocationView> {
    match named {
        Some(n) => Some(LocationView { base: n, parts: Seq::empty() }),
        None => match data_home(data, home, windows) {
            Some(d) => Some(LocationView { base: d.base, parts: d.parts.push(leaf) }),
            None => None,
        },
    }
}

/// `r` is the location `want`, or the error where there is none.
pub open spec fn located(
    want: Option<LocationView>,
    windows: bool,
    r: Result<Location, NoDataDirectory>,
) -> bool {
    match want {
        Some(l) => r matches Ok(found) && found@ == l,
        None => r matches Err(e) && e.windows == windows,
    }
}

/// The data directory of this program.
pub fn get_data_home(env: &Environment) -> (r: Result<Location, NoDataDirectory>)
    ensures
        located(data_home(set_to(env.data), set_to(env.home), env.windows), env.windows, r),
{
    match &env.data {
        Some(d) => {
            let mut parts: Vec<String> = Vec::new();
            parts.push(String::from_str("rune"));
            assert(texts(parts@) =~= seq!["rune"@]);
            Ok(Location { base: d.clone(), parts })
        },
        None => match &env.home {
            Some(h) => {
                let mut parts: Vec<String> = Vec::new();
                if env.windows {
                    parts.push(String::from_str("AppData"));
                    parts.push(String::from_str("Roaming"));
                } else {
                    parts.push(String::from_str(".local"));
                    parts.push(String::from_str("share"));
                }
                parts.push(String::from_str("rune"));
                assert(texts(parts@) =~= home_parts(env.windows));
                Ok(Location { base: h.clone(), parts })
            },
            None => Err(NoDataDirectory { windows: env.windows }),
        },
    }
}

fn below(named: &Option<String>, env: &Environment, leaf: &str) -> (r: Result<
    Location,
    NoDataDirectory,
>)
    ensures
        located(
            chosen_dir(set_to(*named), set_to(env.data), set_to(env.home), env.windows, leaf@),
            env.windows,
            r,
        ),
{
    match named {
        Some(n) => {
            let parts: Vec<String> = Vec::new();
            assert(texts(parts@) =~= Seq::<Seq<char>>::empty());
            Ok(Location { base: n.clone(), parts })
        },
        None => match get_data_home(env) {
            Ok(home) => {
                let mut found = home;
                let ghost before = texts(found.parts@);
                found.parts.push(String::from_str(leaf));
                assert(texts(found.parts@) =~= before.push(leaf@));
                Ok(found)
            },
            Err(e) => Err(e),
        },
    }
}

/// The directory of the scripts: the one that `RUNE_REPO` names, else
/// `scripts` below the data directory.
pub fn get_script_path(env: &Environment) -> (r: Result<Location, NoDataDirectory>)
    ensures
        located(
            chosen_dir(
                set_to(env.repo),
                set_to(env.data),
                set_to(env.home),
                env.windows,
                "scripts"@,
            ),
            env.windows,
            r,
        ),
{
    below(&env.repo, env, "scripts")
}

/// The directory of the plugin store: the one that `RUNE_PLUGIN` names,
/// else `plugin` below the data directory.
pub fn get_plugin_path(env: &Environment) -> (r: Result<Location, NoDataDirectory>)
    ensures
        located(
            chosen_dir(
                set_to(env.plugin),
                set_to(env.data),
                set_to(env.home),
                env.windows,
                "plugin"@,
            ),
            env.windows,
            r,
        ),
{
    below(&env.plugin, env, "plugin")
}

/// The file of the plugin store: `plugin.dat` in the plugin directory.
pub fn get_plugin_db(env: &Environment) -> (r: Result<Location, NoDataDirectory>)
    ensures
        match chosen_dir(
            set_to(env.plugin),
            set_to(env.data),
            set_to(env.home),
            env.windows,
            "plugin"@,
        ) {
            Some(dir) => r matches Ok(found) && found@.base == dir.base && found@.parts
                == dir.parts.push("plugin.dat"@),
            None => r matches Err(e) && e.windows == env.windows,
        },
{
    match get_plugin_path(env) {
        Ok(dir) => {
            let mut found = dir;
            let ghost before = texts(found.parts@);
            found.parts.push(String::from_str("plugin.dat"));
            assert(texts(found.parts@) =~= before.push("plugin.dat"@));
            Ok(found)
        },
        Err(e) => Err(e),
    }
}

} // verus!
