//! Script descriptors: the name, the extension and the path of a script
//! file, and how the files of a directory become the script catalogue.

use std::path::PathBuf;
use vstd::prelude::*;
use vstd::string::{StrSliceExecFns, StringExecFns};
use crate::text::chars_of;

verus! {

/// `std::path::PathBuf`, carried through as an opaque value.
#[verifier::external_type_specification]
#[verifier::external_body]
pub struct ExPathBuf(PathBuf);

/// What `Path::to_str` gives for a path: its text, or `None` where the
/// path is not valid UTF-8.
pub uninterp spec fn path_text(path: PathBuf) -> Option<Seq<char>>;

/// `Path::to_str`: the path as text, or `None` where it is not valid
/// UTF-8. The result is a function of the path.
#[verifier::external_body]
pub(crate) fn path_to_text(path: &PathBuf) -> (r: Option<String>)
    ensures
        match r {
            Some(t) => path_text(*path) == Some(t@),
            None => path_text(*path) is None,
        },
{
    path.to_str().map(String::from)
}

/// `Clone` for `PathBuf`: the copy is the same path.
pub assume_specification[ <PathBuf as Clone>::clone ](path: &PathBuf) -> (r: PathBuf)
    ensures
        r == *path,
;

/// A script file that was found in the script directory.
#[derive(Debug)]
pub struct Script {
    /// The file name without its extension.
    pub name: String,
    /// The extension, without the dot and in the case it was written in.
    pub extension: String,
    /// The full path of the file.
    pub path: PathBuf,
}

/// The place of the last dot in `s`, or -1 where it holds none.
pub open spec fn last_dot(s: Seq<char>) -> int
    decreases s.len(),
{
    if s.len() == 0 {
        -1
    } else if s.last() == '.' {
        s.len() - 1
    } else {
        last_dot(s.drop_last())
    }
}

/// The stem and the extension of a file name: what stands before and after
/// its last dot. A name without a dot, or whose only dot comes first, has
/// no extension, and neither has the name `..`.
pub open spec fn stem_and_extension(file_name: Seq<char>) -> Option<(Seq<char>, Seq<char>)> {
    let dot = last_dot(file_name);
    if dot <= 0 || file_name == seq!['.', '.'] {
        None
    } else {
        Some((file_name.take(dot), file_name.skip(dot + 1)))
    }
}

/// Splits a file name into stem and extension.
pub fn split_file_name(file_name: &str) -> (r: Option<(String, String)>)
    ensures
        match r {
            Some(parts) => stem_and_extension(file_name@) == Some((parts.0@, parts.1@)),
            None => stem_and_extension(file_name@) is None,
        },
{
    let chars = chars_of(file_name);
    let n = chars.len();
    let mut end: usize = n;
    assert(file_name@.take(n as int) =~= file_name@);
    while end > 0 && chars[end - 1] != '.'
        invariant
            chars@ == file_name@,
            n == chars.len(),
            end <= n,
            last_dot(file_name@) == last_dot(file_name@.take(end as int)),
        decreases end,
    {
        assert(file_name@.take(end as int).drop_last() =~= file_name@.take(end - 1));
        end -= 1;
    }
    if end <= 1 {
        return None;
    }
    if n == 2 && chars[0] == '.' {
        assert(file_name@ =~= seq!['.', '.']);
        return None;
    }
    let dot: usize = end - 1;
    assert(last_dot(file_name@) == dot);
    assert(file_name@ != seq!['.', '.']) by {
        if file_name@ == seq!['.', '.'] {
            assert(seq!['.', '.'].len() == 2);
            assert(seq!['.', '.'][0] == '.');
        }
    }
    let stem = String::from_str(file_name.substring_char(0, dot));
    let extension = String::from_str(file_name.substring_char(dot + 1, n));
    assert(stem@ =~= file_name@.take(dot as int));
    assert(extension@ =~= file_name@.skip(dot + 1));
    Some((stem, extension))
}

/// A script descriptor as mathematical values.
pub struct ScriptView {
    pub name: Seq<char>,
    pub extension: Seq<char>,
    pub path: PathBuf,
}

impl View for Script {
    type V = ScriptView;

    open spec fn view(&self) -> ScriptView {
        ScriptView { name: self.name@, extension: self.extension@, path: self.path }
    }
}

/// The views of a list of scripts, in order.
pub open spec fn script_views(v: Seq<Script>) -> Seq<ScriptView> {
    Seq::new(v.len(), |i: int| v[i]@)
}

/// The descriptor of a file, where its name has an extension.
pub open spec fn described(file_name: Seq<char>, path: PathBuf) -> Option<ScriptView> {
    match stem_and_extension(file_name) {
        Some(parts) => Some(ScriptView { name: parts.0, extension: parts.1, path }),
        None => None,
    }
}

/// The catalogue that a list of files makes: one script for each file whose
/// name has an extension, in the order of the files.
pub open spec fn catalogue(files: Seq<(String, PathBuf)>) -> Seq<ScriptView>
    decreases files.len(),
{
    if files.len() == 0 {
        Seq::empty()
    } else {
        let head = catalogue(files.drop_last());
        match described(files.last().0@, files.last().1) {
            Some(script) => head.push(script),
            None => head,
        }
    }
}

impl Script {
    /// The descriptor of the file at `path` whose name is `file_name`;
    /// `None` for a file without an extension.
    pub fn describe(file_name: &str, path: PathBuf) -> (r: Option<Script>)
        ensures
            match r {
                Some(script) => described(file_name@, path) == Some(script@),
                None => described(file_name@, path) is None,
            },
    {
        match split_file_name(file_name) {
            Some(parts) => Some(Script { name: parts.0, extension: parts.1, path }),
            None => None,
        }
    }
}

/// The scripts among the regular files of a directory, each file given by
/// its name and its path. Files without an extension are left out.
pub fn load_scripts(files: &Vec<(String, PathBuf)>) -> (r: Vec<Script>)
    ensures
        script_views(r@) == catalogue(files@),
{
    let mut out: Vec<Script> = Vec::new();
    let mut i: usize = 0;
    assert(files@.take(0) =~= Seq::<(String, PathBuf)>::empty());
    assert(script_views(out@) =~= catalogue(files@.take(0)));
    while i < files.len()
        invariant
            i <= files.len(),
            script_views(out@) == catalogue(files@.take(i as int)),
        decreases files.len() - i,
    {
        let ghost seen = script_views(out@);
        let ghost after = files@.take(i + 1);
        assert(after.drop_last() =~= files@.take(i as int));
        assert(after.last() == files@[i as int]);
        match Script::describe(files[i].0.as_str(), files[i].1.clone()) {
            Some(script) => {
                out.push(script);
                assert(script_views(out@) =~= seen.push(script@));
            },
            None => {},
        }
        assert(script_views(out@) == catalogue(after));
        i += 1;
    }
    assert(files@.take(files.len() as int) =~= files@);
    out
}

} // verus!
