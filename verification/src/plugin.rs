//! Plugin records: the definition of an executor and the extensions it
//! claims, the validation of its required fields and the advisory check of
//! the commands it needs.

use vstd::prelude::*;
use vstd::string::StringExecFns;
use crate::lookup::on_search_path;
use crate::template::{lemma_placeholder_text, placeholder};
use crate::text::{copy_texts, texts};

verus! {

/// A named definition of how to run scripts of some extensions.
#[derive(Debug)]
pub struct Plugin {
    /// Unique identifier of the plugin.
    pub name: String,
    /// Program that runs the script.
    pub executor: String,
    /// Arguments handed to the executor; each `{file}` stands for the
    /// script's path.
    pub arg_template: Vec<String>,
    /// Extensions that the plugin claims, without the dot.
    pub extensions: Vec<String>,
    pub description: String,
    pub author: String,
    pub version: String,
    /// Other commands that the plugin expects to find on the search path.
    pub requires: Vec<String>,
}

/// What a plugin record holds, as mathematical values.
pub struct PluginView {
    pub name: Seq<char>,
    pub executor: Seq<char>,
    pub arg_template: Seq<Seq<char>>,
    pub extensions: Seq<Seq<char>>,
    pub description: Seq<char>,
    pub author: Seq<char>,
    pub version: Seq<char>,
    pub requires: Seq<Seq<char>>,
}

impl View for Plugin {
    type V = PluginView;

    open spec fn view(&self) -> PluginView {
        PluginView {
            name: self.name@,
            executor: self.executor@,
            arg_template: texts(self.arg_template@),
            extensions: texts(self.extensions@),
            description: self.description@,
            author: self.author@,
            version: self.version@,
            requires: texts(self.requires@),
        }
    }
}

impl Clone for Plugin {
    fn clone(&self) -> (r: Plugin)
        ensures
            r@ == self@,
    {
        Plugin {
            name: self.name.clone(),
            executor: self.executor.clone(),
            arg_template: copy_texts(&self.arg_template),
            extensions: copy_texts(&self.extensions),
            description: self.description.clone(),
            author: self.author.clone(),
            version: self.version.clone(),
            requires: copy_texts(&self.requires),
        }
    }
}

/// A required field that a record leaves empty.
#[derive(Debug, Clone, Copy, PartialEq, Eq, Structural)]
pub enum PluginError {
    EmptyName,
    EmptyExecutor,
    NoExtensions,
}

impl PluginError {
    /// The message shown for this fault.
    pub fn message(&self) -> (r: String)
        ensures
            r@ == fault_message(*self),
    {
        match self {
            PluginError::EmptyName => String::from_str("Plugin name cannot be empty"),
            PluginError::EmptyExecutor => String::from_str("Plugin executor cannot be empty"),
            PluginError::NoExtensions => String::from_str(
                "Plugin must support at least one extension",
            ),
        }
    }
}

/// The first required field that `p` leaves empty, in the order name,
/// executor, extensions.
pub open spec fn field_fault(p: PluginView) -> Option<PluginError> {
    if p.name.len() == 0 {
        Some(PluginError::EmptyName)
    } else if p.executor.len() == 0 {
        Some(PluginError::EmptyExecutor)
    } else if p.extensions.len() == 0 {
        Some(PluginError::NoExtensions)
    } else {
        None
    }
}

/// A record is valid when its name, its executor and its list of extensions
/// are not empty.
pub open spec fn is_valid(p: PluginView) -> bool {
    field_fault(p) is None
}

/// A record whose name, executor or list of extensions is empty is never
/// valid, and the fault that is reported names the first of them that is
/// empty.
pub proof fn law_empty_field_is_refused(p: PluginView)
    requires
        p.name.len() == 0 || p.executor.len() == 0 || p.extensions.len() == 0,
    ensures
        !is_valid(p),
        p.name.len() == 0 ==> field_fault(p) == Some(PluginError::EmptyName),
        p.name.len() > 0 && p.executor.len() == 0 ==> field_fault(p) == Some(
            PluginError::EmptyExecutor,
        ),
        p.name.len() > 0 && p.executor.len() > 0 ==> field_fault(p) == Some(
            PluginError::NoExtensions,
        ),
{
}

/// The text of the message for a fault.
pub open spec fn fault_message(e: PluginError) -> Seq<char> {
    match e {
        PluginError::EmptyName => "Plugin name cannot be empty"@,
        PluginError::EmptyExecutor => "Plugin executor cannot be empty"@,
        PluginError::NoExtensions => "Plugin must support at least one extension"@,
    }
}

/// Different faults have different messages.
pub proof fn law_fault_messages_differ(a: PluginError, b: PluginError)
    requires
        a != b,
    ensures
        fault_message(a) != fault_message(b),
{
    reveal_strlit("Plugin name cannot be empty");
    reveal_strlit("Plugin executor cannot be empty");
    reveal_strlit("Plugin must support at least one extension");
    assert("Plugin name cannot be empty"@[7] == 'n');
    assert("Plugin executor cannot be empty"@[7] == 'e');
    assert("Plugin must support at least one extension"@[7] == 'm');
}

/// The template of a plugin that names none: the placeholder alone, so
/// that the script's path is the one argument.
pub fn default_arg_template() -> (r: Vec<String>)
    ensures
        texts(r@) == seq![placeholder()],
{
    let mut out: Vec<String> = Vec::new();
    out.push(String::from_str("{file}"));
    proof {
        lemma_placeholder_text();
    }
    assert(texts(out@) =~= seq![placeholder()]);
    out
}

/// A command that a plugin needs and the search path does not offer.
#[derive(Debug)]
pub enum Advisory {
    /// The executor itself is missing.
    Executor(String),
    /// One of the auxiliary commands is missing.
    Requirement(String),
}

/// An advisory as mathematical values.
pub enum AdvisoryView {
    Executor(Seq<char>),
    Requirement(Seq<char>),
}

impl View for Advisory {
    type V = AdvisoryView;

    open spec fn view(&self) -> AdvisoryView {
        match *self {
            Advisory::Executor(c) => AdvisoryView::Executor(c@),
            Advisory::Requirement(c) => AdvisoryView::Requirement(c@),
        }
    }
}

/// The text of the warning for an advisory.
pub open spec fn advisory_message(a: AdvisoryView) -> Seq<char> {
    match a {
        AdvisoryView::Executor(c) => "警告: 执行器 '"@ + c
            + "' 未在 PATH 中找到，插件可能无法正常工作。"@,
        AdvisoryView::Requirement(c) => "警告: 依赖命令 '"@ + c + "' 未在 PATH 中找到。"@,
    }
}

impl Advisory {
    /// The warning shown for this advisory.
    pub fn message(&self) -> (r: String)
        ensures
            r@ == advisory_message(self@),
    {
        match self {
            Advisory::Executor(c) => {
                let mut out = String::from_str("警告: 执行器 '");
                out.append(c.as_str());
                out.append("' 未在 PATH 中找到，插件可能无法正常工作。");
                out
            },
            Advisory::Requirement(c) => {
                let mut out = String::from_str("警告: 依赖命令 '");
                out.append(c.as_str());
                out.append("' 未在 PATH 中找到。");
                out
            },
        }
    }
}

/// The views of a list of advisories, in order.
pub open spec fn advisory_views(v: Seq<Advisory>) -> Seq<AdvisoryView> {
    Seq::new(v.len(), |i: int| v[i]@)
}

/// One advisory for each auxiliary command that was not found, in the order
/// of the list. `found[i]` says whether the command at `i` was found; a
/// command without an answer counts as missing.
pub open spec fn missing_requirements(reqs: Seq<Seq<char>>, found: Seq<bool>) -> Seq<
    AdvisoryView,
>
    decreases reqs.len(),
{
    if reqs.len() == 0 {
        Seq::empty()
    } else {
        let head = missing_requirements(reqs.drop_last(), found);
        if reqs.len() - 1 < found.len() && found[reqs.len() - 1] {
            head
        } else {
            head.push(AdvisoryView::Requirement(reqs.last()))
        }
    }
}

/// The advisories of a record: the executor first, if it is missing, then
/// the missing auxiliary commands.
pub open spec fn advisories(p: PluginView, executor_found: bool, found: Seq<bool>) -> Seq<
    AdvisoryView,
> {
    if executor_found {
        missing_requirements(p.requires, found)
    } else {
        seq![AdvisoryView::Executor(p.executor)] + missing_requirements(p.requires, found)
    }
}

impl Plugin {
    /// The advisories for this record, given what a look at the search path
    /// found: `executor_found` for the executor, `found[i]` for the
    /// auxiliary command at `i`.
    pub fn advisories(&self, executor_found: bool, found: &Vec<bool>) -> (r: Vec<Advisory>)
        ensures
            advisory_views(r@) == advisories(self@, executor_found, found@),
    {
        let mut out: Vec<Advisory> = Vec::new();
        if !executor_found {
            out.push(Advisory::Executor(self.executor.clone()));
        }
        let ghost lead = advisory_views(out@);
        let mut i: usize = 0;
        assert(self@.requires.take(0) =~= Seq::<Seq<char>>::empty());
        assert(advisory_views(out@) =~= lead + missing_requirements(
            self@.requires.take(0),
            found@,
        ));
        while i < self.requires.len()
            invariant
                i <= self.requires.len(),
                lead == if executor_found {
                    Seq::<AdvisoryView>::empty()
                } else {
                    seq![AdvisoryView::Executor(self@.executor)]
                },
                advisory_views(out@) == lead + missing_requirements(
                    self@.requires.take(i as int),
                    found@,
                ),
            decreases self.requires.len() - i,
        {
            let ghost before = self@.requires.take(i as int);
            let ghost after = self@.requires.take(i + 1);
            assert(after.drop_last() =~= before);
            assert(after.last() == self.requires@[i as int]@);
            let ghost head = missing_requirements(before, found@);
            let ghost seen = advisory_views(out@);
            if !(i < found.len() && found[i]) {
                out.push(Advisory::Requirement(self.requires[i].clone()));
                assert(advisory_views(out@) =~= seen.push(
                    AdvisoryView::Requirement(after.last()),
                ));
                assert(missing_requirements(after, found@) == head.push(
                    AdvisoryView::Requirement(after.last()),
                ));
            } else {
                assert(missing_requirements(after, found@) == head);
            }
            assert(advisory_views(out@) =~= lead + missing_requirements(after, found@));
            i += 1;
        }
        assert(self@.requires.take(self.requires.len() as int) =~= self@.requires);
        assert(advisory_views(out@) =~= advisories(self@, executor_found, found@));
        out
    }

    /// Looks up the executor and each auxiliary command on the search path
    /// and reports those that are missing, the executor first.
    pub fn check_commands(&self) -> (r: Vec<Advisory>)
        ensures
            exists|executor_found: bool, found: Seq<bool>|
                found.len() == self@.requires.len() && advisory_views(r@) == advisories(
                    self@,
                    executor_found,
                    found,
                ),
    {
        let executor_found = on_search_path(self.executor.as_str());
        let mut found: Vec<bool> = Vec::new();
        let mut i: usize = 0;
        while i < self.requires.len()
            invariant
                i <= self.requires.len(),
                found.len() == i,
            decreases self.requires.len() - i,
        {
            found.push(on_search_path(self.requires[i].as_str()));
            i += 1;
        }
        self.advisories(executor_found, &found)
    }

    /// The advisory check of the commands that the plugin needs. It never
    /// fails, whatever is missing: what is missing is reported.
    pub fn validate(&self) -> (r: Result<Vec<Advisory>, PluginError>)
        ensures
            r is Ok,
            exists|executor_found: bool, found: Seq<bool>|
                found.len() == self@.requires.len() && advisory_views(r->Ok_0@) == advisories(
                    self@,
                    executor_found,
                    found,
                ),
    {
        Ok(self.check_commands())
    }

    /// Checks the required fields.
    pub fn check_fields(&self) -> (r: Result<(), PluginError>)
        ensures
            match r {
                Ok(_) => is_valid(self@),
                Err(e) => field_fault(self@) == Some(e),
            },
    {
        if self.name.as_str().is_empty() {
            Err(PluginError::EmptyName)
        } else if self.executor.as_str().is_empty() {
            Err(PluginError::EmptyExecutor)
        } else if self.extensions.len() == 0 {
            Err(PluginError::NoExtensions)
        } else {
            Ok(())
        }
    }
}

} // verus!
