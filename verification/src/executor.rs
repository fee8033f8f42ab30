//! The process invoker's decisions: what to run, whether it may be started,
//! and what the end of the child process means.

use vstd::prelude::*;
use vstd::string::StringExecFns;
use crate::lookup::on_search_path;
use crate::text::{copy_texts, signed_decimal, signed_decimal_text, texts};

verus! {

/// A command and the arguments to run it with.
#[derive(Debug)]
pub struct CommandExecutor {
    /// The command to run.
    pub command: String,
    /// The arguments, each handed to the child as one argument.
    pub args: Vec<String>,
}

/// Why a command did not run to a successful end.
#[derive(Debug)]
pub enum ExecError {
    /// The command is not on the search path; nothing was started.
    CommandNotFound(String),
    /// The command was found and could not be started.
    SpawnFailed(String),
    /// The command ran and ended with a status other than zero.
    Failed { command: String, code: i32 },
}

/// The text of an execution error.
pub open spec fn exec_message(e: ExecError) -> Seq<char> {
    match e {
        ExecError::CommandNotFound(c) => "命令 '"@ + c@ + "' 未在 PATH 中找到"@,
        ExecError::SpawnFailed(c) => "执行命令失败: "@ + c@,
        ExecError::Failed { command, code } => "命令 '"@ + command@ + "' 退出码: "@
            + signed_decimal(code as int),
    }
}

impl ExecError {
    /// The message shown for this error.
    pub fn message(&self) -> (r: String)
        ensures
            r@ == exec_message(*self),
    {
        match self {
            ExecError::CommandNotFound(c) => {
                let mut out = String::from_str("命令 '");
                out.append(c.as_str());
                out.append("' 未在 PATH 中找到");
                out
            },
            ExecError::SpawnFailed(c) => {
                let mut out = String::from_str("执行命令失败: ");
                out.append(c.as_str());
                out
            },
            ExecError::Failed { command, code } => {
                let mut out = String::from_str("命令 '");
                out.append(command.as_str());
                out.append("' 退出码: ");
                out.append(signed_decimal_text(*code).as_str());
                out
            },
        }
    }
}

/// The permission to start a command: it is handed out only for a command
/// that was found on the search path.
#[derive(Debug)]
pub struct Launch {
    command: String,
    args: Vec<String>,
}

/// How the attempt to run a command ended.
#[derive(Debug, Clone, Copy, PartialEq, Eq, Structural)]
pub enum SpawnOutcome {
    /// The child process could not be started.
    NotStarted,
    /// The child ended; `code` is its exit code, if it has one.
    Exited { success: bool, code: Option<i32> },
}

/// The exit code that is reported for a child that ended without success:
/// its own, or -1 where it has none.
pub open spec fn reported_code(code: Option<i32>) -> i32 {
    match code {
        Some(c) => c,
        None => -1i32,
    }
}

impl Launch {
    pub closed spec fn command_view(&self) -> Seq<char> {
        self.command@
    }

    pub closed spec fn args_view(&self) -> Seq<Seq<char>> {
        texts(self.args@)
    }

    /// The command to start.
    pub fn command(&self) -> (r: &str)
        ensures
            r@ == self.command_view(),
    {
        self.command.as_str()
    }

    /// The arguments to start it with.
    pub fn args(&self) -> (r: &Vec<String>)
        ensures
            texts(r@) == self.args_view(),
    {
        &self.args
    }

    /// What the end of the attempt means: success for a child that ended
    /// with success, an error that carries the exit code for one that did
    /// not, and a spawn failure where no child was started.
    pub fn conclude(&self, outcome: SpawnOutcome) -> (r: Result<(), ExecError>)
        ensures
            match outcome {
                SpawnOutcome::NotStarted => r matches Err(ExecError::SpawnFailed(c)) && c@
                    == self.command_view(),
                SpawnOutcome::Exited { success, code } => if success {
                    r is Ok
                } else {
                    r matches Err(ExecError::Failed { command, code: reported }) && command@
                        == self.command_view() && reported == reported_code(code)
                },
            },
    {
        match outcome {
            SpawnOutcome::NotStarted => Err(ExecError::SpawnFailed(self.command.clone())),
            SpawnOutcome::Exited { success, code } => {
                if success {
                    Ok(())
                } else {
                    let reported: i32 = match code {
                        Some(c) => c,
                        None => -1,
                    };
                    Err(ExecError::Failed { command: self.command.clone(), code: reported })
                }
            },
        }
    }
}

impl CommandExecutor {
    /// An executor for `command`, without arguments.
    pub fn new(command: &str) -> (r: CommandExecutor)
        ensures
            r.command@ == command@,
            r.args@.len() == 0,
    {
        CommandExecutor { command: String::from_str(command), args: Vec::new() }
    }

    /// Adds one argument.
    pub fn arg(self, arg: &str) -> (r: CommandExecutor)
        ensures
            r.command@ == self.command@,
            texts(r.args@) == texts(self.args@).push(arg@),
    {
        let mut out = self;
        let ghost before = texts(out.args@);
        out.args.push(String::from_str(arg));
        assert(texts(out.args@) =~= before.push(arg@));
        out
    }

    /// Adds several arguments, in order.
    pub fn args(self, args: Vec<&str>) -> (r: CommandExecutor)
        ensures
            r.command@ == self.command@,
            texts(r.args@) == texts(self.args@) + Seq::new(args.len() as nat, |i: int| args[i]@),
    {
        let mut out = self;
        let ghost before = texts(out.args@);
        let ghost added = Seq::new(args.len() as nat, |i: int| args[i]@);
        let mut i: usize = 0;
        assert(texts(out.args@) =~= before + added.take(0));
        while i < args.len()
            invariant
                i <= args.len(),
                out.command@ == self.command@,
                added == Seq::new(args.len() as nat, |i: int| args[i]@),
                texts(out.args@) == before + added.take(i as int),
            decreases args.len() - i,
        {
            let ghost seen = texts(out.args@);
            out.args.push(String::from_str(args[i]));
            assert(texts(out.args@) =~= seen.push(args[i as int]@));
            assert(added.take(i + 1) =~= added.take(i as int).push(args[i as int]@));
            assert(texts(out.args@) =~= before + added.take(i + 1));
            i += 1;
        }
        assert(added.take(args.len() as int) =~= added);
        out
    }

    /// Adds several owned arguments, in order.
    pub fn with_args(self, args: Vec<String>) -> (r: CommandExecutor)
        ensures
            r.command@ == self.command@,
            texts(r.args@) == texts(self.args@) + texts(args@),
    {
        let mut out = self;
        let mut rest = args;
        let ghost before = out.args@;
        out.args.append(&mut rest);
        assert(texts(out.args@) =~= texts(before) + texts(args@));
        out
    }

    /// The decision whether the command may be started, given whether it
    /// was found on the search path: a command that was not found is
    /// refused with an error that names it, and no permission to start it
    /// is handed out.
    pub fn plan(&self, found: bool) -> (r: Result<Launch, ExecError>)
        ensures
            found ==> (r matches Ok(launch) && launch.command_view() == self.command@
                && launch.args_view() == texts(self.args@)),
            !found ==> (r matches Err(ExecError::CommandNotFound(c)) && c@ == self.command@),
    {
        if found {
            Ok(Launch { command: self.command.clone(), args: copy_texts(&self.args) })
        } else {
            Err(ExecError::CommandNotFound(self.command.clone()))
        }
    }

    /// What a look at the search path means for this command: success
    /// where the command was found, and otherwise the error that names it.
    pub fn availability(&self, found: bool) -> (r: Result<(), ExecError>)
        ensures
            found ==> r is Ok,
            !found ==> (r matches Err(ExecError::CommandNotFound(c)) && c@ == self.command@),
    {
        if found {
            Ok(())
        } else {
            Err(ExecError::CommandNotFound(self.command.clone()))
        }
    }

    /// Checks that the command is on the search path. Whatever the search
    /// path holds, the only error is the one that names this command.
    pub fn check_available(&self) -> (r: Result<(), ExecError>)
        ensures
            r matches Err(e) ==> (e matches ExecError::CommandNotFound(c) && c@ == self.command@),
    {
        self.availability(on_search_path(self.command.as_str()))
    }

    /// Looks the command up on the search path and, where it is found,
    /// hands out the permission to start it with these arguments.
    pub fn prepare(&self) -> (r: Result<Launch, ExecError>)
        ensures
            match r {
                Ok(launch) => launch.command_view() == self.command@ && launch.args_view()
                    == texts(self.args@),
                Err(e) => e matches ExecError::CommandNotFound(c) && c@ == self.command@,
            },
    {
        self.plan(on_search_path(self.command.as_str()))
    }
}

} // verus!
