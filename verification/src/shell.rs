use vstd::prelude::*;
use vstd::string::StringExecFns;
use crate::text::int_rep;
use crate::text::i64_to_dec;
use crate::text::res_view;

verus! {

/// How a shell action is given: a bare command, or full options.
#[derive(Clone, Debug, PartialEq)]
pub enum BashVariant {
    CmdOnly(String),
    Options(BashOptions),
}

#[derive(Clone, Debug, PartialEq)]
pub struct BashOptions {
    pub cmd: String,
    pub get_output: bool,
}

/// The default for the capture-output flag: on.
pub fn default_output() -> (b: bool)
    ensures
        b == true,
{
    true
}

impl BashVariant {
    /// The command text this variant denotes.
    pub open spec fn cmd_spec(&self) -> Seq<char> {
        match *self {
            BashVariant::CmdOnly(c) => c@,
            BashVariant::Options(o) => o.cmd@,
        }
    }

    /// Whether output is captured: the bare form captures it.
    pub open spec fn get_output_spec(&self) -> bool {
        match *self {
            BashVariant::CmdOnly(_) => true,
            BashVariant::Options(o) => o.get_output,
        }
    }

    /// Normalizes the bare-command shorthand into full options.
    pub fn options(&self) -> (r: BashOptions)
        ensures
            r.cmd@ == self.cmd_spec(),
            r.get_output == self.get_output_spec(),
    {
        match self {
            BashVariant::CmdOnly(c) => BashOptions { cmd: c.clone(), get_output: default_output() },
            BashVariant::Options(o) => BashOptions { cmd: o.cmd.clone(), get_output: o.get_output },
        }
    }
}

/// What a finished shell process produced, as plain values: whether it
/// succeeded, its exit code if it had one, and its decoded output streams.
#[derive(Clone, Debug, PartialEq)]
pub struct CmdOutput {
    pub success: bool,
    pub code: Option<i32>,
    pub stdout: String,
    pub stderr: String,
}

pub open spec fn msg_exit(code: int, stderr: Seq<char>, stdout: Seq<char>) -> Seq<char> {
    "Exit Code:"@ + int_rep(code) + ", StdErr:"@ + stderr + ", StdOut:"@ + stdout
}

pub open spec fn msg_spawn(err: Seq<char>) -> Seq<char> {
    "Err:"@ + err
}

/// The result a shell action yields from its process's output: on success the
/// captured stdout, or empty text when capture is off; on a nonzero exit a
/// message carrying the exit code (1 when none was reported) and both
/// streams.
pub open spec fn shell_result_spec(out: CmdOutput, get_output: bool) -> Result<
    Seq<char>,
    Seq<char>,
> {
    if out.success {
        if get_output {
            Result::Ok(out.stdout@)
        } else {
            Result::Ok(Seq::<char>::empty())
        }
    } else {
        Result::Err(
            msg_exit(
                match out.code {
                    Option::Some(c) => c as int,
                    Option::None => 1,
                },
                out.stderr@,
                out.stdout@,
            ),
        )
    }
}

/// What a shell action yields from its spawn attempt: the spawn error's
/// description on failure, otherwise the process output's result.
pub open spec fn bash_run_spec(b: BashVariant, spawn: Result<CmdOutput, String>) -> Result<
    Seq<char>,
    Seq<char>,
> {
    match spawn {
        Result::Ok(out) => shell_result_spec(out, b.get_output_spec()),
        Result::Err(e) => Result::Err(msg_spawn(e@)),
    }
}

/// Turns a finished shell process's output into the action's result.
pub fn shell_result(out: &CmdOutput, get_output: bool) -> (r: Result<String, String>)
    ensures
        res_view(r) == shell_result_spec(*out, get_output),
{
    if out.success {
        if get_output {
            Result::Ok(out.stdout.clone())
        } else {
            Result::Ok(String::new())
        }
    } else {
        let code: i32 = match out.code {
            Option::Some(c) => c,
            Option::None => 1,
        };
        let mut m = String::from_str("Exit Code:");
        let d = i64_to_dec(code as i64);
        m.append(d.as_str());
        m.append(", StdErr:");
        m.append(out.stderr.as_str());
        m.append(", StdOut:");
        m.append(out.stdout.as_str());
        Result::Err(m)
    }
}

/// Runs the shell stage on an already-performed spawn: the caller hands in
/// what spawning the command produced, and this decides the action's result.
pub fn bash_result(b: &BashVariant, spawn: &Result<CmdOutput, String>) -> (r: Result<
    String,
    String,
>)
    ensures
        res_view(r) == bash_run_spec(*b, *spawn),
{
    match spawn {
        Result::Ok(out) => {
            let opts = b.options();
            shell_result(out, opts.get_output)
        },
        Result::Err(e) => {
            let mut m = String::from_str("Err:");
            m.append(e.as_str());
            Result::Err(m)
        },
    }
}

} // verus!
