use vstd::prelude::*;

use crate::errors::{EnvError, ExitKind};
use crate::script::{bash_env_json_path, ScriptHandle};
use crate::source::EnvSource;

verus! {

#[verifier::external_type_specification]
#[verifier::external_body]
pub struct ExPopen(subprocess::Popen);

/// Whether the subprocess was started with its standard input piped.
pub uninterp spec fn stdin_piped(p: subprocess::Popen) -> bool;

/// Whether the subprocess value still holds the parent end of its piped
/// standard output.
pub uninterp spec fn stdout_piped(p: subprocess::Popen) -> bool;

/// The view of an argument vector.
pub open spec fn argv_view(argv: Seq<String>) -> Seq<Seq<char>> {
    argv.map_values(|s: String| s@)
}

/// The canonical argument vector for one invocation: the script path is
/// always first; inline piped text is signalled by `--stdin` and travels
/// through the subprocess's standard input; a file source is appended as
/// the trailing argument.  The two extras never appear together, since the
/// sources are mutually exclusive.
pub open spec fn argv_spec(script: Seq<char>, src: EnvSource) -> Seq<Seq<char>> {
    match src {
        EnvSource::File(p) => seq![script, p@],
        EnvSource::InlineText(_) => seq![script, "--stdin"@],
        EnvSource::Ambient => seq![script],
    }
}

/// Build the helper's argument vector for the given source.
pub fn build_argv(script: &String, src: &EnvSource) -> (r: Vec<String>)
    ensures
        argv_view(r@) == argv_spec(script@, *src),
{
    let mut argv: Vec<String> = Vec::new();
    argv.push(script.clone());
    match src {
        EnvSource::File(p) => {
            argv.push(p.clone());
            proof {
                assert(argv_view(argv@) =~= argv_spec(script@, *src));
            }
        },
        EnvSource::InlineText(_) => {
            argv.push("--stdin".to_owned());
            proof {
                assert(argv_view(argv@) =~= argv_spec(script@, *src));
            }
        },
        EnvSource::Ambient => {
            proof {
                assert(argv_view(argv@) =~= argv_spec(script@, *src));
            }
        },
    }
    argv
}

/// Relies on subprocess::Popen::create: starts the program named by
/// `argv[0]` with the given arguments, its standard output piped, its
/// standard input piped exactly when `want_stdin`, its standard error left
/// to the parent's own standard error — so diagnostics are forwarded and
/// never mixed into the result stream — and its working directory set to
/// `cwd`.  Whether the spawn succeeds depends on the machine, so only the
/// pipe wiring is stated.
#[verifier::external_body]
fn spawn_helper(argv: &Vec<String>, want_stdin: bool, cwd: &str) -> (r: Result<
    subprocess::Popen,
    String,
>)
    ensures
        r matches Ok(p) ==> (stdin_piped(p) == want_stdin && stdout_piped(p)),
{
    let config = subprocess::PopenConfig {
        stdin: if want_stdin {
            subprocess::Redirection::Pipe
        } else {
            subprocess::Redirection::None
        },
        stdout: subprocess::Redirection::Pipe,
        cwd: Some(cwd.to_owned().into()),
        ..subprocess::PopenConfig::default()
    };
    subprocess::Popen::create(argv.as_slice(), config).map_err(|e| e.to_string())
}

/// Relies on subprocess::Popen::communicate: writes the whole payload to
/// the subprocess's standard input and closes it, while simultaneously
/// reading its standard output to end-of-file, which avoids the pipe
/// deadlock of a sequential write-then-read.  The call panics when the
/// payload's presence does not match the stdin wiring, so that case is
/// required away.  A stream that was piped is captured, so standard
/// output comes back present when its pipe was still held; what it holds
/// depends on the subprocess, so nothing is stated about that.
#[verifier::external_body]
fn communicate_helper(p: &mut subprocess::Popen, input: Option<&String>) -> (r: Result<
    Option<String>,
    String,
>)
    requires
        stdin_piped(*old(p)) <==> input is Some,
    ensures
        stdout_piped(*old(p)) ==> (r matches Ok(o) ==> o is Some),
{
    p.communicate(input.map(|s| s.as_str())).map(|(out, _err)| out).map_err(|e| e.to_string())
}

/// Relies on subprocess::Popen::wait: blocks until the subprocess
/// finishes and hands back its exit status, converted variant for variant.
#[verifier::external_body]
fn wait_helper(p: &mut subprocess::Popen) -> (r: Result<ExitKind, String>) {
    match p.wait() {
        Ok(subprocess::ExitStatus::Exited(c)) => Ok(ExitKind::Exited(c)),
        Ok(subprocess::ExitStatus::Signaled(s)) => Ok(ExitKind::Signaled(s)),
        Ok(subprocess::ExitStatus::Other(x)) => Ok(ExitKind::OtherExit(x)),
        Ok(subprocess::ExitStatus::Undetermined) => Ok(ExitKind::Undetermined),
        Err(e) => Err(e.to_string()),
    }
}

/// Run the helper script once against the resolved source and capture its
/// standard output and exit status.
///
/// The argument vector is `argv_spec`; inline text is fed wholly through
/// the subprocess's standard input, which is then closed so the
/// interpreter observes end-of-input; the working directory is set to the
/// caller's, so relative paths inside the sourced script resolve as a
/// user's shell would resolve them.  A subprocess that cannot be started
/// is `SpawnError`; a pipe failure is `IOError`; what the helper wrote is
/// handed back undecoded, whatever it is.
pub fn invoke(handle: &ScriptHandle, src: &EnvSource, cwd: &str) -> (r: Result<
    (String, ExitKind),
    EnvError,
>)
    ensures
        r matches Err(e) ==> (e matches EnvError::SpawnError(_) || e matches EnvError::IOError(
            _,
        )),
{
    let argv = build_argv(bash_env_json_path(handle), src);
    let input: Option<&String> = match src {
        EnvSource::InlineText(t) => Some(t),
        _ => None,
    };
    let mut p = match spawn_helper(&argv, input.is_some(), cwd) {
        Ok(p) => p,
        Err(e) => {
            return Err(EnvError::SpawnError(e));
        },
    };
    let out = match communicate_helper(&mut p, input) {
        Ok(o) => o,
        Err(e) => {
            return Err(EnvError::IOError(e));
        },
    };
    let exit = match wait_helper(&mut p) {
        Ok(x) => x,
        Err(e) => {
            return Err(EnvError::IOError(e));
        },
    };
    match out {
        Some(o) => Ok((o, exit)),
        None => unreached(),
    }
}

} // verus!
