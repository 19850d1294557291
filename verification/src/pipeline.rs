use vstd::prelude::*;

use crate::decode::{decode, decode_spec, Decoded, DecodeView};
use crate::errors::{ArgFault, EnvError, ExitKind};
use crate::invoke::invoke;
use crate::record::{create_record, merged_record, names_set, pairs_view, OutputRecord};
use crate::script::ScriptHandle;
use crate::source::{conflicting, resolve_source, PathArg};

verus! {

/// Turn the helper's raw standard output and exit status into the two
/// decoded variable mappings or a structured failure.
///
/// A decoded error message is authoritative and becomes
/// `HelperReportedError` whatever the exit status was; otherwise a
/// non-zero exit is `SubprocessError` carrying the status; otherwise a
/// well-shaped reply yields the plain and shell variable mappings, and
/// anything else is `DecodeError`.
pub fn process_output(out: &str, exit: &ExitKind) -> (r: Result<
    (Vec<(String, String)>, Vec<(String, String)>),
    EnvError,
>)
    ensures
        decode_spec(out@) matches DecodeView::Failure(m) ==> (r matches Err(
            EnvError::HelperReportedError(e),
        ) && e@ == m),
        (!(decode_spec(out@) is Failure) && *exit != ExitKind::Exited(0)) ==> r == Err::<
            (Vec<(String, String)>, Vec<(String, String)>),
            EnvError,
        >(EnvError::SubprocessError(*exit)),
        decode_spec(out@) matches DecodeView::Success(env, sh) ==> (*exit == ExitKind::Exited(0)
            ==> (r matches Ok(p) && pairs_view(p.0@) == env && pairs_view(p.1@) == sh)),
        ((decode_spec(out@) is NotJson || decode_spec(out@) is BadShape) && *exit
            == ExitKind::Exited(0)) ==> r == Err::<
            (Vec<(String, String)>, Vec<(String, String)>),
            EnvError,
        >(EnvError::DecodeError),
        r matches Ok(_) ==> (decode_spec(out@) is Success && *exit == ExitKind::Exited(0)),
{
    let d = decode(out);
    match d {
        Decoded::Failure(m) => Err(EnvError::HelperReportedError(m)),
        Decoded::Success(env, sh) => {
            let exit_ok = match exit {
                ExitKind::Exited(c) => *c == 0,
                _ => false,
            };
            if exit_ok {
                Ok((env, sh))
            } else {
                Err(EnvError::SubprocessError(*exit))
            }
        },
        _ => {
            let exit_ok = match exit {
                ExitKind::Exited(c) => *c == 0,
                _ => false,
            };
            if exit_ok {
                Err(EnvError::DecodeError)
            } else {
                Err(EnvError::SubprocessError(*exit))
            }
        },
    }
}

/// The whole extraction pipeline for one invocation: resolve the single
/// active input source, run the helper script, decode its reply, and merge
/// the reported variables into an ordered record.
///
/// Argument faults are rejected exactly as `resolve_source` states them; a
/// successful run always hands back a well-formed record that is the
/// deterministic merge of some decoded success payload with the export
/// filter applied.
pub fn bash_env(
    handle: &ScriptHandle,
    arg: Option<PathArg>,
    piped: Option<String>,
    export: Vec<String>,
    cwd: &str,
) -> (r: Result<OutputRecord, EnvError>)
    ensures
        arg matches Some(PathArg::OtherType(t)) ==> (r matches Err(
            EnvError::InvalidArgument(ArgFault::NotText(u)),
        ) && u@ == t@),
        !(arg matches Some(PathArg::OtherType(_))) ==> ((r == Err::<OutputRecord, EnvError>(
            EnvError::InvalidArgument(ArgFault::ConflictingSources),
        )) <==> conflicting(arg, piped)),
        r matches Err(EnvError::NotFound(q)) ==> (arg matches Some(PathArg::Text(p)) && ((
        p@.len() > 0 && p@[0] == '~') || q@ == p@)),
        r matches Ok(rec) ==> rec.well_formed(),
        r matches Ok(rec) ==> exists|
            out: Seq<char>,
            env: Seq<(Seq<char>, Seq<char>)>,
            sh: Seq<(Seq<char>, Seq<char>)>,
        |
            decode_spec(out) == DecodeView::Success(env, sh) && rec@ == merged_record(
                env,
                sh,
                names_set(export@),
            ),
{
    let src = match resolve_source(arg, piped, cwd) {
        Ok(s) => s,
        Err(e) => {
            return Err(e);
        },
    };
    let (out, exit) = match invoke(handle, &src, cwd) {
        Ok(x) => x,
        Err(e) => {
            return Err(e);
        },
    };
    let (env, sh) = match process_output(out.as_str(), &exit) {
        Ok(x) => x,
        Err(e) => {
            return Err(e);
        },
    };
    let ghost genv = pairs_view(env@);
    let ghost gsh = pairs_view(sh@);
    proof {
        match decode_spec(out@) {
            DecodeView::Success(e0, s0) => {
                assert(e0 == genv && s0 == gsh);
            },
            _ => {
                assert(false);
            },
        }
    }
    let rec = create_record(env, sh, export);
    proof {
        assert(decode_spec(out@) == DecodeView::Success(genv, gsh) && rec@ == merged_record(
            genv,
            gsh,
            names_set(export@),
        ));
    }
    Ok(rec)
}

} // verus!
