use vstd::prelude::*;

use crate::errors::{ArgFault, EnvError};

verus! {

/// The positional argument as handed over by the caller: either text, or a
/// value of some other type, carrying that type's reported name so the
/// rejection can say what was wrong.
#[derive(Debug, PartialEq, Eq)]
pub enum PathArg {
    Text(String),
    OtherType(String),
}

/// The single active input source of an invocation.  A file path and inline
/// piped text are mutually exclusive by contract; with neither, the helper
/// runs against its own ambient environment only.
#[derive(Debug, PartialEq, Eq)]
pub enum EnvSource {
    File(String),
    InlineText(String),
    Ambient,
}

/// A file argument and non-empty piped text were supplied together.
pub open spec fn conflicting(arg: Option<PathArg>, piped: Option<String>) -> bool {
    &&& arg matches Some(PathArg::Text(_))
    &&& piped matches Some(t) && t@.len() > 0
}

/// Relies on shellexpand::tilde: an input that does not begin with `~` is
/// returned unchanged; a leading bare `~` is replaced with the invoking
/// user's home directory, which depends on the environment, so nothing is
/// stated about that case.
#[verifier::external_body]
fn expand_tilde(path: &str) -> (r: String)
    ensures
        path@.len() == 0 ==> r@ == path@,
        path@.len() > 0 && path@[0] != '~' ==> r@ == path@,
{
    shellexpand::tilde(path).into_owned()
}

/// Relies on std::path::Path::exists, applied to the path joined onto the
/// caller's working directory.  The outcome depends on the state of the
/// disk, so nothing is stated about it.
#[verifier::external_body]
fn path_exists_in(cwd: &str, path: &str) -> (r: bool) {
    std::path::Path::new(cwd).join(path).exists()
}

/// Decide the source for a path whose existence has already been tested:
/// an existing path is the file source; a missing one is reported as
/// `NotFound`, carrying that path.
pub fn decide_path(path: String, exists: bool) -> (r: Result<EnvSource, EnvError>)
    ensures
        exists ==> r == Ok::<EnvSource, EnvError>(EnvSource::File(path)),
        !exists ==> r == Err::<EnvSource, EnvError>(EnvError::NotFound(path)),
{
    if exists {
        Ok(EnvSource::File(path))
    } else {
        Err(EnvError::NotFound(path))
    }
}

/// Determine the single active input source.
///
/// A positional argument that is not text is rejected; a file argument
/// together with non-empty piped text is rejected rather than resolved by
/// precedence.  A file path has a leading `~` expanded and is then checked
/// for existence relative to `cwd`; a missing file is `NotFound`.  Piped
/// text alone is the inline source; with no input at all the source is
/// ambient.
pub fn resolve_source(arg: Option<PathArg>, piped: Option<String>, cwd: &str) -> (r: Result<
    EnvSource,
    EnvError,
>)
    ensures
        arg matches Some(PathArg::OtherType(t)) ==> (r matches Err(
            EnvError::InvalidArgument(ArgFault::NotText(u)),
        ) && u@ == t@),
        !(arg matches Some(PathArg::OtherType(_))) ==> ((r == Err::<EnvSource, EnvError>(
            EnvError::InvalidArgument(ArgFault::ConflictingSources),
        )) <==> conflicting(arg, piped)),
        arg matches Some(PathArg::Text(p)) ==> (!conflicting(arg, piped) ==> ((r matches Ok(s)
            ==> (s matches EnvSource::File(q) && ((p@.len() > 0 && p@[0] == '~') || q@ == p@)))
            && (r matches Err(e) ==> (e matches EnvError::NotFound(q) && ((p@.len() > 0 && p@[0]
            == '~') || q@ == p@))))),
        arg is None ==> (piped matches Some(t) ==> (r matches Ok(EnvSource::InlineText(u)) && u@
            == t@)),
        (arg is None && piped is None) ==> r == Ok::<EnvSource, EnvError>(EnvSource::Ambient),
{
    match arg {
        Some(PathArg::OtherType(t)) => Err(EnvError::InvalidArgument(ArgFault::NotText(t))),
        Some(PathArg::Text(p)) => {
            let piped_nonempty = match &piped {
                Some(t) => !t.as_str().is_empty(),
                None => false,
            };
            if piped_nonempty {
                Err(EnvError::InvalidArgument(ArgFault::ConflictingSources))
            } else {
                let expanded = expand_tilde(p.as_str());
                let exists = path_exists_in(cwd, expanded.as_str());
                decide_path(expanded, exists)
            }
        },
        None => {
            match piped {
                Some(t) => Ok(EnvSource::InlineText(t)),
                None => Ok(EnvSource::Ambient),
            }
        },
    }
}

} // verus!
