use vstd::prelude::*;

use crate::errors::ExitKind;

verus! {

#[verifier::external_type_specification]
#[verifier::external_body]
pub struct ExTempDir(tempfile::TempDir);

/// The directory's filesystem path, as text.
pub uninterp spec fn dir_path_of(d: tempfile::TempDir) -> Seq<char>;

/// Owns the filesystem path of an executable helper script and, when the
/// script was extracted rather than taken from a caller-supplied override,
/// the process-private temporary directory backing it.  The directory is
/// removed exactly once, when the handle is dropped, so the handle must
/// outlive every invocation that runs the script.
pub struct ScriptHandle {
    path: String,
    tempdir: Option<tempfile::TempDir>,
}

impl ScriptHandle {
    /// The script's path.
    pub closed spec fn path_spec(&self) -> Seq<char> {
        self.path@
    }

    /// Whether the handle owns the temporary directory holding the script.
    pub closed spec fn owns_tempdir(&self) -> bool {
        self.tempdir is Some
    }

    /// The path of the owned temporary directory, when there is one.
    pub closed spec fn extracted_dir(&self) -> Seq<char> {
        match self.tempdir {
            Some(d) => dir_path_of(d),
            None => Seq::empty(),
        }
    }
}

/// The resolved path of the helper script.
pub fn bash_env_json_path(handle: &ScriptHandle) -> (r: &String)
    ensures
        r@ == handle.path_spec(),
{
    &handle.path
}

/// How one invocation of the provisioner proceeds: use the override path
/// as it stands, or extract the script body onto disk.
#[derive(Debug, PartialEq, Eq)]
pub enum ProvisionPlan {
    UseOverride(String),
    Extract,
}

/// Decide the provisioning step for an override whose existence on disk
/// has already been tested: an override naming an existing file is used
/// directly, with no extraction and no owned temporary resource; a missing
/// or absent override means the script is extracted.
pub fn decide_override(override_path: Option<String>, exists: bool) -> (r: ProvisionPlan)
    ensures
        override_path matches Some(p) ==> (exists ==> r == ProvisionPlan::UseOverride(p)),
        override_path matches Some(_) ==> (!exists ==> r == ProvisionPlan::Extract),
        override_path is None ==> r == ProvisionPlan::Extract,
        r matches ProvisionPlan::UseOverride(p) ==> (override_path matches Some(q) && q == p
            && exists),
{
    match override_path {
        Some(p) => {
            if exists {
                ProvisionPlan::UseOverride(p)
            } else {
                ProvisionPlan::Extract
            }
        },
        None => ProvisionPlan::Extract,
    }
}

/// Relies on std::path::Path::exists: whether `path` names something on
/// disk; the outcome depends on the disk, so nothing is stated about it.
#[verifier::external_body]
fn override_exists(path: &str) -> (r: bool) {
    std::path::Path::new(path).exists()
}

/// Relies on tempfile::TempDir::new: a freshly created process-private
/// directory under the system temporary directory, owned by the returned
/// value and removed when that value is dropped.  Its path is absolute;
/// which path it is depends on the machine, so nothing is stated.
#[verifier::external_body]
fn create_tempdir() -> (r: Result<tempfile::TempDir, String>) {
    tempfile::TempDir::new().map_err(|e| e.to_string())
}

/// Relies on tempfile::Builder::tempfile_in with prefix `name`, no random
/// name bytes and no suffix — so the created file is named exactly `name`
/// inside `dir`, whose own path is absolute — and on
/// tempfile::NamedTempFile::keep, which persists the file past the handle
/// and hands back the path it was created under: the directory's path, a
/// separator, and `name`.  tempfile does not validate the prefix, and
/// joining a name that holds a separator could leave the directory's path
/// (an absolute name replaces it entirely), so such names are required
/// away.  Whether creation succeeds depends on the disk.
#[verifier::external_body]
fn write_file_in(dir: &tempfile::TempDir, name: &str, body: &str) -> (r: Result<String, String>)
    requires
        name@.len() > 0,
        forall|i: int| 0 <= i < name@.len() ==> name@[i] != '/',
    ensures
        r matches Ok(p) ==> p@ == dir_path_of(*dir) + "/"@ + name@,
{
    let mut f = tempfile::Builder::new().prefix(name).rand_bytes(0).tempfile_in(
        dir.path(),
    ).map_err(|e| e.to_string())?;
    std::io::Write::write_all(f.as_file_mut(), body.as_bytes()).map_err(|e| e.to_string())?;
    let (_file, path) = f.keep().map_err(|e| e.to_string())?;
    Ok(path.to_string_lossy().into_owned())
}

/// Relies on subprocess::Exec to run the system chmod utility with the
/// given mode on the given path, handing back how that process ended,
/// converted variant for variant.  The resulting permission bits are on
/// disk and cannot be stated here.
#[verifier::external_body]
fn run_chmod(mode: &str, path: &str) -> (r: Result<ExitKind, String>) {
    match subprocess::Exec::cmd("chmod").arg(mode).arg(path).join() {
        Ok(subprocess::ExitStatus::Exited(c)) => Ok(ExitKind::Exited(c)),
        Ok(subprocess::ExitStatus::Signaled(s)) => Ok(ExitKind::Signaled(s)),
        Ok(subprocess::ExitStatus::Other(x)) => Ok(ExitKind::OtherExit(x)),
        Ok(subprocess::ExitStatus::Undetermined) => Ok(ExitKind::Undetermined),
        Err(e) => Err(e.to_string()),
    }
}

/// Guarantee an executable helper script on disk and hand back a handle
/// owning its path.
///
/// An override path naming an existing file is used directly, as the
/// handle's path, with no extraction and no owned temporary resource.
/// Otherwise `script_body` is materialized as the file `bash-env-json`
/// under a freshly created process-private temporary directory, made
/// owner-executable (mode rwxr-xr-x), and the directory's ownership is
/// retained by the handle, whose path is then exactly that file's path,
/// for as long as invocations may run the script.  Extraction failure is
/// an initialization error carrying a description; nothing is retried.
pub fn provision_script(override_path: Option<String>, script_body: &str) -> (r: Result<
    ScriptHandle,
    String,
>)
    ensures
        r matches Ok(h) ==> (h.owns_tempdir() ==> h.path_spec() == h.extracted_dir() + "/"@
            + "bash-env-json"@),
        r matches Ok(h) ==> (!h.owns_tempdir() ==> (override_path matches Some(p)
            && h.path_spec() == p@)),
        override_path is None ==> (r matches Ok(h) ==> h.owns_tempdir()),
{
    let exists = match &override_path {
        Some(p) => override_exists(p.as_str()),
        None => false,
    };
    match decide_override(override_path, exists) {
        ProvisionPlan::UseOverride(p) => Ok(ScriptHandle { path: p, tempdir: None }),
        ProvisionPlan::Extract => {
            let dir = match create_tempdir() {
                Ok(d) => d,
                Err(e) => {
                    return Err(e);
                },
            };
            proof {
                reveal_strlit("bash-env-json");
                assert(forall|i: int|
                    0 <= i < "bash-env-json"@.len() ==> "bash-env-json"@[i] != '/');
            }
            let path = match write_file_in(&dir, "bash-env-json", script_body) {
                Ok(p) => p,
                Err(e) => {
                    return Err(e);
                },
            };
            let chmod_ok = match run_chmod("755", path.as_str()) {
                Ok(ExitKind::Exited(c)) => c == 0,
                _ => false,
            };
            if !chmod_ok {
                return Err("failed to make the helper script executable".to_owned());
            }
            let ghost gpath = path@;
            let ghost gdir = dir_path_of(dir);
            let h = ScriptHandle { path, tempdir: Some(dir) };
            proof {
                assert(h.path_spec() == gpath);
                assert(h.extracted_dir() == gdir);
            }
            Ok(h)
        },
    }
}

} // verus!
