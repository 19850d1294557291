use bash_env::errors::{EnvError, ExitKind};
use bash_env::invoke::invoke;
use bash_env::pipeline::bash_env;
use bash_env::script::{bash_env_json_path, provision_script};
use bash_env::source::{EnvSource, PathArg};

// A small stand-in for the helper interpreter, real enough for the
// scenarios below: it sources the given file, or standard input when told
// `--stdin`, and reports the variables A..D as exported or shell-local in
// the helper's JSON reply form.
const HELPER: &str = r#"#!/usr/bin/env bash
if [ "$1" = "--stdin" ]; then
  source /dev/stdin
elif [ -n "$1" ]; then
  source "$1"
fi
exported=" $(compgen -A export | tr '\n' ' ') "
out='{"env":{'
sep=""
for n in A B C D; do
  if [[ -v $n && $exported == *" $n "* ]]; then
    out+="$sep\"$n\":\"${!n}\""; sep=","
  fi
done
out+='},"shellvars":{'
sep=""
for n in A B C D; do
  if [[ -v $n && $exported != *" $n "* ]]; then
    out+="$sep\"$n\":\"${!n}\""; sep=","
  fi
done
out+='},"error":null}'
printf '%s' "$out"
"#;

const FAILING_HELPER: &str = r#"#!/usr/bin/env bash
printf '{"error":"syntax error near line 3"}'
"#;

const SILENT_FAILING_HELPER: &str = r#"#!/usr/bin/env bash
exit 3
"#;

const LOUD_FAILING_HELPER: &str = r#"#!/usr/bin/env bash
printf '{"error":"boom"}'
exit 1
"#;

fn pairs(ps: &[(&str, &str)]) -> Vec<(String, String)> {
    ps.iter().map(|(k, v)| (k.to_string(), v.to_string())).collect()
}

fn names(ns: &[&str]) -> Vec<String> {
    ns.iter().map(|n| n.to_string()).collect()
}

#[test]
fn file_with_exported_and_local_vars() {
    let script = provision_script(None, HELPER).expect("helper extraction");
    let envfile = provision_script(None, "export A=a\nB=b\n").expect("env file");
    let path = bash_env_json_path(&envfile).clone();
    let r = bash_env(&script, Some(PathArg::Text(path)), None, names(&["B"]), "/");
    match r {
        Ok(rec) => assert_eq!(rec.entries(), &pairs(&[("A", "a"), ("B", "b")])),
        other => panic!("expected a record, got {:?}", other.map(|r| r.len())),
    }
}

#[test]
fn missing_file_is_not_found() {
    let script = provision_script(None, HELPER).expect("helper extraction");
    let r = bash_env(
        &script,
        Some(PathArg::Text("/no/such/file".to_string())),
        None,
        names(&[]),
        "/",
    );
    match r {
        Err(EnvError::NotFound(p)) => assert_eq!(p, "/no/such/file"),
        other => panic!("expected NotFound, got {:?}", other.map(|r| r.len())),
    }
}

#[test]
fn helper_reported_error_comes_back_verbatim() {
    let script = provision_script(None, FAILING_HELPER).expect("helper extraction");
    let r = bash_env(&script, None, None, names(&[]), "/");
    match r {
        Err(EnvError::HelperReportedError(m)) => assert_eq!(m, "syntax error near line 3"),
        other => panic!("expected a helper error, got {:?}", other.map(|r| r.len())),
    }
}

#[test]
fn nonzero_exit_without_payload_is_a_subprocess_error() {
    let script = provision_script(None, SILENT_FAILING_HELPER).expect("helper extraction");
    let r = bash_env(&script, None, None, names(&[]), "/");
    match r {
        Err(EnvError::SubprocessError(ExitKind::Exited(c))) => assert_eq!(c, 3),
        other => panic!("expected a subprocess error, got {:?}", other.map(|r| r.len())),
    }
}

#[test]
fn reported_error_beats_a_nonzero_exit() {
    let script = provision_script(None, LOUD_FAILING_HELPER).expect("helper extraction");
    let r = bash_env(&script, None, None, names(&[]), "/");
    match r {
        Err(EnvError::HelperReportedError(m)) => assert_eq!(m, "boom"),
        other => panic!("expected a helper error, got {:?}", other.map(|r| r.len())),
    }
}

#[test]
fn piped_text_feeds_the_helper_stdin() {
    let script = provision_script(None, HELPER).expect("helper extraction");
    let r = bash_env(
        &script,
        None,
        Some("export C=c\nD=d\n".to_string()),
        names(&["D"]),
        "/",
    );
    match r {
        Ok(rec) => assert_eq!(rec.entries(), &pairs(&[("C", "c"), ("D", "d")])),
        other => panic!("expected a record, got {:?}", other.map(|r| r.len())),
    }
}

#[test]
fn ambient_invocation_yields_an_empty_record() {
    let script = provision_script(None, HELPER).expect("helper extraction");
    let r = bash_env(&script, None, None, names(&[]), "/");
    match r {
        Ok(rec) => assert_eq!(rec.len(), 0),
        other => panic!("expected a record, got {:?}", other.map(|r| r.len())),
    }
}

#[test]
fn shell_locals_stay_out_without_the_filter() {
    let script = provision_script(None, HELPER).expect("helper extraction");
    let r = bash_env(
        &script,
        None,
        Some("export A=a\nB=b\n".to_string()),
        names(&[]),
        "/",
    );
    match r {
        Ok(rec) => assert_eq!(rec.entries(), &pairs(&[("A", "a")])),
        other => panic!("expected a record, got {:?}", other.map(|r| r.len())),
    }
}

#[test]
fn repeated_invocations_reuse_one_extraction() {
    let script = provision_script(None, HELPER).expect("helper extraction");
    let first = invoke(&script, &EnvSource::Ambient, "/");
    let second = invoke(&script, &EnvSource::Ambient, "/");
    match (first, second) {
        (Ok((out1, ExitKind::Exited(0))), Ok((out2, ExitKind::Exited(0)))) => {
            assert!(out1.starts_with('{'));
            assert_eq!(out1, out2);
        }
        other => panic!("expected two clean runs, got {:?}", other),
    }
}

#[test]
fn conflict_is_rejected_before_any_subprocess_runs() {
    let script = provision_script(None, HELPER).expect("helper extraction");
    let envfile = provision_script(None, "export A=a\n").expect("env file");
    let path = bash_env_json_path(&envfile).clone();
    let r = bash_env(
        &script,
        Some(PathArg::Text(path)),
        Some("export B=b\n".to_string()),
        names(&[]),
        "/",
    );
    match r {
        Err(EnvError::InvalidArgument(_)) => {}
        other => panic!("expected an argument fault, got {:?}", other.map(|r| r.len())),
    }
}
