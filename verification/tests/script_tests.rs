use bash_env::script::{bash_env_json_path, decide_override, provision_script, ProvisionPlan};

#[test]
fn an_existing_override_decides_for_direct_use() {
    let r = decide_override(Some("/somewhere".to_string()), true);
    assert_eq!(r, ProvisionPlan::UseOverride("/somewhere".to_string()));
}

#[test]
fn a_missing_override_decides_for_extraction() {
    let r = decide_override(Some("/somewhere".to_string()), false);
    assert_eq!(r, ProvisionPlan::Extract);
}

#[test]
fn no_override_decides_for_extraction() {
    let r = decide_override(None, false);
    assert_eq!(r, ProvisionPlan::Extract);
}

#[test]
fn override_naming_an_existing_file_is_used_directly() {
    let h = provision_script(Some("/bin/sh".to_string()), "ignored").expect("provision");
    assert_eq!(bash_env_json_path(&h).as_str(), "/bin/sh");
}

#[test]
fn missing_override_falls_back_to_extraction() {
    let h = provision_script(
        Some("/no/such/script".to_string()),
        "#!/usr/bin/env bash\nprintf ok\n",
    )
    .expect("provision");
    assert_ne!(bash_env_json_path(&h).as_str(), "/no/such/script");
}

#[test]
fn extraction_materializes_the_named_script() {
    let h = provision_script(None, "#!/usr/bin/env bash\nprintf ok\n").expect("provision");
    assert!(bash_env_json_path(&h).ends_with("bash-env-json"));
}
