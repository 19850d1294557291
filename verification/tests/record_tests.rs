use bash_env::record::create_record;

fn pairs(ps: &[(&str, &str)]) -> Vec<(String, String)> {
    ps.iter().map(|(k, v)| (k.to_string(), v.to_string())).collect()
}

fn names(ns: &[&str]) -> Vec<String> {
    ns.iter().map(|n| n.to_string()).collect()
}

#[test]
fn shell_value_wins_on_collision() {
    let rec = create_record(
        pairs(&[("A", "a")]),
        pairs(&[("A", "x"), ("B", "b")]),
        names(&["A", "B"]),
    );
    assert_eq!(rec.entries(), &pairs(&[("A", "x"), ("B", "b")]));
}

#[test]
fn empty_filter_keeps_plain_only() {
    let rec = create_record(
        pairs(&[("A", "a")]),
        pairs(&[("B", "b"), ("A", "x")]),
        names(&[]),
    );
    assert_eq!(rec.entries(), &pairs(&[("A", "a")]));
}

#[test]
fn plain_order_is_preserved() {
    let rec = create_record(
        pairs(&[("Z", "1"), ("A", "2"), ("M", "3")]),
        pairs(&[]),
        names(&[]),
    );
    assert_eq!(rec.entries(), &pairs(&[("Z", "1"), ("A", "2"), ("M", "3")]));
}

#[test]
fn collision_updates_in_place_and_appends_rest() {
    let rec = create_record(
        pairs(&[("X", "1"), ("Y", "2"), ("Z", "3")]),
        pairs(&[("W", "9"), ("Y", "yy")]),
        names(&["Y", "W"]),
    );
    assert_eq!(
        rec.entries(),
        &pairs(&[("X", "1"), ("Y", "yy"), ("Z", "3"), ("W", "9")])
    );
}

#[test]
fn unselected_shell_vars_stay_out() {
    let rec = create_record(
        pairs(&[("A", "a")]),
        pairs(&[("B", "b"), ("C", "c")]),
        names(&["C"]),
    );
    assert_eq!(rec.entries(), &pairs(&[("A", "a"), ("C", "c")]));
}

#[test]
fn empty_inputs_give_empty_record() {
    let rec = create_record(pairs(&[]), pairs(&[]), names(&[]));
    assert_eq!(rec.len(), 0);
    assert_eq!(rec.entries(), &pairs(&[]));
}

#[test]
fn get_finds_the_merged_value_by_name() {
    let rec = create_record(
        pairs(&[("A", "a")]),
        pairs(&[("A", "x"), ("B", "b")]),
        names(&["A", "B"]),
    );
    assert_eq!(rec.get(&"A".to_string()).map(String::as_str), Some("x"));
    assert_eq!(rec.get(&"B".to_string()).map(String::as_str), Some("b"));
    assert_eq!(rec.get(&"C".to_string()), None);
}

#[test]
fn duplicate_plain_keys_collapse_to_last_value() {
    let rec = create_record(
        pairs(&[("A", "1"), ("B", "2"), ("A", "3")]),
        pairs(&[]),
        names(&[]),
    );
    assert_eq!(rec.entries(), &pairs(&[("A", "3"), ("B", "2")]));
}
