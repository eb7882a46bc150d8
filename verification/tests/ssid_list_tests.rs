use sht20_node::ssid_list::merge_ssids;

fn names(v: &[&str]) -> Vec<String> {
    v.iter().map(|s| s.to_string()).collect()
}

#[test]
fn merge_appends_new_names_in_scan_order() {
    let mut known = names(&["a"]);
    merge_ssids(&mut known, &names(&["b", "a", "c"]));
    assert_eq!(known, names(&["a", "b", "c"]));
}

#[test]
fn merge_skips_repeats_within_a_scan() {
    let mut known = Vec::new();
    merge_ssids(&mut known, &names(&["x", "x", "y", "x"]));
    assert_eq!(known, names(&["x", "y"]));
}

#[test]
fn merge_twice_changes_nothing() {
    let scan = names(&["n1", "n2", "n1"]);
    let mut known = names(&["n0"]);
    merge_ssids(&mut known, &scan);
    let once = known.clone();
    merge_ssids(&mut known, &scan);
    assert_eq!(known, once);
}

#[test]
fn merge_keeps_known_prefix_and_no_duplicates() {
    let mut known = names(&["p", "q"]);
    merge_ssids(&mut known, &names(&["q", "r", "p", "s"]));
    assert_eq!(&known[..2], &names(&["p", "q"])[..]);
    let mut sorted = known.clone();
    sorted.sort();
    sorted.dedup();
    assert_eq!(sorted.len(), known.len());
    assert_eq!(known.len(), 4);
}
