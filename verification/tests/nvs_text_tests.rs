use sht20_node::nvs_text::nvs_str_from_stored;

#[test]
fn stored_text_loses_nul_padding() {
    assert_eq!(nvs_str_from_stored(Some("home\0\0\0")), "home");
    assert_eq!(nvs_str_from_stored(Some("home")), "home");
    assert_eq!(nvs_str_from_stored(Some("\0\0")), "");
}

#[test]
fn inner_nuls_are_kept() {
    assert_eq!(nvs_str_from_stored(Some("a\0b\0")), "a\0b");
    assert_eq!(nvs_str_from_stored(Some("\0a")), "\0a");
}

#[test]
fn missing_setting_reads_empty() {
    assert_eq!(nvs_str_from_stored(None), "");
}

#[test]
fn trimming_matches_trim_end_matches() {
    for s in ["x\0", "\0x\0\0", "关\0", ""].iter() {
        assert_eq!(nvs_str_from_stored(Some(s)), s.trim_end_matches(char::from(0)));
        let padded = format!("{}\0\0\0", s);
        assert_eq!(nvs_str_from_stored(Some(&padded)), nvs_str_from_stored(Some(s)));
    }
}
