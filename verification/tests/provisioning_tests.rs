use sht20_node::provisioning::{
    fill_portal_template, parse_wifi_form, parse_wifi_text, render_portal_page, split_wifi_form,
    FormError, FormFailure, FormField,
};

#[test]
fn form_fields_are_split_out() {
    let (ssid, pwd) = split_wifi_form("ssid=home&password=secret").unwrap();
    assert_eq!(ssid, "home");
    assert_eq!(pwd, "secret");
}

#[test]
fn form_fields_stop_at_a_repeated_key_or_separator() {
    let (ssid, pwd) = split_wifi_form("ssid=aussid=b&password=x&extra").unwrap();
    assert_eq!(ssid, "au");
    assert_eq!(pwd, "x");
    let (ssid, pwd) = split_wifi_form("ssid=&password=").unwrap();
    assert_eq!(ssid, "");
    assert_eq!(pwd, "");
}

#[test]
fn malformed_forms_yield_nothing() {
    assert!(split_wifi_form("ssid=home").is_none());
    assert!(split_wifi_form("name=home&password=x").is_none());
    assert!(split_wifi_form("ssid=home&pass=x").is_none());
    assert!(split_wifi_form("").is_none());
}

#[test]
fn parse_decodes_percent_escapes() {
    let c = parse_wifi_form(b"ssid=my%20net&password=p%26ss").unwrap();
    assert_eq!(c.ssid, "my net");
    assert_eq!(c.password, "p&ss");
}

#[test]
fn parse_keeps_plus_signs() {
    let c = parse_wifi_form(b"ssid=a+b&password=c").unwrap();
    assert_eq!(c.ssid, "a+b");
}

#[test]
fn parse_decodes_utf8_escapes() {
    let c = parse_wifi_form(b"ssid=%E5%85%B3&password=x").unwrap();
    assert_eq!(c.ssid, "关");
}

#[test]
fn parse_reports_malformed_body() {
    assert!(matches!(parse_wifi_form(b"ssid=home"), Err(FormError::Malformed)));
    assert!(matches!(parse_wifi_text("password=x&ssid=y"), Err(FormError::Malformed)));
    assert_eq!(parse_wifi_form(b"").err().map(|e| e.failure()), Some(FormFailure::Malformed));
}

#[test]
fn parse_reports_bad_encoding() {
    let expected = urlencoding::decode("%FF").unwrap_err();
    match parse_wifi_form(b"ssid=%FF&password=%C3") {
        Err(FormError::BadEncoding(f, e)) => {
            assert_eq!(f, FormField::Ssid);
            assert_eq!(e, expected);
        }
        _ => panic!("expected the name's decoding error"),
    }
    let expected = urlencoding::decode("%C3").unwrap_err();
    match parse_wifi_form(b"ssid=ok&password=%C3") {
        Err(FormError::BadEncoding(f, e)) => {
            assert_eq!(f, FormField::Password);
            assert_eq!(e, expected);
        }
        _ => panic!("expected the password's decoding error"),
    }
    assert_eq!(
        parse_wifi_form(b"ssid=%FF&password=x").err().map(|e| e.failure()),
        Some(FormFailure::BadEncoding)
    );
}

#[test]
fn parse_replaces_invalid_body_bytes() {
    let c = parse_wifi_form(b"ssid=a\xffb&password=x").unwrap();
    assert_eq!(c.ssid, "a\u{fffd}b");
}

#[test]
fn form_roundtrip_gives_back_values() {
    for (ssid, pwd) in [("home", "secret"), ("", ""), ("wifi 5G", "pa ss=word"), ("关", "开")].iter() {
        let body = format!("ssid={}&password={}", ssid, pwd);
        let (s, p) = split_wifi_form(&body).unwrap();
        assert_eq!((s.as_str(), p.as_str()), (*ssid, *pwd));
        let c = parse_wifi_form(body.as_bytes()).unwrap();
        assert_eq!((c.ssid.as_str(), c.password.as_str()), (*ssid, *pwd));
    }
}

#[test]
fn portal_page_lists_networks() {
    let ssids = vec!["home".to_string(), "caf\"e".to_string()];
    let page = render_portal_page("<ul>{{ssids}}</ul>", &ssids);
    assert_eq!(page, "<ul>[\"home\", \"caf\\\"e\"]</ul>");
    assert_eq!(render_portal_page("{{ssids}}", &Vec::new()), "[]");
}

#[test]
fn template_without_marker_is_unchanged() {
    assert_eq!(fill_portal_template("<html></html>", "[\"x\"]"), "<html></html>");
    assert_eq!(fill_portal_template("{{ssids}}|{{ssids}}", "L"), "L|L");
}
