use sht20_node::text::{chars_of, replace_all_matches, split_piece};

#[test]
fn split_piece_picks_pieces_in_order() {
    assert_eq!(split_piece("a&b&c", "&", 0).as_deref(), Some("a"));
    assert_eq!(split_piece("a&b&c", "&", 1).as_deref(), Some("b"));
    assert_eq!(split_piece("a&b&c", "&", 2).as_deref(), Some("c"));
    assert_eq!(split_piece("a&b&c", "&", 3), None);
}

#[test]
fn split_piece_matches_std_split() {
    let cases = [
        ("ssid=home", "ssid="),
        ("xssid=homessid=tail", "ssid="),
        ("", "&"),
        ("&&", "&"),
        ("aaaa", "aa"),
        ("password=", "password="),
        ("héllo wörld", "ö"),
    ];
    for (text, pat) in cases.iter() {
        let expected: Vec<&str> = text.split(pat).collect();
        for n in 0..expected.len() + 2 {
            let got = split_piece(text, pat, n);
            assert_eq!(got.as_deref(), expected.get(n).copied(), "{:?} on {:?} piece {}", text, pat, n);
        }
    }
}

#[test]
fn replace_all_matches_std_replace() {
    let cases = [
        ("<p>{{ssids}}</p>", "{{ssids}}", "[\"a\"]"),
        ("{{ssids}}{{ssids}}", "{{ssids}}", "x"),
        ("no marker here", "{{ssids}}", "x"),
        ("aaaaa", "aa", "b"),
        ("", "x", "y"),
    ];
    for (text, pat, with) in cases.iter() {
        assert_eq!(replace_all_matches(text, pat, with), text.replace(pat, with));
    }
}

#[test]
fn split_then_join_gives_back_the_text() {
    for (text, pat) in [("a&b&&c&", "&"), ("ssid=ssid=x", "ssid="), ("plain", "&")].iter() {
        let mut pieces = Vec::new();
        let mut n = 0;
        while let Some(p) = split_piece(text, pat, n) {
            pieces.push(p);
            n += 1;
        }
        assert_eq!(pieces.join(pat), *text);
        assert_eq!(replace_all_matches(text, pat, pat), *text);
    }
}

#[test]
fn absent_pattern_leaves_text_whole() {
    assert_eq!(split_piece("no separators", "&", 0).as_deref(), Some("no separators"));
    assert_eq!(split_piece("no separators", "&", 1), None);
    assert_eq!(replace_all_matches("no separators", "&", "+"), "no separators");
}

#[test]
fn chars_of_lists_every_char() {
    assert_eq!(chars_of("aé关"), vec!['a', 'é', '关']);
    assert!(chars_of("").is_empty());
}
