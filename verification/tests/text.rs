use alertmanager_discord_bridge::text::{
    chars_of, normalize_url, str_eq, to_ascii_upper_char, to_ascii_uppercase,
};

#[test]
fn str_eq_tells_equal_from_different() {
    assert!(str_eq("", ""));
    assert!(str_eq("none", "none"));
    assert!(!str_eq("none", "None"));
    assert!(!str_eq("none", "non"));
    assert!(!str_eq("non", "none"));
    assert!(!str_eq("", "a"));
    assert!(str_eq("s\u{e9}v\u{e8}re", "s\u{e9}v\u{e8}re"));
    assert!(!str_eq("s\u{e9}v\u{e8}re", "severe"));
}

#[test]
fn chars_of_lists_every_character() {
    assert_eq!(chars_of(""), Vec::<char>::new());
    assert_eq!(chars_of("a/b"), vec!['a', '/', 'b']);
    assert_eq!(chars_of("\u{1f6a8}x"), vec!['\u{1f6a8}', 'x']);
}

#[test]
fn upper_char_maps_ascii_letters_only() {
    assert_eq!(to_ascii_upper_char('a'), 'A');
    assert_eq!(to_ascii_upper_char('m'), 'M');
    assert_eq!(to_ascii_upper_char('z'), 'Z');
    assert_eq!(to_ascii_upper_char('A'), 'A');
    assert_eq!(to_ascii_upper_char('`'), '`');
    assert_eq!(to_ascii_upper_char('{'), '{');
    assert_eq!(to_ascii_upper_char('7'), '7');
    assert_eq!(to_ascii_upper_char('\u{e9}'), '\u{e9}');
    assert_eq!(to_ascii_upper_char('\u{df}'), '\u{df}');
}

#[test]
fn uppercase_of_known_severities() {
    assert_eq!(to_ascii_uppercase("critical"), "CRITICAL");
    assert_eq!(to_ascii_uppercase("warning"), "WARNING");
    assert_eq!(to_ascii_uppercase("info"), "INFO");
    assert_eq!(to_ascii_uppercase(""), "");
    assert_eq!(to_ascii_uppercase("Page-2 now"), "PAGE-2 NOW");
}

#[test]
fn uppercase_leaves_what_is_not_ascii() {
    assert_eq!(to_ascii_uppercase("s\u{e9}v\u{e8}re"), "S\u{e9}V\u{e8}RE");
    assert_eq!(to_ascii_uppercase("stra\u{df}e"), "STRA\u{df}E");
    assert_eq!(to_ascii_uppercase("\u{131}i"), "\u{131}I");
}

#[test]
fn uppercase_agrees_with_std_on_ascii_upper_casing() {
    for s in ["critical", "Warning", "x-y_z", "s\u{e9}v\u{e8}re", "", "\u{1f389} ok", "ABC"] {
        assert_eq!(to_ascii_uppercase(s), s.to_ascii_uppercase());
    }
}

#[test]
fn normalize_replaces_triple_slashes() {
    assert_eq!(normalize_url("http://alerts.example///"), "http://alerts.example//");
    assert_eq!(normalize_url("http:///alerts.example"), "http://alerts.example");
    assert_eq!(normalize_url("a///b///c"), "a//b//c");
    assert_eq!(normalize_url("///"), "//");
}

#[test]
fn normalize_keeps_urls_without_triple_slash() {
    assert_eq!(normalize_url(""), "");
    assert_eq!(normalize_url("/"), "/");
    assert_eq!(normalize_url("//"), "//");
    assert_eq!(normalize_url("http://alerts.example/path/"), "http://alerts.example/path/");
}

#[test]
fn normalize_takes_matches_from_the_left_without_overlap() {
    assert_eq!(normalize_url("////"), "///");
    assert_eq!(normalize_url("/////"), "////");
    assert_eq!(normalize_url("//////"), "////");
    assert_eq!(normalize_url("a////b"), "a///b");
}

#[test]
fn normalize_agrees_with_std_replace() {
    for s in [
        "",
        "/",
        "//",
        "///",
        "////",
        "/////",
        "//////",
        "///////",
        "http://am.example:9093",
        "http:///am.example:9093",
        "http://am.example///a//b/c////d",
        "\u{e9}///\u{e9}",
        "a/b//c///d////e",
    ] {
        assert_eq!(normalize_url(s), s.replace("///", "//"));
    }
}

#[test]
fn normalize_twice_is_once_without_four_slashes() {
    for s in [
        "",
        "http://am.example:9093",
        "http:///am.example:9093",
        "http:///am.example///",
        "a///b//c/d///",
        "//////x".get(3..).unwrap(),
    ] {
        assert!(!s.contains("////"));
        let once = normalize_url(s);
        assert_eq!(normalize_url(&once), once);
    }
}

#[test]
fn normalize_twice_differs_with_four_slashes() {
    let once = normalize_url("http:////am.example");
    assert_eq!(once, "http:///am.example");
    assert_eq!(normalize_url(&once), "http://am.example");
}
