use dnsproxy::denylist::{parse_denylist, Denylist};
use dnsproxy::name::{normalize_domain, parse_denylist_line};

fn lines(text: &[&str]) -> Vec<String> {
    text.iter().map(|line| line.to_string()).collect()
}

#[test]
fn normalize_strips_final_dot() {
    assert_eq!(normalize_domain("example.com."), "example.com");
}

#[test]
fn normalize_strips_every_final_dot() {
    assert_eq!(normalize_domain("example.com..."), "example.com");
}

#[test]
fn normalize_keeps_inner_dots() {
    assert_eq!(normalize_domain("a.b.c.example.com"), "a.b.c.example.com");
}

#[test]
fn normalize_lowers_ascii_capitals() {
    assert_eq!(normalize_domain("WWW.Example.COM."), "www.example.com");
}

#[test]
fn normalize_leaves_other_characters() {
    assert_eq!(normalize_domain("xn--Bcher-kva.example"), "xn--bcher-kva.example");
    assert_eq!(normalize_domain("b\u{fc}cher.example."), "b\u{fc}cher.example");
    assert_eq!(normalize_domain("\u{c4}.example"), "\u{c4}.example");
}

#[test]
fn normalize_of_root_and_empty() {
    assert_eq!(normalize_domain("."), "");
    assert_eq!(normalize_domain(""), "");
}

#[test]
fn normalize_twice_is_once() {
    for name in ["Example.COM.", "a..", "", "x", "MiXeD.case.Example."] {
        let once = normalize_domain(name);
        assert_eq!(normalize_domain(&once), once);
    }
}

#[test]
fn line_with_wrapping() {
    assert_eq!(parse_denylist_line("||ads.example.com^"), Some("ads.example.com".to_string()));
}

#[test]
fn line_without_wrapping() {
    assert_eq!(parse_denylist_line("tracker.example.net"), Some("tracker.example.net".to_string()));
}

#[test]
fn line_with_repeated_wrapping() {
    assert_eq!(parse_denylist_line("||||ads.example.com^^"), Some("ads.example.com".to_string()));
}

#[test]
fn line_with_single_bar_keeps_it() {
    assert_eq!(parse_denylist_line("|ads.example.com^"), Some("|ads.example.com".to_string()));
    assert_eq!(parse_denylist_line("|||ads.example.com"), Some("|ads.example.com".to_string()));
}

#[test]
fn line_with_final_dot_and_capitals() {
    assert_eq!(parse_denylist_line("||Ads.Example.COM.^"), Some("ads.example.com".to_string()));
    assert_eq!(parse_denylist_line("Ads.Example.COM."), Some("ads.example.com".to_string()));
}

#[test]
fn line_keeps_inner_marks() {
    assert_eq!(parse_denylist_line("a^b||c"), Some("a^b||c".to_string()));
}

#[test]
fn blank_lines_name_nothing() {
    assert_eq!(parse_denylist_line(""), None);
    assert_eq!(parse_denylist_line("||^"), None);
    assert_eq!(parse_denylist_line("||"), None);
    assert_eq!(parse_denylist_line("^"), None);
    assert_eq!(parse_denylist_line("||.^"), None);
    assert_eq!(parse_denylist_line("."), None);
}

#[test]
fn empty_denylist_blocks_nothing() {
    let list = Denylist::new();
    assert_eq!(list.len(), 0);
    assert!(!list.contains("example.com"));
}

#[test]
fn denylist_from_lines() {
    let list = parse_denylist(&lines(&[
        "||ads.example.com^",
        "",
        "tracker.example.net",
        "||^",
        "||ADS.example.com.^",
    ]));
    assert_eq!(list.len(), 2);
    assert!(list.contains("ads.example.com"));
    assert!(list.contains("tracker.example.net"));
    assert!(!list.contains("example.com"));
    assert!(!list.contains(""));
}

#[test]
fn denylist_matches_exactly() {
    let list = parse_denylist(&lines(&["||example.com^"]));
    assert!(list.contains("example.com"));
    assert!(!list.contains("www.example.com"));
    assert!(!list.contains("com"));
    assert!(!list.contains("example.com."));
    assert!(!list.contains("Example.com"));
}

#[test]
fn denylist_holds_any_spelling_once_normalized() {
    let list = parse_denylist(&lines(&["||ads.example.com^"]));
    assert!(list.contains(&normalize_domain("ads.example.com")));
    assert!(list.contains(&normalize_domain("ads.example.com.")));
    assert!(list.contains(&normalize_domain("ADS.Example.Com.")));
    assert!(!list.contains(&normalize_domain("example.com.")));
    assert!(!list.contains(&normalize_domain("sub.ads.example.com.")));
}

#[test]
fn listed_names_are_blocked_as_listed() {
    let text = lines(&["||One.example^", "two.example.", "||||three.example^^"]);
    let list = parse_denylist(&text);
    for line in text.iter() {
        let name = parse_denylist_line(line).unwrap();
        assert!(list.contains(&name));
        assert_eq!(normalize_domain(&name), name);
    }
    assert_eq!(list.len(), 3);
}
