use fanbox_archive::config::Config;
use fanbox_archive::config::SaveType;
use fanbox_archive::config::Strategy;
use fanbox_archive::creators::display_creators;
use fanbox_archive::fanbox::KeyedList;
use fanbox_archive::fanbox::PostBlock;
use fanbox_archive::fanbox::PostBlockStyle;
use fanbox_archive::strings::contains_sub;
use fanbox_archive::strings::find_sub;
use fanbox_archive::strings::split_char;
use fanbox_archive::strings::str_eq;
use fanbox_archive::strings::trim;
use fanbox_archive::sync::match_placements;

#[test]
fn substring_search_finds_the_first_occurrence() {
    assert_eq!(find_sub("abcabc", "bc"), Some(1));
    assert_eq!(find_sub("abcabc", "cab"), Some(2));
    assert_eq!(find_sub("abcabc", "zz"), None);
    assert_eq!(find_sub("abc", ""), Some(0));
    assert!(contains_sub("hello world", "o w"));
    assert!(!contains_sub("hello", "world"));
}

#[test]
fn string_equality_is_by_characters() {
    assert!(str_eq("abc", "abc"));
    assert!(!str_eq("abc", "abd"));
    assert!(!str_eq("abc", "ab"));
    assert!(str_eq("", ""));
}

#[test]
fn split_keeps_empty_parts_and_joins_back() {
    let parts = split_char("a;;b;", ';');
    assert_eq!(parts, vec!["a", "", "b", ""]);
    let parts = split_char("", ';');
    assert_eq!(parts, vec![""]);
}

#[test]
fn trim_strips_ascii_whitespace() {
    assert_eq!(trim("  abc\t"), "abc");
    assert_eq!(trim("abc"), "abc");
    assert_eq!(trim(" \t\r\n "), "");
}

#[test]
fn zero_length_span_opens_and_closes_in_place() {
    let styled = PostBlock::style_text(
        "ab".to_string(),
        Some(vec![PostBlockStyle { ty: "bold".to_string(), offset: 1, length: 0 }]),
    )
    .unwrap();
    assert_eq!(styled, "a****b");
}

#[test]
fn empty_placement_list_commits_trivially() {
    let placements: Vec<(String, String)> = vec![];
    let reply: KeyedList<String> = KeyedList::new();
    assert_eq!(match_placements(&placements, &reply), Ok(vec![]));
}

#[test]
fn empty_creator_table_still_frames() {
    let lines = display_creators(&vec![]);
    assert_eq!(lines.len(), 3);
    assert_eq!(lines[0], "+- CreatorId -+- Fee --+- Name ------- - -");
    assert_eq!(lines[2], "");
}

#[test]
fn empty_session_still_yields_the_session_cookie() {
    let cfg = Config {
        session: String::new(),
        output: String::new(),
        save: SaveType::Supporting,
        strategy: Strategy::Increment,
        whitelist: vec![],
        blacklist: vec![],
        limit: 60,
        skip_free: false,
        user_agent: None,
        cookies: None,
        clearance: None,
        cache_path: None,
        no_cache: false,
        force: false,
    };
    assert_eq!(cfg.cookies(), "FANBOXSESSID=");
    assert_eq!(cfg.session(), "FANBOXSESSID=");
}
