use zim2waj::router::{
    comp_hint, is_binary_mime, plan_content, select_reader, CompHint, ContentAdderSwitch,
    ContentPlan, DirectAccess, ReaderPlan, SourceItem, StoreChoice, IN_MEMORY_LIMIT,
};
use zim2waj::text::{contains_bytes, matches_at};

fn access(path: &str, offset: u64) -> Option<DirectAccess> {
    Some(DirectAccess { path: path.to_string(), offset })
}

#[test]
fn text_like_mimes_are_not_binary() {
    assert!(!is_binary_mime("text/html"));
    assert!(!is_binary_mime("application/javascript"));
    assert!(!is_binary_mime("application/json"));
    assert!(!is_binary_mime("image/svg+xml"));
    assert!(!is_binary_mime("application/xml"));
}

#[test]
fn other_mimes_are_binary() {
    assert!(is_binary_mime("image/png"));
    assert!(is_binary_mime("application/octet-stream"));
    assert!(is_binary_mime(""));
    assert!(is_binary_mime("text"));
}

#[test]
fn classification_keeps_case() {
    assert!(is_binary_mime("TEXT/HTML"));
    assert!(is_binary_mime("application/JSON"));
    assert!(!is_binary_mime("Application/json"));
}

#[test]
fn classification_matches_anywhere_in_the_string() {
    assert!(!is_binary_mime("application/ld+json; charset=utf-8"));
    assert!(!is_binary_mime("application/xhtml+xml"));
    assert!(!is_binary_mime("x-text/y"));
    assert!(!is_binary_mime("\u{e9}json"));
}

#[test]
fn split_mode_routes_text_like_content_to_the_primary_store() {
    let switch: ContentAdderSwitch<u8, u8> = ContentAdderSwitch::new(1, Some(2));
    assert!(switch.is_split());
    for mime in [
        "text/html",
        "application/javascript",
        "application/json",
        "image/svg+xml",
        "application/xml",
    ] {
        assert_eq!(switch.route(is_binary_mime(mime)), StoreChoice::Primary);
    }
}

#[test]
fn split_mode_routes_binary_content_to_the_binary_store() {
    let switch: ContentAdderSwitch<u8, u8> = ContentAdderSwitch::new(1, Some(2));
    for mime in ["image/png", "application/octet-stream"] {
        assert_eq!(switch.route(is_binary_mime(mime)), StoreChoice::Binary);
    }
}

#[test]
fn without_split_everything_goes_to_the_primary_store() {
    let switch: ContentAdderSwitch<u8, u8> = ContentAdderSwitch::new(1, None);
    assert!(!switch.is_split());
    for mime in ["text/html", "image/png", "application/octet-stream", "application/json", ""] {
        assert_eq!(switch.route(is_binary_mime(mime)), StoreChoice::Primary);
    }
    assert_eq!(switch.route(true), StoreChoice::Primary);
    assert_eq!(switch.route(false), StoreChoice::Primary);
}

#[test]
fn in_memory_limit_is_four_mebibytes() {
    assert_eq!(IN_MEMORY_LIMIT, 4_194_304);
}

#[test]
fn item_at_the_limit_is_read_into_memory() {
    assert_eq!(select_reader(4 * 1024 * 1024, access("/data/a.zim", 17)), ReaderPlan::InMemory);
    assert_eq!(select_reader(0, access("/data/a.zim", 17)), ReaderPlan::InMemory);
}

#[test]
fn item_over_the_limit_is_read_from_its_file() {
    assert_eq!(
        select_reader(4 * 1024 * 1024 + 1, access("/data/a.zim", 17)),
        ReaderPlan::FileRange {
            path: "/data/a.zim".to_string(),
            offset: 17,
            len: 4 * 1024 * 1024 + 1,
        }
    );
    assert_eq!(
        select_reader(u64::MAX, access("b", u64::MAX)),
        ReaderPlan::FileRange { path: "b".to_string(), offset: u64::MAX, len: u64::MAX }
    );
}

#[test]
fn item_without_direct_access_is_read_into_memory() {
    for size in [0, 1, 4 * 1024 * 1024, 4 * 1024 * 1024 + 1, u64::MAX] {
        assert_eq!(select_reader(size, None), ReaderPlan::InMemory);
    }
}

#[test]
fn hint_follows_direct_access() {
    assert_eq!(comp_hint(&access("a", 0)), CompHint::No);
    assert_eq!(comp_hint(&None), CompHint::Yes);
}

#[test]
fn plan_holds_the_three_decisions() {
    let plan = plan_content(SourceItem {
        mime: "image/png".to_string(),
        size: 5_000_000,
        direct_access: access("/data/a.zim", 1024),
    });
    assert_eq!(
        plan,
        ContentPlan {
            is_binary: true,
            comp_hint: CompHint::No,
            reader: ReaderPlan::FileRange {
                path: "/data/a.zim".to_string(),
                offset: 1024,
                len: 5_000_000,
            },
        }
    );
    let plan = plan_content(SourceItem {
        mime: "text/html".to_string(),
        size: 5_000_000,
        direct_access: None,
    });
    assert_eq!(
        plan,
        ContentPlan { is_binary: false, comp_hint: CompHint::Yes, reader: ReaderPlan::InMemory }
    );
}

#[test]
fn switch_hands_out_its_stores() {
    let mut switch: ContentAdderSwitch<Vec<u8>, Vec<u8>> =
        ContentAdderSwitch::new(Vec::new(), Some(Vec::new()));
    switch.primary_mut().push(1);
    match switch.binary_mut() {
        Some(store) => store.push(2),
        None => panic!("a split switch has a binary store"),
    }
    let (primary, extra) = switch.into_inner();
    assert_eq!(primary, vec![1]);
    assert_eq!(extra, vec![vec![2]]);
}

#[test]
fn unsplit_switch_has_no_extra_store() {
    let mut switch: ContentAdderSwitch<Vec<u8>, Vec<u8>> = ContentAdderSwitch::new(vec![7], None);
    assert!(switch.binary_mut().is_none());
    let (primary, extra) = switch.into_inner();
    assert_eq!(primary, vec![7]);
    assert!(extra.is_empty());
}

#[test]
fn substring_search_finds_every_place() {
    assert!(contains_bytes(b"abc", b""));
    assert!(contains_bytes(b"", b""));
    assert!(!contains_bytes(b"", b"a"));
    assert!(contains_bytes(b"abc", b"abc"));
    assert!(contains_bytes(b"abc", b"a"));
    assert!(contains_bytes(b"abc", b"bc"));
    assert!(!contains_bytes(b"abc", b"abcd"));
    assert!(!contains_bytes(b"abc", b"ac"));
    assert!(contains_bytes(b"aab", b"ab"));
}

#[test]
fn match_at_an_offset() {
    assert!(matches_at(b"abcabc", b"bc", 1));
    assert!(matches_at(b"abcabc", b"bc", 4));
    assert!(!matches_at(b"abcabc", b"bc", 0));
    assert!(matches_at(b"abc", b"", 3));
}
