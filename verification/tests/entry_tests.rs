use zim2waj::entry::{
    archive_path, mime_or_octet_stream, resolve_mime, ContentAddress, ResolvedEntry,
    ResolvedKind, ZimEntry, ZimEntryKind,
};

fn address(pack_id: u16, content_id: u32) -> ContentAddress {
    ContentAddress { pack_id, content_id }
}

fn content(path: &str, mime: &str, at: ContentAddress) -> ResolvedEntry {
    ResolvedEntry {
        path: path.to_string(),
        kind: ResolvedKind::Content { mime: mime.to_string(), address: at },
    }
}

fn redirect(path: &str, target: &str) -> ResolvedEntry {
    ResolvedEntry {
        path: path.to_string(),
        kind: ResolvedKind::Redirect { target: target.to_string() },
    }
}

#[test]
fn one_leading_slash_is_taken_off() {
    assert_eq!(archive_path("/a/b"), "a/b");
    assert_eq!(archive_path("a/b"), "a/b");
    assert_eq!(archive_path("//a"), "/a");
    assert_eq!(archive_path("/"), "");
    assert_eq!(archive_path(""), "");
    assert_eq!(archive_path("/\u{e9}t\u{e9}"), "\u{e9}t\u{e9}");
    assert_eq!(archive_path("\u{e9}/"), "\u{e9}/");
}

#[test]
fn a_well_formed_mime_is_kept_in_lower_case() {
    assert_eq!(resolve_mime("text/html"), "text/html");
    assert_eq!(resolve_mime("TEXT/HTML"), "text/html");
    assert_eq!(resolve_mime("image/svg+xml"), "image/svg+xml");
    assert_eq!(resolve_mime("text/html; charset=utf-8"), "text/html; charset=utf-8");
}

#[test]
fn a_malformed_mime_becomes_octet_stream() {
    assert_eq!(resolve_mime(""), "application/octet-stream");
    assert_eq!(resolve_mime("html"), "application/octet-stream");
    assert_eq!(resolve_mime("/html"), "application/octet-stream");
    assert_eq!(resolve_mime("text/ht ml"), "application/octet-stream");
}

#[test]
fn fallback_applies_only_without_a_parsed_mime() {
    assert_eq!(mime_or_octet_stream(None), "application/octet-stream");
    assert_eq!(mime_or_octet_stream(Some("image/png".to_string())), "image/png");
    assert_eq!(mime_or_octet_stream(Some(String::new())), "");
}

#[test]
fn content_entry() {
    let made = ZimEntry::new(content("/img/a.png", "image/png", address(2, 40)));
    assert_eq!(made.name(), "img/a.png");
    assert!(!made.is_main());
    assert_eq!(made.kind(), &ZimEntryKind::Content(address(2, 40), "image/png".to_string()));
}

#[test]
fn content_entry_with_a_malformed_mime() {
    let made = ZimEntry::new(content("a", "no mime", address(1, 0)));
    assert_eq!(
        made.kind(),
        &ZimEntryKind::Content(address(1, 0), "application/octet-stream".to_string())
    );
}

#[test]
fn redirect_entry() {
    let made = ZimEntry::new(redirect("old", "new"));
    assert_eq!(made.name(), "old");
    assert!(!made.is_main());
    assert_eq!(made.kind(), &ZimEntryKind::Redirect("new".to_string()));
}

#[test]
fn the_entry_with_the_empty_path_is_the_main_entry() {
    let made = ZimEntry::new(redirect("", "a.html"));
    assert_eq!(made.name(), "");
    assert!(made.is_main());
    let made = ZimEntry::new(content("", "text/html", address(1, 1)));
    assert!(made.is_main());
}

#[test]
fn a_lone_slash_is_not_the_main_entry() {
    let made = ZimEntry::new(redirect("/", "a.html"));
    assert_eq!(made.name(), "");
    assert!(!made.is_main());
}

#[test]
fn new_redirect_keeps_what_it_is_given() {
    let made = ZimEntry::new_redirect("/p".to_string(), "t".to_string(), true);
    assert_eq!(made.name(), "/p");
    assert!(made.is_main());
    assert_eq!(made.kind(), &ZimEntryKind::Redirect("t".to_string()));
    let made = ZimEntry::new_redirect(String::new(), String::new(), false);
    assert_eq!(made.name(), "");
    assert!(!made.is_main());
}
