use zim2waj::namespace::{partition_entries, passes_filter, EntryIndices, IndexedEntry};

fn entry(index: u32, path: &str, is_redirect: bool) -> IndexedEntry {
    IndexedEntry { index, path: path.to_string(), is_redirect }
}

#[test]
fn legacy_scheme_keeps_the_known_namespaces() {
    assert!(passes_filter("-css/a", false));
    assert!(!passes_filter("X0/b", false));
    assert!(passes_filter("A/c", false));
}

#[test]
fn legacy_scheme_keeps_each_of_the_five_namespaces() {
    for path in ["-/x", "A/x", "C/x", "J/x", "I/x", "-", "A"] {
        assert!(passes_filter(path, false));
    }
    for path in ["M/x", "X/x", "a/x", "c/x", "/A", " A", "B", "\u{e9}A"] {
        assert!(!passes_filter(path, false));
    }
}

#[test]
fn legacy_scheme_drops_the_empty_path() {
    assert!(!passes_filter("", false));
}

#[test]
fn new_scheme_keeps_every_entry() {
    for path in ["-css/a", "X0/b", "A/c", "", "index.html"] {
        assert!(passes_filter(path, true));
    }
}

#[test]
fn partition_of_a_legacy_source() {
    let entries = vec![
        entry(0, "-css/a", false),
        entry(1, "X0/b", false),
        entry(2, "A/c", false),
        entry(3, "A/r", true),
        entry(4, "M/r", true),
        entry(5, "I/p", false),
        entry(6, "-/r", true),
    ];
    let (content, redirects) = partition_entries(&entries, false).into_feed_order();
    assert_eq!(content, vec![5, 2, 0]);
    assert_eq!(redirects, vec![3, 6]);
}

#[test]
fn partition_of_a_new_scheme_source() {
    let entries = vec![
        entry(10, "a.html", false),
        entry(11, "", true),
        entry(12, "img.png", false),
    ];
    let (content, redirects) = partition_entries(&entries, true).into_feed_order();
    assert_eq!(content, vec![12, 10]);
    assert_eq!(redirects, vec![11]);
}

#[test]
fn partition_of_nothing() {
    let (content, redirects) = partition_entries(&Vec::new(), false).into_feed_order();
    assert!(content.is_empty());
    assert!(redirects.is_empty());
}

#[test]
fn recording_one_by_one() {
    let mut indices = EntryIndices::new();
    indices.record("A/one", 1, false, false);
    indices.record("Z/two", 2, false, false);
    indices.record("C/three", 3, true, false);
    indices.record("J/four", 4, false, false);
    indices.record("Z/five", 5, true, false);
    let (content, redirects) = indices.into_feed_order();
    assert_eq!(content, vec![4, 1]);
    assert_eq!(redirects, vec![3]);
}
