//! Tests for the resolution, listing, composition and reload core.

use webserve::compose::{compose, reload_script};
use webserve::listing::directory_listing;
use webserve::paths::{is_html_path, request_segments};
use webserve::reload::{reload_message, should_respond, Broadcaster, PollOutcome};
use webserve::resolve::{resolve, EntryKind, FsEntry, FsTree, Resolution};

fn segs(parts: &[&str]) -> Vec<String> {
    parts.iter().map(|s| s.to_string()).collect()
}

fn tree(entries: &[(&[&str], EntryKind)]) -> FsTree {
    let mut v: Vec<FsEntry> = Vec::new();
    for (path, kind) in entries {
        v.push(FsEntry { path: segs(path), kind: *kind });
    }
    FsTree { entries: v }
}

#[test]
fn test_directory_listing_empty() {
    let names: Vec<String> = Vec::new();
    let listing = directory_listing(&names);
    assert!(listing.contains("<ul>"));
    assert!(listing.contains("</ul>"));
    assert_eq!(listing, "<ul></ul>");
}

#[test]
fn test_directory_listing_with_files() {
    let names = segs(&["test.txt"]);
    let listing = directory_listing(&names);
    assert!(listing.contains("test.txt"));
    assert!(listing.contains("<a href="));
    assert_eq!(
        listing,
        "<ul><li><a href=\"test.txt\" style=\"text-decoration:none; font-size:1.1em; \
         display:block;\">test.txt</a></li></ul>"
    );
}

#[test]
fn test_directory_listing_keeps_order_and_links_every_entry() {
    let names = segs(&["b.css", "a.html"]);
    let listing = directory_listing(&names);
    let first = listing.find("b.css").unwrap();
    let second = listing.find("a.html").unwrap();
    assert!(first < second);
    assert_eq!(listing.matches("<li>").count(), 2);
}

#[test]
fn test_resolve_existing_file() {
    let t = tree(&[(&["test.txt"], EntryKind::File)]);
    let r = resolve(&t, "/test.txt", false);
    assert_eq!(r, Resolution::ServeFile(segs(&["test.txt"])));
}

#[test]
fn test_resolve_missing_file_not_found() {
    let t = tree(&[]);
    let r = resolve(&t, "/nonexistent.txt", false);
    assert_eq!(r, Resolution::NotFound);
}

#[test]
fn test_resolve_directory_with_index_serves_index() {
    let t = tree(&[
        (&["sub"], EntryKind::Dir),
        (&["sub", "index.html"], EntryKind::File),
    ]);
    let r = resolve(&t, "/sub", false);
    assert_eq!(r, Resolution::ServeFile(segs(&["sub", "index.html"])));
}

#[test]
fn test_resolve_directory_without_index_lists() {
    let t = tree(&[(&["sub"], EntryKind::Dir)]);
    let r = resolve(&t, "/sub", false);
    assert_eq!(r, Resolution::ListDirectory(segs(&["sub"])));
}

#[test]
fn test_resolve_root_without_index_lists_root() {
    let t = tree(&[(&["test.txt"], EntryKind::File)]);
    let r = resolve(&t, "/", false);
    assert_eq!(r, Resolution::ListDirectory(segs(&[])));
}

#[test]
fn test_resolve_spa_fallback() {
    let t = tree(&[(&["index.html"], EntryKind::File)]);
    let r = resolve(&t, "/nonexistent-route", true);
    assert_eq!(r, Resolution::ServeFile(segs(&["index.html"])));
}

#[test]
fn test_resolve_spa_off_ignores_root_index() {
    let t = tree(&[(&["index.html"], EntryKind::File)]);
    let r = resolve(&t, "/nonexistent-route", false);
    assert_eq!(r, Resolution::NotFound);
}

#[test]
fn test_resolve_traversal_is_not_found() {
    let t = tree(&[
        (&["index.html"], EntryKind::File),
        (&["a.txt"], EntryKind::File),
    ]);
    assert_eq!(resolve(&t, "/../secret.txt", true), Resolution::NotFound);
    assert_eq!(resolve(&t, "/a/../../secret.txt", true), Resolution::NotFound);
    assert_eq!(resolve(&t, "/..", false), Resolution::NotFound);
}

#[test]
fn test_resolve_traversal_inside_root_is_allowed() {
    let t = tree(&[(&["a.txt"], EntryKind::File), (&["sub"], EntryKind::Dir)]);
    let r = resolve(&t, "/sub/../a.txt", false);
    assert_eq!(r, Resolution::ServeFile(segs(&["a.txt"])));
}

#[test]
fn test_request_segments_normalization() {
    let r = request_segments("/a//b/./c/").unwrap();
    assert_eq!(r, segs(&["a", "b", "c"]));
    assert_eq!(request_segments("/").unwrap(), segs(&[]));
    assert_eq!(request_segments(""), Some(segs(&[])));
    assert_eq!(request_segments("/.."), None);
}

#[test]
fn test_small_site_end_to_end() {
    // Root holds `a.txt` ("hi") and an empty subdirectory `sub`.
    let t = tree(&[(&["a.txt"], EntryKind::File), (&["sub"], EntryKind::Dir)]);

    let r = resolve(&t, "/a.txt", false);
    assert_eq!(r, Resolution::ServeFile(segs(&["a.txt"])));
    let file = segs(&["a.txt"]);
    let body = compose(b"hi".to_vec(), is_html_path(&file), false, "");
    assert_eq!(body, b"hi".to_vec());

    let r = resolve(&t, "/sub", false);
    assert_eq!(r, Resolution::ListDirectory(segs(&["sub"])));
    let listing = directory_listing(&Vec::new());
    assert_eq!(listing, "<ul></ul>");

    assert_eq!(resolve(&t, "/missing", false), Resolution::NotFound);

    let with_index = tree(&[
        (&["a.txt"], EntryKind::File),
        (&["sub"], EntryKind::Dir),
        (&["index.html"], EntryKind::File),
    ]);
    let r = resolve(&with_index, "/missing", true);
    assert_eq!(r, Resolution::ServeFile(segs(&["index.html"])));
}

#[test]
fn test_is_html_path() {
    assert!(is_html_path(&segs(&["index.html"])));
    assert!(is_html_path(&segs(&["sub", "page.html"])));
    assert!(!is_html_path(&segs(&["style.css"])));
    assert!(!is_html_path(&segs(&[".html"])));
    assert!(!is_html_path(&segs(&["html"])));
    assert!(!is_html_path(&segs(&[])));
}

#[test]
fn test_compose_appends_script_to_html_only() {
    let script = reload_script(&"127.0.0.1:8080".to_string());
    let html = b"<html><body>hi</body></html>".to_vec();
    let out = compose(html.clone(), true, true, script.as_str());
    assert_eq!(out.len(), html.len() + script.len());
    assert!(out.starts_with(&html));
    assert!(out.ends_with(script.as_bytes()));

    let css = b"body { color: red; }".to_vec();
    let out = compose(css.clone(), false, true, script.as_str());
    assert_eq!(out, css);

    let out = compose(html.clone(), true, false, script.as_str());
    assert_eq!(out, html);
}

#[test]
fn test_reload_script_mentions_address_and_route() {
    let script = reload_script(&"127.0.0.1:8080".to_string());
    assert!(script.contains("http://127.0.0.1:8080/reload"));
    assert!(script.contains("location.reload()"));
    assert!(script.starts_with("<script>"));
    assert!(script.ends_with("</script>"));
}

#[test]
fn test_reload_poll_sequence() {
    let mut b = Broadcaster::new(16);
    let mut sub = b.subscribe();
    let pending = b.poll(&mut sub);
    assert_eq!(pending, PollOutcome::Pending);
    assert!(!should_respond(&pending));
    b.publish();
    let got = b.poll(&mut sub);
    assert_eq!(got, PollOutcome::Event);
    assert!(should_respond(&got));
    assert_eq!(b.poll(&mut sub), PollOutcome::Pending);
    assert_eq!(reload_message(), "reload");
}

#[test]
fn test_publish_wakes_all_waiting_subscribers() {
    let mut b = Broadcaster::new(16);
    let mut subs = vec![b.subscribe(), b.subscribe(), b.subscribe()];
    for sub in subs.iter_mut() {
        assert_eq!(b.poll(sub), PollOutcome::Pending);
    }
    b.publish();
    for sub in subs.iter_mut() {
        assert_eq!(b.poll(sub), PollOutcome::Event);
    }
}

#[test]
fn test_slow_subscriber_lags_and_recovers() {
    let mut b = Broadcaster::new(2);
    let mut sub = b.subscribe();
    b.publish();
    b.publish();
    b.publish();
    b.publish();
    assert_eq!(b.poll(&mut sub), PollOutcome::Lagged { missed: 2 });
    assert_eq!(b.poll(&mut sub), PollOutcome::Event);
    assert_eq!(b.poll(&mut sub), PollOutcome::Event);
    assert_eq!(b.poll(&mut sub), PollOutcome::Pending);
}
