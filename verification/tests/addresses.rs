use hls_fetch::uri::{
    manifest_file_name, manifest_file_name_for_path, normalize_uri, segment_dir_name, settle_uri,
};

#[test]
fn relative_uri_is_resolved_against_the_manifest_url() {
    let base = "https://host/dir/stream.m3u8";
    assert_eq!(normalize_uri("a.ts", base), Some("https://host/dir/a.ts".to_string()));
    assert_eq!(normalize_uri("b.ts", base), Some("https://host/dir/b.ts".to_string()));
    assert_eq!(normalize_uri("c.ts", base), Some("https://host/dir/c.ts".to_string()));
}

#[test]
fn relative_uri_follows_the_resolution_rules() {
    let base = "https://host/dir/sub/stream.m3u8?token=1";
    assert_eq!(normalize_uri("../x.ts", base), Some("https://host/dir/x.ts".to_string()));
    assert_eq!(normalize_uri("/root.ts", base), Some("https://host/root.ts".to_string()));
    assert_eq!(normalize_uri("//other/y.ts", base), Some("https://other/y.ts".to_string()));
    assert_eq!(
        normalize_uri("seg 1.ts?q=a b", base),
        Some("https://host/dir/sub/seg%201.ts?q=a%20b".to_string())
    );
}

#[test]
fn absolute_uri_is_left_unchanged() {
    let base = "https://host/dir/stream.m3u8";
    for uri in [
        "https://cdn.example/a.ts",
        "HTTP://Example.COM",
        "http://example.com/a/../b.ts",
        "https://example.com/a b.ts",
        "data:text/plain,hello",
    ] {
        assert_eq!(normalize_uri(uri, base), Some(uri.to_string()));
    }
}

#[test]
fn absolute_uri_needs_no_base() {
    assert_eq!(
        normalize_uri("https://cdn.example/a.ts", "not a url"),
        Some("https://cdn.example/a.ts".to_string())
    );
}

#[test]
fn relative_uri_without_a_usable_base_is_refused() {
    assert_eq!(normalize_uri("a.ts", "not a url"), None);
    assert_eq!(normalize_uri("a.ts", ""), None);
    assert_eq!(normalize_uri("a.ts", "data:text/plain,hello"), None);
}

#[test]
fn settle_uri_keeps_an_absolute_uri() {
    assert_eq!(
        settle_uri("https://h/a.ts", true, Some("https://other/b.ts".to_string())),
        Some("https://h/a.ts".to_string())
    );
    assert_eq!(settle_uri("https://h/a.ts", true, None), Some("https://h/a.ts".to_string()));
}

#[test]
fn settle_uri_takes_the_joined_form_of_a_reference() {
    assert_eq!(
        settle_uri("a.ts", false, Some("https://h/d/a.ts".to_string())),
        Some("https://h/d/a.ts".to_string())
    );
    assert_eq!(settle_uri("a.ts", false, None), None);
}

#[test]
fn manifest_is_named_after_the_last_path_segment() {
    assert_eq!(
        manifest_file_name("https://host/dir/stream.m3u8"),
        Some("stream.m3u8".to_string())
    );
    assert_eq!(
        manifest_file_name("https://host/dir/stream.m3u8?token=abc#frag"),
        Some("stream.m3u8".to_string())
    );
}

#[test]
fn manifest_name_gets_the_suffix_where_it_lacks_it() {
    assert_eq!(manifest_file_name("https://host/live/channel"), Some("channel.m3u8".to_string()));
    assert_eq!(manifest_file_name("https://host/live/"), Some(".m3u8".to_string()));
    assert_eq!(manifest_file_name("https://host"), Some(".m3u8".to_string()));
    assert_eq!(
        manifest_file_name("https://host/a.M3U8"),
        Some("a.M3U8.m3u8".to_string())
    );
}

#[test]
fn manifest_name_needs_a_url_with_path_segments() {
    assert_eq!(manifest_file_name("no url at all"), None);
    assert_eq!(manifest_file_name(""), None);
    assert_eq!(manifest_file_name("data:text/plain,hello"), None);
}

#[test]
fn manifest_name_for_path_takes_only_paths_from_the_root() {
    assert_eq!(manifest_file_name_for_path("/a/b/c.m3u8"), Some("c.m3u8".to_string()));
    assert_eq!(manifest_file_name_for_path("/c"), Some("c.m3u8".to_string()));
    assert_eq!(manifest_file_name_for_path("/"), Some(".m3u8".to_string()));
    assert_eq!(manifest_file_name_for_path("c.m3u8"), None);
    assert_eq!(manifest_file_name_for_path(""), None);
}

#[test]
fn segment_directory_is_named_after_the_manifest() {
    assert_eq!(segment_dir_name("stream.m3u8"), "stream.m3u8.ts");
    assert_eq!(segment_dir_name(""), ".ts");
}
