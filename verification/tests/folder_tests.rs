use malai::folder_page::folder_page;
use malai::folder::{file_response_plan, FolderEntry,
    content_range_value, content_type_for, file_extension, folder_title_and_parent, join_path, join_target, parse_range,
    path_within_folder, decoded_request_component, plan_range, relative_path, request_component, show_file,
    show_folder, validate_path,
};

#[test]
fn test_parse_range() {
    assert_eq!(parse_range("bytes=1000-2000"), Some((1000, Some(2000))));
    assert_eq!(parse_range("bytes=1000-"), Some((1000, None)));
    assert_eq!(parse_range("bytes=-2000"), None);
    assert_eq!(parse_range("bytes=1000-1000"), Some((1000, Some(1000))));
    assert_eq!(parse_range("bytes=abc-def"), None);
    assert_eq!(parse_range("bytes="), None);
    assert_eq!(parse_range("bytes=1000-2000,3000-4000"), None);
}

#[test]
fn parse_range_single_number_and_edges() {
    assert_eq!(parse_range("bytes=42"), Some((42, None)));
    assert_eq!(parse_range("items=1-2"), None);
    assert_eq!(parse_range("bytes=1-2-3"), None);
    assert_eq!(parse_range("bytes=+5-6"), Some((5, Some(6))));
    assert_eq!(parse_range("bytes=18446744073709551615-"), Some((u64::MAX, None)));
    assert_eq!(parse_range("bytes=18446744073709551616-"), None);
}

#[test]
fn range_header_round_trip() {
    let header = format!("bytes={}-{}", 123u64, 4567u64);
    assert_eq!(parse_range(&header), Some((123, Some(4567))));
}

#[test]
fn plan_range_clips_to_file() {
    let p = plan_range(10, Some(1000), 100);
    assert_eq!((p.start, p.end, p.length), (10, 99, 90));
    let p = plan_range(0, None, 5);
    assert_eq!((p.start, p.end, p.length), (0, 4, 5));
    let p = plan_range(2, Some(3), 10);
    assert_eq!((p.start, p.end, p.length), (2, 3, 2));
    assert_eq!(content_range_value(&p, 10), "bytes 2-3/10");
}

#[test]
fn relative_paths_and_titles() {
    assert_eq!(relative_path("/srv/files/a/b.txt", "/srv/files"), "/a/b.txt");
    assert_eq!(relative_path("/srv/files", "/srv/files"), "");
    assert_eq!(folder_title_and_parent(""), ("Home".to_string(), "".to_string()));
    assert_eq!(folder_title_and_parent("/docs/x"), ("docs/x".to_string(), "..".to_string()));
    assert_eq!(folder_title_and_parent("docs"), ("docs".to_string(), "..".to_string()));
}

#[test]
fn listing_entries() {
    let f = show_file("b.txt", "/srv/files/a/b.txt", "/srv/files");
    assert!(!f.is_folder);
    assert_eq!(f.name, "b.txt");
    assert_eq!(f.path, "/a/b.txt");
    let d = show_folder("a", "/srv/files/a", "/srv/files");
    assert!(d.is_folder);
    assert_eq!(d.path, "/a");
}

#[test]
fn validate_path_messages() {
    assert_eq!(validate_path("\"/nope\"", false, false), Err("\"/nope\" doesn't exist".to_string()));
    assert_eq!(validate_path("\"/etc/hosts\"", true, false), Err("\"/etc/hosts\" is not a directory".to_string()));
    assert_eq!(validate_path("\"/srv\"", true, true), Ok(()));
}

#[test]
fn extensions_and_content_types() {
    assert_eq!(file_extension("a.tar.gz"), Some("gz".to_string()));
    assert_eq!(file_extension("README"), None);
    assert_eq!(content_type_for("index.html"), "text/html");
    assert_eq!(content_type_for("photo.png"), "image/png");
    assert_eq!(content_type_for("data.unknownext"), "application/octet-stream");
    assert_eq!(content_type_for("Makefile"), "application/octet-stream");
}

#[test]
fn percent_decoding_and_components() {
    assert_eq!(decoded_request_component("/a%20b"), Some("a b".to_string()));
    assert_eq!(decoded_request_component("%zz"), Some("%zz".to_string()));
    assert_eq!(decoded_request_component("/%2Fetc"), Some("/etc".to_string()));
    assert_eq!(decoded_request_component("/%ff"), None);
    assert_eq!(request_component("/x/y"), "x/y");
    assert_eq!(request_component("x"), "x");
}

#[test]
fn folder_containment() {
    assert!(path_within_folder("/srv/files", "/srv/files"));
    assert!(path_within_folder("/srv/files", "/srv/files/a"));
    assert!(!path_within_folder("/srv/files", "/srv/filesystem"));
    assert!(!path_within_folder("/srv/files", "/srv"));
    assert!(path_within_folder("/", "/etc"));
}

#[test]
fn joining_request_paths() {
    assert_eq!(join_target("/srv/files", "/a/b.txt"), "/srv/files/a/b.txt");
    assert_eq!(join_target("/srv/files", "a"), "/srv/files/a");
    assert_eq!(join_target("/srv/files/", "/a"), "/srv/files/a");
    assert_eq!(join_target("/srv/files", "/"), "/srv/files/");
    assert_eq!(join_target("/srv/files", "//etc/passwd"), "/etc/passwd");
    assert_eq!(join_target("/srv/files", "/../../etc/passwd"), "/srv/files/../../etc/passwd");
    assert_eq!(
        std::path::Path::new("/srv/files").join("a/b.txt").to_string_lossy(),
        join_target("/srv/files", "/a/b.txt")
    );
    assert_eq!(
        std::path::Path::new("/srv/files").join("/etc/passwd").to_string_lossy(),
        join_target("/srv/files", "//etc/passwd")
    );
    assert_eq!(std::path::Path::new("/srv/files").join("").to_string_lossy(), join_target("/srv/files", "/"));
    assert_eq!(std::path::Path::new("").join("a").to_string_lossy(), join_target("", "a"));
    assert_eq!(std::path::Path::new("/srv/files/").join("a").to_string_lossy(), join_target("/srv/files/", "a"));
}

#[test]
fn resolving_canonical_paths() {
    assert_eq!(join_path("/srv/files", Ok("/srv/files/a".to_string())), Ok("/srv/files/a".to_string()));
    assert_eq!(join_path("/srv/files", Ok("/srv/files".to_string())), Ok("/srv/files".to_string()));
    assert_eq!(join_path("/srv/files", Ok("/etc/passwd".to_string())), Err("oops".to_string()));
    assert_eq!(join_path("/srv/files", Ok("/srv/filesystem".to_string())), Err("oops".to_string()));
    assert_eq!(
        join_path("/srv/files", Err("No such file or directory (os error 2)".to_string())),
        Err("No such file or directory (os error 2)".to_string())
    );
}

#[test]
fn range_grammar_cases() {
    assert_eq!(parse_range("bytes=+5-7"), Some((5, Some(7))));
    assert_eq!(parse_range("bytes=5-+7"), Some((5, Some(7))));
    assert_eq!(parse_range("bytes=7-5"), Some((7, Some(5))));
    assert_eq!(parse_range("bytes=5"), Some((5, None)));
    assert_eq!(parse_range("bytes=5--"), None);
    assert_eq!(parse_range("bytes=-"), None);
    assert_eq!(parse_range("bytes=18446744073709551616-"), None);
    assert_eq!(parse_range("bytes=18446744073709551615-"), Some((u64::MAX, None)));
    assert_eq!(parse_range("items=1-2"), None);
    assert_eq!(parse_range(" bytes=1-2"), None);
}

#[test]
fn response_plans() {
    let whole = file_response_plan(None, 10);
    assert_eq!((whole.status, whole.content_length, whole.content_range.clone(), whole.seek_to, whole.body_limit), (200, 10, None, 0, None));
    let part = file_response_plan(Some((2, Some(5))), 10);
    assert_eq!(
        (part.status, part.content_length, part.content_range.clone(), part.seek_to, part.body_limit),
        (206, 4, Some("bytes 2-5/10".to_string()), 2, Some(4))
    );
    let open = file_response_plan(Some((7, None)), 10);
    assert_eq!((open.content_length, open.content_range.clone(), open.body_limit), (3, Some("bytes 7-9/10".to_string()), Some(3)));
    let clipped = file_response_plan(Some((0, Some(100))), 10);
    assert_eq!((clipped.content_length, clipped.content_range.clone()), (10, Some("bytes 0-9/10".to_string())));
}

#[test]
fn listing_page() {
    let entries = vec![
        FolderEntry { is_folder: false, name: "b.txt".to_string(), path: "/b.txt".to_string() },
        FolderEntry { is_folder: true, name: "sub".to_string(), path: "/sub".to_string() },
        FolderEntry { is_folder: false, name: "a.txt".to_string(), path: "/a.txt".to_string() },
    ];
    let page = folder_page("Home", "", &entries);
    assert_eq!(
        page,
        "<!DOCTYPE html><html><head><title>Home</title></head><body><h1>Home</h1><a href=\"\"></a><ul>\
<li class=\"file\"><a href=\"/a.txt\">a.txt</a></li>\
<li class=\"file\"><a href=\"/b.txt\">b.txt</a></li>\
<li class=\"folder\"><a href=\"/sub\">sub</a></li>\
</ul></body></html>"
    );
    let mut expected: Vec<String> = entries
        .iter()
        .map(|e| format!("<li class=\"{}\"><a href=\"{}\">{}</a></li>", if e.is_folder { "folder" } else { "file" }, e.path, e.name))
        .collect();
    expected.sort();
    let empty = folder_page("x", "..", &[]);
    assert_eq!(empty, "<!DOCTYPE html><html><head><title>x</title></head><body><h1>x</h1><a href=\"..\">..</a><ul></ul></body></html>");
    assert!(page.contains(&expected.join("")));
    let unicode = vec![
        FolderEntry { is_folder: false, name: "é".to_string(), path: "/é".to_string() },
        FolderEntry { is_folder: false, name: "z".to_string(), path: "/z".to_string() },
    ];
    let page = folder_page("t", "..", &unicode);
    assert!(page.find("/z").unwrap() < page.find("/é").unwrap());
}
