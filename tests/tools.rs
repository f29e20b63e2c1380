use gemini_chat::dispatch::{directory_created, mentions_not_found, with_directory_listing};
use gemini_chat::external::{aws_arguments, combine_output, command_is_empty, AwsValue};
use gemini_chat::listing::{format_listing, list_entries, sort_entries, DirEntryInfo, EntryKind};
use gemini_chat::paths::{format_path, sanitize_path};
use gemini_chat::search::{names_similar, search_content};

fn entry(name: &str, dir: bool) -> DirEntryInfo {
    DirEntryInfo {
        name: name.to_string(),
        sorts_as_dir: dir,
        kind: if dir { EntryKind::Dir } else { EntryKind::File },
        readonly: false,
        size: 42,
        modified_secs: 0,
    }
}

#[test]
fn directories_listed_before_files() {
    for order in [vec![entry("a.txt", false), entry("b", true)], vec![entry("b", true), entry("a.txt", false)]] {
        let sorted = sort_entries(order);
        let names: Vec<&str> = sorted.iter().map(|e| e.name.as_str()).collect();
        assert_eq!(names, vec!["b", "a.txt"]);
    }
}

#[test]
fn names_sorted_by_code_point() {
    let sorted = sort_entries(vec![entry("b", false), entry("B", false), entry("a", false), entry("ab", false)]);
    let names: Vec<&str> = sorted.iter().map(|e| e.name.as_str()).collect();
    assert_eq!(names, vec!["B", "a", "ab", "b"]);
}

#[test]
fn listing_rows() {
    let text = format_listing(&vec![entry("b", true), entry("a.txt", false)]);
    assert_eq!(
        text,
        "Type Permissions     Size  Modified             Name\n\
         ---- ----------- -------- ------------------- ----------------\n\
         dir  rw-               42 1970-01-01 00:00 b/\n\
         file rw-               42 1970-01-01 00:00 a.txt\n"
    );
    let listed = list_entries(vec![entry("a.txt", false), entry("b", true)]);
    assert_eq!(listed, text);
}

#[test]
fn listing_time_and_size() {
    let mut e = entry("x", false);
    e.modified_secs = 86_400 + 3_600 + 60;
    e.size = 123_456_789;
    e.readonly = true;
    let text = format_listing(&vec![e]);
    assert!(text.ends_with("file r--         123456789 1970-01-02 01:01 x\n"));
}

#[test]
fn search_with_context() {
    let content = "one\nTwo\nthree\nfour\nfive\nsix\ntwo again";
    let r = search_content(content, "two", "f.txt", Some(1)).ok().unwrap();
    assert_eq!(
        r,
        "Found 2 matches for pattern 'two' in f.txt:\n\n  1: one\n\u{2192} 2: Two\n  3: three\n\n--\n  6: six\n\u{2192} 7: two again\n"
    );
    let r = search_content(content, "zzz", "f.txt", None).ok().unwrap();
    assert_eq!(r, "Pattern 'zzz' not found in f.txt");
    let r = search_content("a\nb\nc\nd\ne\nf", "d", "g", None).ok().unwrap();
    assert!(r.ends_with("  2: b\n  3: c\n\u{2192} 4: d\n  5: e\n  6: f\n"));
}

#[test]
fn search_empty_pattern_fails() {
    match search_content("x", "", "f", None) {
        Err(e) => assert_eq!(e.message(), "Search pattern cannot be empty"),
        Ok(_) => panic!("expected an error"),
    }
}

#[test]
fn shell_output_combined() {
    assert_eq!(combine_output("out", "", true, "exit status: 0"), "out\n");
    assert_eq!(combine_output("out", "warn", false, "exit status: 1"), "out\nError: warn\n");
    assert_eq!(combine_output("out\n", "note\n", true, "exit status: 0"), "out\nnote\n");
    assert_eq!(combine_output("", "", false, "exit status: 2"), "Command failed with exit code: exit status: 2\n");
    assert_eq!(combine_output("", "", true, "exit status: 0"), "");
    assert!(command_is_empty("  \t\n"));
    assert!(!command_is_empty(" ls "));
}

#[test]
fn cloud_cli_flags() {
    let params = vec![
        ("bucket_name".to_string(), AwsValue::Text("b".to_string())),
        ("recursive".to_string(), AwsValue::Text(String::new())),
        ("max_items".to_string(), AwsValue::Literal("5".to_string())),
        ("skip".to_string(), AwsValue::Null),
        ("tags".to_string(), AwsValue::Literal("[\"x\"]".to_string())),
    ];
    let args = aws_arguments("s3", "ls", "us-east-1", Some("dev"), &params);
    assert_eq!(
        args,
        vec![
            "s3", "ls", "--region", "us-east-1", "--profile", "dev", "--bucket-name", "b", "--recursive",
            "--max-items", "5", "--tags", "[\"x\"]"
        ]
    );
    assert_eq!(aws_arguments("ec2", "describe", "eu", None, &vec![]), vec!["ec2", "describe", "--region", "eu"]);
}

#[test]
fn not_found_recovery_text() {
    assert!(mentions_not_found("File not found: /x"));
    assert!(!mentions_not_found("Not a file: /x"));
    assert_eq!(
        with_directory_listing("File not found: /x", "L"),
        "Error: File not found: /x.\n\nAvailable files in directory:\nL"
    );
    assert_eq!(directory_created("d"), "Directory created: d\nThe directory is empty.");
}

#[test]
fn paths_relative_to_base() {
    assert_eq!(format_path("/home/u", "/home/u/src/main.rs"), "src/main.rs");
    assert_eq!(format_path("/home/u/", "/home/u"), ".");
    assert_eq!(format_path("/home/u", "/etc/hosts"), "/etc/hosts");
    assert_eq!(format_path("/home/u", "/home/user"), "/home/user");
    assert_eq!(format_path("./a", "a/b"), "a/b");
    assert_eq!(format_path("./a", "./a/b"), "b");
    assert_eq!(format_path("/a", "/a/b/./c"), "b/./c");
    assert_eq!(format_path("/a/./b", "/a/b/c/"), "c");
    assert_eq!(format_path("/a", "/a//"), ".");
}

#[test]
fn similar_file_names() {
    assert!(names_similar("README.md", "readme.MD"));
    assert!(names_similar("main.rs.bak", "main.rs"));
    assert!(names_similar("a", "abc"));
    assert!(!names_similar("lib.rs", "main.rs"));
}

#[test]
fn paths_sanitized() {
    assert_eq!(sanitize_path(" ~ ", Some("/home/u"), Some("/w")), "/home/u");
    assert_eq!(sanitize_path("~/a/b", Some("/home/u"), Some("/w")), "/home/u/a/b");
    assert_eq!(sanitize_path("a.txt", Some("/home/u"), Some("/w/")), "/w/a.txt");
    assert_eq!(sanitize_path("/etc/hosts", None, Some("/w")), "/etc/hosts");
    assert_eq!(sanitize_path("rel", None, None), "rel");
}
