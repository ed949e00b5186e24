use collab_core::bytestr::{contains_bytes, replace_bytes};
use collab_core::listing::{
    entry_le_exec, is_excluded_name, is_hidden_name, name_le, sort_entries, FileEntry,
};

fn entry(name: &str, is_dir: bool) -> FileEntry {
    FileEntry { name: name.to_string(), path: format!("/p/{}", name), is_dir }
}

#[test]
fn excluded_names() {
    assert!(is_excluded_name(&".git".to_string()));
    assert!(is_excluded_name(&"node_modules".to_string()));
    assert!(is_excluded_name(&"target".to_string()));
    assert!(!is_excluded_name(&"src".to_string()));
    assert!(!is_excluded_name(&".gitignore".to_string()));
}

#[test]
fn hidden_names() {
    assert!(is_hidden_name(&".config".to_string()));
    assert!(is_hidden_name(&".".to_string()));
    assert!(!is_hidden_name(&"visible".to_string()));
    assert!(!is_hidden_name(&String::new()));
    assert!(!is_hidden_name(&"é.txt".to_string()));
}

#[test]
fn name_order() {
    assert!(name_le(&"a".to_string(), &"b".to_string()));
    assert!(!name_le(&"b".to_string(), &"a".to_string()));
    assert!(name_le(&"a".to_string(), &"ab".to_string()));
    assert!(!name_le(&"ab".to_string(), &"a".to_string()));
    assert!(name_le(&"same".to_string(), &"same".to_string()));
    assert!(name_le(&String::new(), &"x".to_string()));
}

#[test]
fn directories_come_before_files() {
    let d = entry("zzz", true);
    let f = entry("aaa", false);
    assert!(entry_le_exec(&d, &f));
    assert!(!entry_le_exec(&f, &d));
}

#[test]
fn sort_orders_directories_then_names() {
    let listing = vec![
        entry("readme.md", false),
        entry("src", true),
        entry("cargo.toml", false),
        entry("assets", true),
    ];
    let sorted = sort_entries(listing);
    let names: Vec<(String, bool)> =
        sorted.into_iter().map(|e| (e.name, e.is_dir)).collect();
    assert_eq!(names, vec![
        ("assets".to_string(), true),
        ("src".to_string(), true),
        ("cargo.toml".to_string(), false),
        ("readme.md".to_string(), false),
    ]);
}

#[test]
fn sort_keeps_every_entry() {
    let listing = vec![
        entry("b", false),
        entry("a", false),
        entry("a", false),
        entry("c", true),
    ];
    let sorted = sort_entries(listing);
    let names: Vec<String> = sorted.iter().map(|e| e.name.clone()).collect();
    assert_eq!(names, vec![
        "c".to_string(),
        "a".to_string(),
        "a".to_string(),
        "b".to_string()
    ]);
}

#[test]
fn sort_of_empty_and_single() {
    assert!(sort_entries(Vec::new()).is_empty());
    let one = sort_entries(vec![entry("only", false)]);
    assert_eq!(one.len(), 1);
    assert_eq!(one[0].name, "only");
}

#[test]
fn byte_search() {
    let hay = b"/ip4/0.0.0.0/udp/1".to_vec();
    assert!(contains_bytes(&hay, &b"0.0.0.0".to_vec()));
    assert!(!contains_bytes(&hay, &b"p2p-circuit".to_vec()));
    assert!(contains_bytes(&hay, &Vec::new()));
    assert!(!contains_bytes(&b"ab".to_vec(), &b"abc".to_vec()));
}

#[test]
fn byte_replacement() {
    let hay = b"x 0.0.0.0 y 0.0.0.0".to_vec();
    let out = replace_bytes(&hay, &b"0.0.0.0".to_vec(), &b"10.0.0.5".to_vec());
    assert_eq!(out, b"x 10.0.0.5 y 10.0.0.5".to_vec());

    // An empty pattern changes nothing.
    let out = replace_bytes(&hay, &Vec::new(), &b"zz".to_vec());
    assert_eq!(out, hay);

    // Without a match the input comes back unchanged.
    let out = replace_bytes(&hay, &b"none".to_vec(), &b"zz".to_vec());
    assert_eq!(out, hay);

    // Matches are found left to right and do not overlap.
    let out = replace_bytes(&b"aaa".to_vec(), &b"aa".to_vec(), &b"b".to_vec());
    assert_eq!(out, b"ba".to_vec());
}
