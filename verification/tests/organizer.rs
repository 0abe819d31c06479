use mobius::config::Config;
use mobius::organizer::{organizer_items, str_lt};
use mobius::scanner::{DirEntry, FileFacts};

fn file(name: &str, size: u64) -> DirEntry {
    DirEntry {
        path: format!("/w/{name}"),
        name: Some(name.to_string()),
        facts: Some(FileFacts { is_file: true, size, modified_ns: 0 }),
    }
}

#[test]
fn lists_files_sorted_by_lowercased_name() {
    let c = Config::default_with_watch_dir("/w".to_string());
    let entries = vec![
        file("notes.txt", 3),
        file("Setup.dmg", 2),
        file("report.pdf", 1),
        file(".hidden", 1),
        DirEntry { path: "/w/dir".to_string(), name: Some("dir".to_string()), facts: Some(FileFacts { is_file: false, size: 0, modified_ns: 0 }) },
        DirEntry { path: "/w/x".to_string(), name: None, facts: None },
        file("Apple.PNG", 5),
    ];
    let items = organizer_items(&c, entries);
    let names: Vec<&str> = items.iter().map(|i| i.file_name.as_str()).collect();
    assert_eq!(names, vec!["Apple.PNG", "notes.txt", "report.pdf", "Setup.dmg"]);
    assert_eq!(items[0].ext, "png");
    assert_eq!(items[0].suggested, "Images");
    assert_eq!(items[0].size, 5);
    assert_eq!(items[2].suggested, "Documents/PDFs");
    assert_eq!(items[3].suggested, "Apps");
    assert_eq!(items[3].path, "/w/Setup.dmg");
}

#[test]
fn equal_names_keep_listing_order() {
    let c = Config::default_with_watch_dir("/w".to_string());
    let entries = vec![file("b.txt", 1), file("A.txt", 1), file("a.txt", 2), file("B.TXT", 3)];
    let items = organizer_items(&c, entries);
    let names: Vec<&str> = items.iter().map(|i| i.file_name.as_str()).collect();
    assert_eq!(names, vec!["A.txt", "a.txt", "b.txt", "B.TXT"]);
}

#[test]
fn ignored_files_are_not_listed() {
    let mut c = Config::default_with_watch_dir("/w".to_string());
    c.ignored_names.push("desktop.ini".to_string());
    c.ignored_extensions.push("LOG".to_string());
    let entries = vec![file("desktop.ini", 1), file("run.log", 1), file("run.crdownload", 1)];
    let items = organizer_items(&c, entries);
    let names: Vec<&str> = items.iter().map(|i| i.file_name.as_str()).collect();
    assert_eq!(names, vec!["run.crdownload"]);
}

#[test]
fn text_order_matches_string_order() {
    let words = ["", "a", "ab", "b", "é", "z", "Z", "ä", "abc", "aa"];
    for x in words {
        for y in words {
            assert_eq!(str_lt(x, y), x < y, "{x} {y}");
        }
    }
}
