use ffmpeg_driver::diagnostic::Diagnostic;
use ffmpeg_driver::discover::{discover, Entry, Listing};

fn entry(path: &str) -> Entry {
    Entry::Path(path.to_string())
}

fn found(listings: &Vec<Listing>) -> Vec<String> {
    discover(listings).files.iter().map(|f| f.path().to_string()).collect()
}

#[test]
fn nothing_to_list_gives_nothing() {
    let d = discover(&vec![]);
    assert!(d.files.is_empty());
    assert!(d.diagnostics.is_empty());
}

#[test]
fn entries_with_the_input_extension_are_selected_in_listing_order() {
    let listings = vec![Listing::Entries(vec![
        entry("/a/z.mkv"),
        entry("/a/notes.txt"),
        entry("/a/b.mkv"),
        entry("/a/m.mkv"),
    ])];
    assert_eq!(found(&listings), vec!["/a/z.mkv", "/a/b.mkv", "/a/m.mkv"]);
}

#[test]
fn the_extension_is_compared_with_case() {
    let listings = vec![Listing::Entries(vec![
        entry("/a/one.MKV"),
        entry("/a/two.Mkv"),
        entry("/a/three.mkv"),
        entry("/a/four.mkv.bak"),
        entry("/a/mkv"),
        entry("/a/.mkv"),
    ])];
    assert_eq!(found(&listings), vec!["/a/three.mkv"]);
}

#[test]
fn directories_are_taken_in_the_order_given() {
    let listings = vec![
        Listing::Entries(vec![entry("/b/1.mkv"), entry("/b/2.mkv")]),
        Listing::Entries(vec![]),
        Listing::Entries(vec![entry("/a/3.mkv")]),
    ];
    assert_eq!(found(&listings), vec!["/b/1.mkv", "/b/2.mkv", "/a/3.mkv"]);
}

#[test]
fn an_unreadable_directory_is_skipped_and_the_others_are_not() {
    let listings = vec![
        Listing::Entries(vec![entry("/a/1.mkv")]),
        Listing::Unreadable,
        Listing::Entries(vec![entry("/c/2.mkv")]),
    ];
    let d = discover(&listings);
    let paths: Vec<&str> = d.files.iter().map(|f| f.path()).collect();
    assert_eq!(paths, vec!["/a/1.mkv", "/c/2.mkv"]);
    assert_eq!(d.diagnostics, vec![Diagnostic::UnreadableDirectory { directory: 1 }]);
}

#[test]
fn an_unreadable_entry_is_skipped_and_reported() {
    let listings = vec![
        Listing::Entries(vec![entry("/a/1.mkv"), Entry::Unreadable, entry("/a/2.mkv")]),
        Listing::Entries(vec![Entry::Unreadable]),
    ];
    let d = discover(&listings);
    let paths: Vec<&str> = d.files.iter().map(|f| f.path()).collect();
    assert_eq!(paths, vec!["/a/1.mkv", "/a/2.mkv"]);
    assert_eq!(
        d.diagnostics,
        vec![
            Diagnostic::UnreadableEntry { directory: 0, entry: 1 },
            Diagnostic::UnreadableEntry { directory: 1, entry: 0 },
        ]
    );
}

#[test]
fn messages_come_in_the_order_in_which_things_were_met() {
    let listings = vec![
        Listing::Unreadable,
        Listing::Entries(vec![Entry::Unreadable, entry("/b/x.mkv"), Entry::Unreadable]),
        Listing::Unreadable,
    ];
    let d = discover(&listings);
    assert_eq!(d.files.len(), 1);
    assert_eq!(
        d.diagnostics,
        vec![
            Diagnostic::UnreadableDirectory { directory: 0 },
            Diagnostic::UnreadableEntry { directory: 1, entry: 0 },
            Diagnostic::UnreadableEntry { directory: 1, entry: 2 },
            Diagnostic::UnreadableDirectory { directory: 2 },
        ]
    );
}

#[test]
fn the_same_file_listed_twice_is_discovered_twice() {
    let listings = vec![
        Listing::Entries(vec![entry("/a/1.mkv")]),
        Listing::Entries(vec![entry("/a/1.mkv")]),
    ];
    assert_eq!(found(&listings), vec!["/a/1.mkv", "/a/1.mkv"]);
}
