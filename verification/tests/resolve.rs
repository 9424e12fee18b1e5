use ffmpeg_driver::diagnostic::Diagnostic;
use ffmpeg_driver::resolve::{resolve, InputSet, PathProbe};

fn dir(path: &str) -> PathProbe {
    PathProbe::Directory(path.to_string())
}

fn file(path: &str) -> PathProbe {
    PathProbe::NotDirectory(path.to_string())
}

fn paths(set: &InputSet) -> Vec<String> {
    let mut out = Vec::new();
    let mut i = 0;
    while let Some(path) = set.get(i) {
        out.push(path.to_string());
        i += 1;
    }
    assert_eq!(i, set.len());
    assert_eq!(&out, set.paths());
    out
}

#[test]
fn no_arguments_give_an_empty_set() {
    let r = resolve(&vec![]);
    assert_eq!(r.directories.len(), 0);
    assert!(r.directories.get(0).is_none());
    assert!(r.diagnostics.is_empty());
}

#[test]
fn directories_are_kept_in_argument_order() {
    let r = resolve(&vec![dir("/c"), dir("/a"), dir("/b")]);
    assert_eq!(paths(&r.directories), vec!["/c", "/a", "/b"]);
    assert!(r.diagnostics.is_empty());
}

#[test]
fn duplicates_are_taken_once_where_they_first_appear() {
    let r = resolve(&vec![dir("/a"), dir("/b"), dir("/a"), dir("/c"), dir("/b"), dir("/a")]);
    assert_eq!(paths(&r.directories), vec!["/a", "/b", "/c"]);
    assert!(r.diagnostics.is_empty());
}

#[test]
fn unresolvable_arguments_are_skipped_with_a_message() {
    let r = resolve(&vec![PathProbe::Unresolvable, dir("/a"), PathProbe::Unresolvable]);
    assert_eq!(paths(&r.directories), vec!["/a"]);
    assert_eq!(
        r.diagnostics,
        vec![Diagnostic::Unresolvable { argument: 0 }, Diagnostic::Unresolvable { argument: 2 }]
    );
}

#[test]
fn what_is_no_directory_is_dropped_with_a_message() {
    let r = resolve(&vec![dir("/a"), file("/a/movie.mkv"), dir("/b")]);
    assert_eq!(paths(&r.directories), vec!["/a", "/b"]);
    assert_eq!(r.diagnostics, vec![Diagnostic::NotADirectory { argument: 1 }]);
}

#[test]
fn a_repeated_non_directory_is_reported_once() {
    let r = resolve(&vec![file("/f"), file("/f"), dir("/a"), file("/f")]);
    assert_eq!(paths(&r.directories), vec!["/a"]);
    assert_eq!(r.diagnostics, vec![Diagnostic::NotADirectory { argument: 0 }]);
}

#[test]
fn the_first_probe_of_a_path_decides() {
    let r = resolve(&vec![file("/x"), dir("/x"), dir("/y"), file("/y")]);
    assert_eq!(paths(&r.directories), vec!["/y"]);
    assert_eq!(r.diagnostics, vec![Diagnostic::NotADirectory { argument: 0 }]);
}

#[test]
fn duplicates_and_non_directories_together_leave_unique_directories() {
    let probes = vec![
        dir("/a"),
        PathProbe::Unresolvable,
        file("/f"),
        dir("/a"),
        dir("/b"),
        file("/f"),
        dir("/b"),
        file("/g"),
        dir("/c"),
    ];
    let r = resolve(&probes);
    let got = paths(&r.directories);
    assert_eq!(got, vec!["/a", "/b", "/c"]);
    for (i, p) in got.iter().enumerate() {
        assert!(!got[i + 1..].contains(p));
        assert!(probes.contains(&PathProbe::Directory(p.clone())));
        assert!(r.directories.contains(p));
    }
    assert!(!r.directories.contains("/f"));
    assert!(!r.directories.contains("/g"));
    assert_eq!(
        r.diagnostics,
        vec![
            Diagnostic::Unresolvable { argument: 1 },
            Diagnostic::NotADirectory { argument: 2 },
            Diagnostic::NotADirectory { argument: 7 },
        ]
    );
}

#[test]
fn paths_differ_by_a_single_character() {
    let r = resolve(&vec![dir("/a"), dir("/a/"), dir("/A"), dir("/a")]);
    assert_eq!(paths(&r.directories), vec!["/a", "/a/", "/A"]);
}
