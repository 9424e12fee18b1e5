use ffmpeg_driver::path::{extension_start, find_last, has_extension_named};
use ffmpeg_driver::text::{ends_with, same_text, starts_with};

#[test]
fn same_text_compares_every_character() {
    assert!(same_text("", ""));
    assert!(same_text("mkv", "mkv"));
    assert!(!same_text("mkv", "mkV"));
    assert!(!same_text("mkv", "mk"));
    assert!(!same_text("mk", "mkv"));
    assert!(same_text("übung", "übung"));
}

#[test]
fn starts_with_and_ends_with_agree_with_the_text() {
    assert!(starts_with("ntsc-film", "ntsc"));
    assert!(starts_with("ntsc", "ntsc"));
    assert!(!starts_with("nts", "ntsc"));
    assert!(starts_with("anything", ""));
    assert!(ends_with("ntsc-film", "-film"));
    assert!(!ends_with("film", "-film"));
    assert!(ends_with("x", ""));
    assert!(!ends_with("ntsc-films", "-film"));
}

#[test]
fn find_last_gives_the_last_position() {
    assert_eq!(find_last("/a/b/c", '/'), Some(4));
    assert_eq!(find_last("abc", '/'), None);
    assert_eq!(find_last("", '/'), None);
    assert_eq!(find_last("a.b.c", '.'), Some(3));
    assert_eq!(find_last("/", '/'), Some(0));
}

#[test]
fn find_last_counts_characters_not_bytes() {
    assert_eq!(find_last("/é/ü.mkv", '.'), Some(4));
    assert_eq!(find_last("/é/ü.mkv", '/'), Some(2));
}

#[test]
fn extension_is_the_text_after_the_last_dot_of_the_name() {
    assert_eq!(extension_start("/videos/movie.mkv"), Some(14));
    assert_eq!(extension_start("movie.mkv"), Some(6));
    assert_eq!(extension_start("a.b.mkv"), Some(4));
    assert_eq!(extension_start("/videos/movie"), None);
    assert_eq!(extension_start("/videos.d/movie"), None);
    assert_eq!(extension_start("/videos/.mkv"), None);
    assert_eq!(extension_start(".mkv"), None);
    assert_eq!(extension_start("/videos/.."), None);
    assert_eq!(extension_start(".."), None);
    assert_eq!(extension_start("/videos/..mkv"), Some(10));
    assert_eq!(extension_start("/videos/movie."), Some(14));
    assert_eq!(extension_start(""), None);
    assert_eq!(extension_start("/videos/"), None);
}

#[test]
fn extension_names_are_compared_with_case() {
    assert!(has_extension_named("/videos/movie.mkv", "mkv"));
    assert!(!has_extension_named("/videos/movie.MKV", "mkv"));
    assert!(!has_extension_named("/videos/movie.mkv", "MKV"));
    assert!(!has_extension_named("/videos/movie.mkv2", "mkv"));
    assert!(!has_extension_named("/videos/movie.xmkv", "mkv"));
    assert!(!has_extension_named("/videos/mkv", "mkv"));
    assert!(!has_extension_named("/videos/.mkv", "mkv"));
    assert!(has_extension_named("/videos/movie.", ""));
    assert!(!has_extension_named("/videos/movie", ""));
}
