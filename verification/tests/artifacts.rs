use ffmpeg_driver::artifacts::{ArtifactSet, MediaFile};

fn media(path: &str) -> MediaFile {
    MediaFile::new(path.to_string()).unwrap()
}

fn all_paths(set: &ArtifactSet) -> Vec<String> {
    vec![
        set.audio().to_string(),
        set.chapters().to_string(),
        set.stats().to_string(),
        set.bitstream().to_string(),
        set.output().to_string(),
        set.raw_audio().to_string(),
        set.raw_video().to_string(),
    ]
}

fn directory_of(path: &str) -> &str {
    match path.rfind('/') {
        Some(i) => &path[..i + 1],
        None => "",
    }
}

#[test]
fn media_file_takes_the_input_extension_only() {
    assert!(MediaFile::new("/videos/movie.mkv".to_string()).is_some());
    assert!(MediaFile::new("movie.mkv".to_string()).is_some());
    assert!(MediaFile::new("/videos/a.b.mkv".to_string()).is_some());
    assert!(MediaFile::new("/videos/movie.MKV".to_string()).is_none());
    assert!(MediaFile::new("/videos/movie.Mkv".to_string()).is_none());
    assert!(MediaFile::new("/videos/movie.mp4".to_string()).is_none());
    assert!(MediaFile::new("/videos/movie".to_string()).is_none());
    assert!(MediaFile::new("/videos/.mkv".to_string()).is_none());
    assert!(MediaFile::new("/videos/mkv".to_string()).is_none());
    assert!(MediaFile::new("/videos.mkv/movie".to_string()).is_none());
    assert!(MediaFile::new("".to_string()).is_none());
}

#[test]
fn media_file_keeps_its_path() {
    assert_eq!(media("/videos/movie.mkv").path(), "/videos/movie.mkv");
}

#[test]
fn artifacts_replace_the_extension() {
    let set = ArtifactSet::derive(&media("/videos/movie.mkv"));
    assert_eq!(set.audio(), "/videos/movie.opus");
    assert_eq!(set.chapters(), "/videos/movie.xml");
    assert_eq!(set.stats(), "/videos/movie.stats");
    assert_eq!(set.bitstream(), "/videos/movie.ivf");
    assert_eq!(set.raw_audio(), "/videos/movie.wav");
    assert_eq!(set.raw_video(), "/videos/movie.y4m");
}

#[test]
fn output_appends_a_suffix_to_the_stem() {
    let set = ArtifactSet::derive(&media("/videos/movie.mkv"));
    assert_eq!(set.output(), "/videos/movie-out.mkv");
}

#[test]
fn artifacts_of_a_name_with_several_dots_keep_all_but_the_last() {
    let set = ArtifactSet::derive(&media("/videos/show.s01e02.mkv"));
    assert_eq!(set.audio(), "/videos/show.s01e02.opus");
    assert_eq!(set.output(), "/videos/show.s01e02-out.mkv");
}

#[test]
fn artifacts_of_a_bare_file_name_have_no_directory() {
    let set = ArtifactSet::derive(&media("movie.mkv"));
    assert_eq!(set.audio(), "movie.opus");
    assert_eq!(set.output(), "movie-out.mkv");
}

#[test]
fn artifacts_of_a_name_beyond_ascii() {
    let set = ArtifactSet::derive(&media("/vidéos/été.mkv"));
    assert_eq!(set.audio(), "/vidéos/été.opus");
    assert_eq!(set.stats(), "/vidéos/été.stats");
    assert_eq!(set.output(), "/vidéos/été-out.mkv");
}

#[test]
fn artifacts_are_distinct_siblings_of_the_input() {
    for input in [
        "/videos/movie.mkv",
        "movie.mkv",
        "/a.b/c.d.mkv",
        "/videos/-out.mkv",
        "/videos/x-out.mkv",
        "/videos/..mkv",
        "/videos/.opus.mkv",
    ] {
        let set = ArtifactSet::derive(&media(input));
        let all = all_paths(&set);
        assert_eq!(all.len(), 7);
        for (i, a) in all.iter().enumerate() {
            assert_ne!(a, input);
            assert_eq!(directory_of(a), directory_of(input));
            for b in &all[i + 1..] {
                assert_ne!(a, b);
            }
        }
    }
}

#[test]
fn deriving_twice_gives_the_same_names() {
    let first = ArtifactSet::derive(&media("/videos/movie.mkv"));
    let second = ArtifactSet::derive(&media("/videos/movie.mkv"));
    assert_eq!(first, second);
}

#[test]
fn the_output_of_an_input_is_itself_an_input() {
    let set = ArtifactSet::derive(&media("/videos/movie.mkv"));
    assert!(MediaFile::new(set.output().to_string()).is_some());
    assert!(MediaFile::new(set.audio().to_string()).is_none());
}

#[test]
fn artifacts_of_different_inputs_share_no_path() {
    let inputs = [
        "/videos/movie.mkv",
        "/videos/movie-out.mkv",
        "/videos/movie.opus.mkv",
        "/videos/movie.stats.mkv",
        "/videos/movi.mkv",
        "/other/movie.mkv",
    ];
    for (i, one) in inputs.iter().enumerate() {
        for other in &inputs[i + 1..] {
            let a = all_paths(&ArtifactSet::derive(&media(one)));
            let b = all_paths(&ArtifactSet::derive(&media(other)));
            for path in &a {
                assert!(!b.contains(path));
            }
        }
    }
}

#[test]
fn the_output_of_one_input_may_be_another_input() {
    let set = ArtifactSet::derive(&media("/videos/movie.mkv"));
    assert_eq!(set.output(), media("/videos/movie-out.mkv").path());
}
