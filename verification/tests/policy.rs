use ffmpeg_driver::policy::{decimal, Continuation, Framerate, PipelinePolicy, Realization};

#[test]
fn the_four_profile_keywords() {
    assert_eq!(Framerate::from_keyword("ntsc-film"), Framerate::NtscFilm);
    assert_eq!(Framerate::from_keyword("ntsc"), Framerate::Ntsc);
    assert_eq!(Framerate::from_keyword("pal"), Framerate::Pal);
    assert_eq!(Framerate::from_keyword("film"), Framerate::Film);
}

#[test]
fn other_keywords_follow_the_same_tests() {
    assert_eq!(Framerate::from_keyword("ntsc-anything"), Framerate::Ntsc);
    assert_eq!(Framerate::from_keyword("ntsc-x-film"), Framerate::NtscFilm);
    assert_eq!(Framerate::from_keyword("-film"), Framerate::Film);
    assert_eq!(Framerate::from_keyword("pal-film"), Framerate::Film);
    assert_eq!(Framerate::from_keyword("PAL"), Framerate::Film);
    assert_eq!(Framerate::from_keyword(""), Framerate::Film);
}

#[test]
fn the_ratios() {
    assert_eq!(Framerate::NtscFilm.ratio(), "24000/1001");
    assert_eq!(Framerate::Ntsc.ratio(), "30000/1001");
    assert_eq!(Framerate::Pal.ratio(), "25/1");
    assert_eq!(Framerate::Film.ratio(), "24/1");
}

#[test]
fn decimal_numerals() {
    assert_eq!(decimal(0), "0");
    assert_eq!(decimal(5), "5");
    assert_eq!(decimal(9), "9");
    assert_eq!(decimal(10), "10");
    assert_eq!(decimal(13), "13");
    assert_eq!(decimal(38), "38");
    assert_eq!(decimal(63), "63");
    assert_eq!(decimal(100), "100");
    assert_eq!(decimal(109), "109");
    assert_eq!(decimal(255), "255");
}

#[test]
fn decimal_agrees_with_the_standard_rendering() {
    for n in 0..=255u8 {
        assert_eq!(decimal(n), n.to_string());
    }
}

#[test]
fn continuation_of_the_switch() {
    assert_eq!(Continuation::from_flag(true), Continuation::BestEffort);
    assert_eq!(Continuation::from_flag(false), Continuation::FailFast);
}

#[test]
fn a_batch_is_best_effort_by_default() {
    assert_eq!(Continuation::default(), Continuation::BestEffort);
}

#[test]
fn settings_become_a_policy() {
    assert_eq!(
        PipelinePolicy::configure(5, 38, Some("ntsc-film"), true, false, true, None),
        PipelinePolicy {
            preset: 5,
            rate: 38,
            framerate: Some(Framerate::NtscFilm),
            trial: true,
            realization: Realization::Piped,
            continuation: Continuation::BestEffort,
            stage_limit: None,
        }
    );
    assert_eq!(
        PipelinePolicy::configure(13, 63, None, false, true, false, Some(3600)),
        PipelinePolicy {
            preset: 13,
            rate: 63,
            framerate: None,
            trial: false,
            realization: Realization::FileBacked,
            continuation: Continuation::FailFast,
            stage_limit: Some(3600),
        }
    );
}
