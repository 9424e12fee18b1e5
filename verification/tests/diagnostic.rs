use ffmpeg_driver::diagnostic::{failure_message, FailureCause, Stage};

#[test]
fn stage_names() {
    assert_eq!(Stage::AudioExtractAndEncode.name(), "Audio extraction and encoding");
    assert_eq!(Stage::VideoPassOneEncode.name(), "Video pass 1");
    assert_eq!(Stage::VideoPassTwoEncode.name(), "Video pass 2");
    assert_eq!(Stage::ChapterExtraction.name(), "Chapter extraction");
    assert_eq!(Stage::FinalMux.name(), "Final mux");
}

#[test]
fn causes_in_words() {
    assert_eq!(FailureCause::ExitStatus.words(), "the tool exited with a non-zero status");
    assert_eq!(FailureCause::Launch.words(), "the tool could not be run");
    assert_eq!(FailureCause::MissingStatistics.words(), "the first pass left no statistics");
    assert_eq!(FailureCause::TimedOut.words(), "the tool ran past its time and was killed");
}

#[test]
fn a_failure_message_names_stage_file_and_cause() {
    assert_eq!(
        failure_message(Stage::VideoPassOneEncode, FailureCause::ExitStatus, "/d/two.mkv"),
        "Video pass 1 failed for /d/two.mkv: the tool exited with a non-zero status"
    );
    assert_eq!(
        failure_message(Stage::FinalMux, FailureCause::Launch, "/d/é.mkv"),
        "Final mux failed for /d/é.mkv: the tool could not be run"
    );
}
