//! What the library tells the user about entries it skipped and stages that
//! failed. A diagnostic is a value; printing it is the caller's business.

use vstd::prelude::*;
use vstd::string::*;

verus! {

/// The stages of one file's pipeline, in the order in which they run.
#[derive(Clone, Copy, Debug, PartialEq, Eq, Structural)]
pub enum Stage {
    /// The first audio track is decoded and encoded.
    AudioExtractAndEncode,
    /// The first video track is decoded and encoded once, for statistics.
    VideoPassOneEncode,
    /// The video is encoded again, from the statistics.
    VideoPassTwoEncode,
    /// The chapter markup is extracted, if the input has any.
    ChapterExtraction,
    /// Bitstream, audio and chapters are combined into the final container.
    FinalMux,
}

impl Stage {
    /// The name of the stage in messages.
    pub open spec fn name_text(self) -> Seq<char> {
        match self {
            Stage::AudioExtractAndEncode => "Audio extraction and encoding"@,
            Stage::VideoPassOneEncode => "Video pass 1"@,
            Stage::VideoPassTwoEncode => "Video pass 2"@,
            Stage::ChapterExtraction => "Chapter extraction"@,
            Stage::FinalMux => "Final mux"@,
        }
    }

    /// The name of the stage in messages.
    pub fn name(self) -> (r: &'static str)
        ensures
            r@ == self.name_text(),
    {
        match self {
            Stage::AudioExtractAndEncode => "Audio extraction and encoding",
            Stage::VideoPassOneEncode => "Video pass 1",
            Stage::VideoPassTwoEncode => "Video pass 2",
            Stage::ChapterExtraction => "Chapter extraction",
            Stage::FinalMux => "Final mux",
        }
    }
}

/// Why a stage counts as failed.
#[derive(Clone, Copy, Debug, PartialEq, Eq, Structural)]
pub enum FailureCause {
    /// A tool exited with a non-zero status.
    ExitStatus,
    /// A tool could not be launched or observed.
    Launch,
    /// The first video pass reported success but left no statistics.
    MissingStatistics,
    /// A tool ran past its time and was killed.
    TimedOut,
}

impl FailureCause {
    /// The cause in words.
    pub open spec fn text(self) -> Seq<char> {
        match self {
            FailureCause::ExitStatus => "the tool exited with a non-zero status"@,
            FailureCause::Launch => "the tool could not be run"@,
            FailureCause::MissingStatistics => "the first pass left no statistics"@,
            FailureCause::TimedOut => "the tool ran past its time and was killed"@,
        }
    }

    /// The cause in words.
    pub fn words(self) -> (r: &'static str)
        ensures
            r@ == self.text(),
    {
        match self {
            FailureCause::ExitStatus => "the tool exited with a non-zero status",
            FailureCause::Launch => "the tool could not be run",
            FailureCause::MissingStatistics => "the first pass left no statistics",
            FailureCause::TimedOut => "the tool ran past its time and was killed",
        }
    }
}

/// The message about a failed stage: it names the stage, the input file
/// and the cause.
pub open spec fn failure_text(stage: Stage, cause: FailureCause, input: Seq<char>) -> Seq<char> {
    stage.name_text() + " failed for "@ + input + ": "@ + cause.text()
}

/// Writes the message about a failed stage of the input file `input`.
pub fn failure_message(stage: Stage, cause: FailureCause, input: &str) -> (r: String)
    ensures
        r@ == failure_text(stage, cause, input@),
{
    String::from_str(stage.name()).concat(" failed for ").concat(input).concat(": ").concat(
        cause.words(),
    )
}

/// One message for the user.
#[derive(Clone, Copy, Debug, PartialEq, Eq, Structural)]
pub enum Diagnostic {
    /// The argument at this position could not be resolved to a path.
    Unresolvable { argument: usize },
    /// The argument at this position resolved to something that is no directory.
    NotADirectory { argument: usize },
    /// The directory at this position of the input set could not be listed.
    UnreadableDirectory { directory: usize },
    /// The entry at this position of a directory's listing could not be read.
    UnreadableEntry { directory: usize, entry: usize },
    /// A stage of the current file failed; cleanup follows.
    StageFailed { stage: Stage, cause: FailureCause },
}

} // verus!
