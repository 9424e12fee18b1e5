//! The configuration of a run: encode parameters, how stages are chained, and
//! what a failure means for the rest of the batch.

use vstd::prelude::*;
use vstd::string::*;
use crate::text::{ends_with, same_text, starts_with};

verus! {

/// A named frame rate that overrides the rate of the source.
#[derive(Clone, Copy, Debug, PartialEq, Eq, Structural)]
pub enum Framerate {
    /// 24000/1001 frames per second.
    NtscFilm,
    /// 30000/1001 frames per second.
    Ntsc,
    /// 25 frames per second.
    Pal,
    /// 24 frames per second.
    Film,
}

impl Framerate {
    /// The frame rate that a profile keyword selects: a keyword that begins
    /// with `ntsc` selects one of the two NTSC rates, the film one if it ends
    /// in `-film`; `pal` selects PAL; anything else selects film.
    pub open spec fn of_keyword(keyword: Seq<char>) -> Framerate {
        if "ntsc"@.is_prefix_of(keyword) {
            if "-film"@.is_suffix_of(keyword) {
                Framerate::NtscFilm
            } else {
                Framerate::Ntsc
            }
        } else if keyword == "pal"@ {
            Framerate::Pal
        } else {
            Framerate::Film
        }
    }

    /// The rate as the ratio that the demultiplexer takes.
    pub open spec fn ratio_text(self) -> Seq<char> {
        match self {
            Framerate::NtscFilm => "24000/1001"@,
            Framerate::Ntsc => "30000/1001"@,
            Framerate::Pal => "25/1"@,
            Framerate::Film => "24/1"@,
        }
    }

    /// Selects the frame rate for a profile keyword.
    pub fn from_keyword(keyword: &str) -> (r: Framerate)
        ensures
            r == Framerate::of_keyword(keyword@),
    {
        if starts_with(keyword, "ntsc") {
            if ends_with(keyword, "-film") {
                Framerate::NtscFilm
            } else {
                Framerate::Ntsc
            }
        } else if same_text(keyword, "pal") {
            Framerate::Pal
        } else {
            Framerate::Film
        }
    }

    /// The rate as the ratio that the demultiplexer takes.
    pub fn ratio(self) -> (r: &'static str)
        ensures
            r@ == self.ratio_text(),
    {
        match self {
            Framerate::NtscFilm => "24000/1001",
            Framerate::Ntsc => "30000/1001",
            Framerate::Pal => "25/1",
            Framerate::Film => "24/1",
        }
    }
}

/// How the two processes of a demultiplex-and-encode stage are chained.
#[derive(Clone, Copy, Debug, PartialEq, Eq, Structural)]
pub enum Realization {
    /// The demultiplexer writes to a pipe that the encoder reads.
    Piped,
    /// The demultiplexer writes a file, and the encoder reads it afterwards.
    FileBacked,
}

/// What the failure of one file means for the files after it.
#[derive(Clone, Copy, Debug, PartialEq, Eq, Structural)]
pub enum Continuation {
    /// Go on with the next file.
    BestEffort,
    /// Abort the whole run.
    FailFast,
}

impl Continuation {
    /// The continuation for a "continue on error" switch.
    pub fn from_flag(continue_on_error: bool) -> (r: Continuation)
        ensures
            r == if continue_on_error {
                Continuation::BestEffort
            } else {
                Continuation::FailFast
            },
    {
        if continue_on_error {
            Continuation::BestEffort
        } else {
            Continuation::FailFast
        }
    }
}

impl Default for Continuation {
    /// A batch is best-effort unless told otherwise.
    fn default() -> (r: Continuation)
        ensures
            r == Continuation::BestEffort,
    {
        Continuation::BestEffort
    }
}

/// Everything a run is configured with. The encode parameters are passed
/// through to the tools unexamined; the time limit is for the caller, who
/// does the waiting.
#[derive(Clone, Copy, Debug, PartialEq, Eq, Structural)]
pub struct PipelinePolicy {
    /// The encoder's speed preset.
    pub preset: u8,
    /// The encoder's rate-control value.
    pub rate: u8,
    /// A frame rate to force, if any.
    pub framerate: Option<Framerate>,
    /// Whether to encode only a short stretch of each input.
    pub trial: bool,
    /// How demultiplexer and encoder are chained.
    pub realization: Realization,
    /// What a failed file means for the batch.
    pub continuation: Continuation,
    /// How many seconds a process may run before the wait for it is given
    /// up and the process is killed; no limit where there is none.
    pub stage_limit: Option<u32>,
}

impl PipelinePolicy {
    /// The policy that a set of plain settings amounts to: the encode
    /// parameters as given, the frame rate that the profile keyword selects,
    /// if there is a keyword, and the two switches as what they stand for.
    pub open spec fn of_settings(
        preset: u8,
        rate: u8,
        profile: Option<Seq<char>>,
        trial: bool,
        file_backed: bool,
        continue_on_error: bool,
        stage_limit: Option<u32>,
    ) -> PipelinePolicy {
        PipelinePolicy {
            preset,
            rate,
            framerate: match profile {
                Some(keyword) => Some(Framerate::of_keyword(keyword)),
                None => None,
            },
            trial,
            realization: if file_backed {
                Realization::FileBacked
            } else {
                Realization::Piped
            },
            continuation: if continue_on_error {
                Continuation::BestEffort
            } else {
                Continuation::FailFast
            },
            stage_limit,
        }
    }

    /// Bundles plain settings into a policy.
    pub fn configure(
        preset: u8,
        rate: u8,
        profile: Option<&str>,
        trial: bool,
        file_backed: bool,
        continue_on_error: bool,
        stage_limit: Option<u32>,
    ) -> (policy: PipelinePolicy)
        ensures
            policy == PipelinePolicy::of_settings(
                preset,
                rate,
                match profile {
                    Some(keyword) => Some(keyword@),
                    None => None,
                },
                trial,
                file_backed,
                continue_on_error,
                stage_limit,
            ),
    {
        PipelinePolicy {
            preset,
            rate,
            framerate: match profile {
                Some(keyword) => Some(Framerate::from_keyword(keyword)),
                None => None,
            },
            trial,
            realization: if file_backed {
                Realization::FileBacked
            } else {
                Realization::Piped
            },
            continuation: Continuation::from_flag(continue_on_error),
            stage_limit,
        }
    }
}

/// The decimal digit for a value below ten.
pub open spec fn digit_text(d: nat) -> Seq<char> {
    if d == 0 {
        "0"@
    } else if d == 1 {
        "1"@
    } else if d == 2 {
        "2"@
    } else if d == 3 {
        "3"@
    } else if d == 4 {
        "4"@
    } else if d == 5 {
        "5"@
    } else if d == 6 {
        "6"@
    } else if d == 7 {
        "7"@
    } else if d == 8 {
        "8"@
    } else {
        "9"@
    }
}

/// The decimal numeral of `n`, without leading zeros.
pub open spec fn decimal_text(n: nat) -> Seq<char>
    decreases n,
{
    if n < 10 {
        digit_text(n)
    } else {
        decimal_text(n / 10) + digit_text(n % 10)
    }
}

fn digit(d: u8) -> (r: &'static str)
    requires
        d < 10,
    ensures
        r@ == digit_text(d as nat),
{
    if d == 0 {
        "0"
    } else if d == 1 {
        "1"
    } else if d == 2 {
        "2"
    } else if d == 3 {
        "3"
    } else if d == 4 {
        "4"
    } else if d == 5 {
        "5"
    } else if d == 6 {
        "6"
    } else if d == 7 {
        "7"
    } else if d == 8 {
        "8"
    } else {
        "9"
    }
}

/// Writes `n` as a decimal numeral.
pub fn decimal(n: u8) -> (r: String)
    ensures
        r@ == decimal_text(n as nat),
    decreases n,
{
    if n < 10 {
        String::from_str(digit(n))
    } else {
        decimal(n / 10).concat(digit(n % 10))
    }
}

} // verus!
