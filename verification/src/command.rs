//! The external tools and the argument vectors they are launched with.
//!
//! An [`Invocation`] is one process to launch; a [`StagePlan`] is one stage:
//! a single process, or a producer whose standard output feeds a consumer.

use vstd::prelude::*;
use vstd::string::*;
use crate::artifacts::ArtifactNames;
use crate::artifacts::ArtifactSet;
use crate::policy::{decimal, decimal_text, Framerate, PipelinePolicy};

verus! {

/// Where a process reads its input from.
#[derive(Clone, Copy, Debug, PartialEq, Eq, Structural)]
pub enum InputSource {
    /// The process reads nothing.
    Nothing,
    /// The process reads a file that its arguments name.
    NamedFile,
    /// The process reads the standard output of the producer launched before it.
    Upstream,
}

/// Where a process writes its output to.
#[derive(Clone, Copy, Debug, PartialEq, Eq, Structural)]
pub enum OutputSink {
    /// The process writes to the console it inherits.
    Console,
    /// The process writes a file that its arguments name.
    NamedFile,
    /// The standard output is captured for the consumer launched next.
    Captured,
}

/// What becomes of the messages a process writes to standard error.
#[derive(Clone, Copy, Debug, PartialEq, Eq, Structural)]
pub enum ErrorSink {
    /// They go to the console.
    Console,
    /// They are discarded.
    Discarded,
}

/// One process to launch.
#[derive(Debug, PartialEq, Eq)]
pub struct Invocation {
    /// The name of the tool's binary.
    pub program: String,
    /// The arguments, in order.
    pub args: Vec<String>,
    /// The source of standard input.
    pub stdin: InputSource,
    /// The sink of standard output.
    pub stdout: OutputSink,
    /// The sink of standard error.
    pub stderr: ErrorSink,
}

/// An [`Invocation`] as plain values.
pub struct InvocationView {
    pub program: Seq<char>,
    pub args: Seq<Seq<char>>,
    pub stdin: InputSource,
    pub stdout: OutputSink,
    pub stderr: ErrorSink,
}

impl View for Invocation {
    type V = InvocationView;

    open spec fn view(&self) -> InvocationView {
        InvocationView {
            program: self.program@,
            args: self.args.deep_view(),
            stdin: self.stdin,
            stdout: self.stdout,
            stderr: self.stderr,
        }
    }
}

/// The processes of one stage.
#[derive(Debug, PartialEq, Eq)]
pub enum StagePlan {
    /// One process, run to completion.
    Single(Invocation),
    /// Two processes that run side by side, the consumer reading what the
    /// producer writes.
    Piped { producer: Invocation, consumer: Invocation },
}

/// A [`StagePlan`] as plain values.
pub enum StagePlanView {
    Single(InvocationView),
    Piped { producer: InvocationView, consumer: InvocationView },
}

impl View for StagePlan {
    type V = StagePlanView;

    open spec fn view(&self) -> StagePlanView {
        match self {
            StagePlan::Single(only) => StagePlanView::Single(only@),
            StagePlan::Piped { producer, consumer } => StagePlanView::Piped {
                producer: producer@,
                consumer: consumer@,
            },
        }
    }
}

/// One of the two runs of the video encoder.
#[derive(Clone, Copy, Debug, PartialEq, Eq, Structural)]
pub enum Pass {
    /// The run that gathers statistics.
    One,
    /// The run that produces the bitstream from the statistics.
    Two,
}

impl Pass {
    /// The number of the pass as the encoder takes it.
    pub open spec fn text(self) -> Seq<char> {
        match self {
            Pass::One => "1"@,
            Pass::Two => "2"@,
        }
    }

    /// The number of the pass as the encoder takes it.
    pub fn number(self) -> (r: &'static str)
        ensures
            r@ == self.text(),
    {
        match self {
            Pass::One => "1",
            Pass::Two => "2",
        }
    }
}

/// The flags every demultiplexer run starts with.
pub open spec fn quiet_flags() -> Seq<Seq<char>> {
    seq!["-hide_banner"@, "-loglevel"@, "fatal"@, "-y"@, "-nostats"@]
}

/// The flags that cut a demultiplexer run short: present in trial mode, and
/// absent otherwise.
pub open spec fn trial_flags(trial: bool) -> Seq<Seq<char>> {
    if trial {
        seq!["-t"@, "120"@]
    } else {
        seq![]
    }
}

/// The flags that force a frame rate: present when one is configured.
pub open spec fn framerate_flags(framerate: Option<Framerate>) -> Seq<Seq<char>> {
    match framerate {
        Some(rate) => seq!["-r"@, rate.ratio_text()],
        None => seq![],
    }
}

/// The word that stands for "the pipe" in place of a file, or the file.
pub open spec fn target_text(target: Option<Seq<char>>, pipe_word: Seq<char>) -> Seq<char> {
    match target {
        Some(path) => path,
        None => pipe_word,
    }
}

/// The demultiplexer run that decodes the first audio track of `input`, to
/// the file `sink` or, where there is none, to standard output.
pub open spec fn audio_demux_call(
    policy: PipelinePolicy,
    input: Seq<char>,
    sink: Option<Seq<char>>,
) -> InvocationView {
    InvocationView {
        program: "ffmpeg"@,
        args: quiet_flags() + trial_flags(policy.trial) + seq![
            "-i"@,
            input,
            "-map"@,
            "0:a:0"@,
            "-acodec"@,
            "pcm_s24le"@,
            "-f"@,
            "wav"@,
            target_text(sink, "-"@),
        ],
        stdin: InputSource::Nothing,
        stdout: if sink is Some {
            OutputSink::NamedFile
        } else {
            OutputSink::Captured
        },
        stderr: ErrorSink::Discarded,
    }
}

/// The encoder run that turns decoded audio, from the file `source` or,
/// where there is none, from standard input, into the audio artifact.
pub open spec fn audio_encode_call(source: Option<Seq<char>>, audio: Seq<char>) -> InvocationView {
    InvocationView {
        program: "opusenc"@,
        args: seq!["--bitrate"@, "192"@, "--vbr"@, target_text(source, "-"@), audio],
        stdin: if source is Some {
            InputSource::NamedFile
        } else {
            InputSource::Upstream
        },
        stdout: OutputSink::NamedFile,
        stderr: ErrorSink::Console,
    }
}

/// The demultiplexer run that decodes the first video track of `input`, to
/// the file `sink` or, where there is none, to standard output. The flags
/// that force a frame rate come last, after the sink.
pub open spec fn video_demux_call(
    policy: PipelinePolicy,
    input: Seq<char>,
    sink: Option<Seq<char>>,
) -> InvocationView {
    InvocationView {
        program: "ffmpeg"@,
        args: quiet_flags() + trial_flags(policy.trial) + seq![
            "-i"@,
            input,
            "-map"@,
            "0:v:0"@,
            "-pix_fmt"@,
            "yuv420p10le"@,
            "-f"@,
            "yuv4mpegpipe"@,
            "-strict"@,
            "-1"@,
            target_text(sink, "-"@),
        ] + framerate_flags(policy.framerate),
        stdin: InputSource::Nothing,
        stdout: if sink is Some {
            OutputSink::NamedFile
        } else {
            OutputSink::Captured
        },
        stderr: ErrorSink::Discarded,
    }
}

/// One pass of the video encoder over decoded video, from the file `source`
/// or, where there is none, from standard input.
pub open spec fn video_encode_call(
    policy: PipelinePolicy,
    pass: Pass,
    source: Option<Seq<char>>,
    bitstream: Seq<char>,
    stats: Seq<char>,
) -> InvocationView {
    InvocationView {
        program: "SvtAv1EncApp"@,
        args: seq![
            "-i"@,
            target_text(source, "stdin"@),
            "--lookahead"@,
            "120"@,
            "--progress"@,
            "2"@,
            "--scd"@,
            "1"@,
            "-b"@,
            bitstream,
            "--pass"@,
            pass.text(),
            "--stats"@,
            stats,
            "--preset"@,
            decimal_text(policy.preset as nat),
            "--crf"@,
            decimal_text(policy.rate as nat),
        ],
        stdin: if source is Some {
            InputSource::NamedFile
        } else {
            InputSource::Upstream
        },
        stdout: OutputSink::NamedFile,
        stderr: ErrorSink::Console,
    }
}

/// The run that extracts the chapter markup of `input`.
pub open spec fn chapter_call(input: Seq<char>, chapters: Seq<char>) -> InvocationView {
    InvocationView {
        program: "mkvextract"@,
        args: seq![input, "chapters"@, chapters],
        stdin: InputSource::NamedFile,
        stdout: OutputSink::NamedFile,
        stderr: ErrorSink::Console,
    }
}

/// The chapter flag and its file, if the input has chapters; nothing otherwise.
pub open spec fn chapter_flags(names: ArtifactNames, with_chapters: bool) -> Seq<Seq<char>> {
    if with_chapters {
        seq!["--chapters"@, names.chapters]
    } else {
        seq![]
    }
}

/// The run that combines bitstream, audio and, if the input has them,
/// chapters into the final container.
pub open spec fn mux_call(names: ArtifactNames, with_chapters: bool) -> InvocationView {
    InvocationView {
        program: "mkvmerge"@,
        args: seq![names.bitstream, names.audio, "-o"@, names.output] + chapter_flags(
            names,
            with_chapters,
        ),
        stdin: InputSource::NamedFile,
        stdout: OutputSink::NamedFile,
        stderr: ErrorSink::Console,
    }
}

/// Appends a copy of `text` to `args`.
pub(crate) fn push_text(args: &mut Vec<String>, text: &str)
    ensures
        final(args).deep_view() == old(args).deep_view().push(text@),
{
    args.push(String::from_str(text));
    assert(args.deep_view() =~= old(args).deep_view().push(text@));
}

fn demux_prefix(policy: &PipelinePolicy) -> (args: Vec<String>)
    ensures
        args.deep_view() == quiet_flags() + trial_flags(policy.trial),
{
    let mut args: Vec<String> = Vec::new();
    push_text(&mut args, "-hide_banner");
    push_text(&mut args, "-loglevel");
    push_text(&mut args, "fatal");
    push_text(&mut args, "-y");
    push_text(&mut args, "-nostats");
    if policy.trial {
        push_text(&mut args, "-t");
        push_text(&mut args, "120");
    }
    assert(args.deep_view() =~= quiet_flags() + trial_flags(policy.trial));
    args
}

/// Builds the demultiplexer run for the audio track.
pub fn audio_demux(policy: &PipelinePolicy, input: &str, sink: Option<&str>) -> (r: Invocation)
    ensures
        r@ == audio_demux_call(
            *policy,
            input@,
            match sink {
                Some(path) => Some(path@),
                None => None,
            },
        ),
{
    let mut args = demux_prefix(policy);
    push_text(&mut args, "-i");
    push_text(&mut args, input);
    push_text(&mut args, "-map");
    push_text(&mut args, "0:a:0");
    push_text(&mut args, "-acodec");
    push_text(&mut args, "pcm_s24le");
    push_text(&mut args, "-f");
    push_text(&mut args, "wav");
    let stdout = match sink {
        Some(path) => {
            push_text(&mut args, path);
            OutputSink::NamedFile
        },
        None => {
            push_text(&mut args, "-");
            OutputSink::Captured
        },
    };
    let r = Invocation {
        program: String::from_str("ffmpeg"),
        args,
        stdin: InputSource::Nothing,
        stdout,
        stderr: ErrorSink::Discarded,
    };
    assert(r@.args =~= audio_demux_call(
        *policy,
        input@,
        match sink {
            Some(path) => Some(path@),
            None => None,
        },
    ).args);
    r
}

/// Builds the encoder run for the audio track.
pub fn audio_encode(source: Option<&str>, audio: &str) -> (r: Invocation)
    ensures
        r@ == audio_encode_call(
            match source {
                Some(path) => Some(path@),
                None => None,
            },
            audio@,
        ),
{
    let mut args: Vec<String> = Vec::new();
    push_text(&mut args, "--bitrate");
    push_text(&mut args, "192");
    push_text(&mut args, "--vbr");
    let stdin = match source {
        Some(path) => {
            push_text(&mut args, path);
            InputSource::NamedFile
        },
        None => {
            push_text(&mut args, "-");
            InputSource::Upstream
        },
    };
    push_text(&mut args, audio);
    let r = Invocation {
        program: String::from_str("opusenc"),
        args,
        stdin,
        stdout: OutputSink::NamedFile,
        stderr: ErrorSink::Console,
    };
    assert(r@.args =~= audio_encode_call(
        match source {
            Some(path) => Some(path@),
            None => None,
        },
        audio@,
    ).args);
    r
}

/// Builds the demultiplexer run for the video track.
pub fn video_demux(policy: &PipelinePolicy, input: &str, sink: Option<&str>) -> (r: Invocation)
    ensures
        r@ == video_demux_call(
            *policy,
            input@,
            match sink {
                Some(path) => Some(path@),
                None => None,
            },
        ),
{
    let mut args = demux_prefix(policy);
    push_text(&mut args, "-i");
    push_text(&mut args, input);
    push_text(&mut args, "-map");
    push_text(&mut args, "0:v:0");
    push_text(&mut args, "-pix_fmt");
    push_text(&mut args, "yuv420p10le");
    push_text(&mut args, "-f");
    push_text(&mut args, "yuv4mpegpipe");
    push_text(&mut args, "-strict");
    push_text(&mut args, "-1");
    let stdout = match sink {
        Some(path) => {
            push_text(&mut args, path);
            OutputSink::NamedFile
        },
        None => {
            push_text(&mut args, "-");
            OutputSink::Captured
        },
    };
    match policy.framerate {
        Some(rate) => {
            push_text(&mut args, "-r");
            push_text(&mut args, rate.ratio());
        },
        None => {},
    }
    let r = Invocation {
        program: String::from_str("ffmpeg"),
        args,
        stdin: InputSource::Nothing,
        stdout,
        stderr: ErrorSink::Discarded,
    };
    assert(r@.args =~= video_demux_call(
        *policy,
        input@,
        match sink {
            Some(path) => Some(path@),
            None => None,
        },
    ).args);
    r
}

/// Builds one pass of the video encoder.
pub fn video_encode(
    policy: &PipelinePolicy,
    pass: Pass,
    source: Option<&str>,
    bitstream: &str,
    stats: &str,
) -> (r: Invocation)
    ensures
        r@ == video_encode_call(
            *policy,
            pass,
            match source {
                Some(path) => Some(path@),
                None => None,
            },
            bitstream@,
            stats@,
        ),
{
    let mut args: Vec<String> = Vec::new();
    push_text(&mut args, "-i");
    let stdin = match source {
        Some(path) => {
            push_text(&mut args, path);
            InputSource::NamedFile
        },
        None => {
            push_text(&mut args, "stdin");
            InputSource::Upstream
        },
    };
    push_text(&mut args, "--lookahead");
    push_text(&mut args, "120");
    push_text(&mut args, "--progress");
    push_text(&mut args, "2");
    push_text(&mut args, "--scd");
    push_text(&mut args, "1");
    push_text(&mut args, "-b");
    push_text(&mut args, bitstream);
    push_text(&mut args, "--pass");
    push_text(&mut args, pass.number());
    push_text(&mut args, "--stats");
    push_text(&mut args, stats);
    push_text(&mut args, "--preset");
    let preset = decimal(policy.preset);
    push_text(&mut args, preset.as_str());
    push_text(&mut args, "--crf");
    let rate = decimal(policy.rate);
    push_text(&mut args, rate.as_str());
    let r = Invocation {
        program: String::from_str("SvtAv1EncApp"),
        args,
        stdin,
        stdout: OutputSink::NamedFile,
        stderr: ErrorSink::Console,
    };
    assert(r@.args =~= video_encode_call(
        *policy,
        pass,
        match source {
            Some(path) => Some(path@),
            None => None,
        },
        bitstream@,
        stats@,
    ).args);
    r
}

/// Builds the run that extracts the chapter markup.
pub fn chapter_extract(input: &str, chapters: &str) -> (r: Invocation)
    ensures
        r@ == chapter_call(input@, chapters@),
{
    let mut args: Vec<String> = Vec::new();
    push_text(&mut args, input);
    push_text(&mut args, "chapters");
    push_text(&mut args, chapters);
    let r = Invocation {
        program: String::from_str("mkvextract"),
        args,
        stdin: InputSource::NamedFile,
        stdout: OutputSink::NamedFile,
        stderr: ErrorSink::Console,
    };
    assert(r@.args =~= chapter_call(input@, chapters@).args);
    r
}

/// Builds the run that writes the final container. The chapter flag and its
/// file are passed exactly when `with_chapters` is set.
pub fn mux(artifacts: &ArtifactSet, with_chapters: bool) -> (r: Invocation)
    ensures
        r@ == mux_call(artifacts@, with_chapters),
{
    let mut args: Vec<String> = Vec::new();
    push_text(&mut args, artifacts.bitstream());
    push_text(&mut args, artifacts.audio());
    push_text(&mut args, "-o");
    push_text(&mut args, artifacts.output());
    if with_chapters {
        push_text(&mut args, "--chapters");
        push_text(&mut args, artifacts.chapters());
    }
    let r = Invocation {
        program: String::from_str("mkvmerge"),
        args,
        stdin: InputSource::NamedFile,
        stdout: OutputSink::NamedFile,
        stderr: ErrorSink::Console,
    };
    assert(r@.args =~= mux_call(artifacts@, with_chapters).args);
    r
}

} // verus!
