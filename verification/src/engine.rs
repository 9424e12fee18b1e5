//! The pipeline of one input file as a state machine.
//!
//! The engine never runs anything. It hands out a [`Directive`]: files to
//! remove, a message to show, and the stage to run next. The caller runs the
//! stage, looks for the artifact the directive asks about, and reports back;
//! the engine answers with the next directive, until the file is finished.

use vstd::prelude::*;
use vstd::string::*;
use crate::artifacts::{artifacts_of, is_media_path, ArtifactNames, ArtifactSet, MediaFile};
use crate::command::{
    audio_demux, audio_demux_call, audio_encode, audio_encode_call, chapter_call, chapter_extract,
    mux, mux_call, push_text, video_demux, video_demux_call, video_encode, video_encode_call, Pass,
    StagePlan, StagePlanView,
};
use crate::diagnostic::{Diagnostic, FailureCause, Stage};
use crate::policy::{PipelinePolicy, Realization};
use crate::runner::StageResult;

verus! {

/// One launch of the stage runner within a file's pipeline. With piped
/// stages the two demultiplexing steps do not occur: the demultiplexer runs
/// as the producer of the encoding step.
#[derive(Clone, Copy, Debug, PartialEq, Eq, Structural)]
pub enum Step {
    /// The audio track is decoded to a file.
    AudioDemux,
    /// The audio is encoded.
    AudioEncode,
    /// The video track is decoded to a file.
    VideoDemux,
    /// The video is encoded for statistics.
    PassOne,
    /// The video is encoded from the statistics.
    PassTwo,
    /// The chapter markup is extracted.
    Chapters,
    /// The final container is written.
    Mux,
}

impl Step {
    /// The stage that a step belongs to.
    pub open spec fn stage(self) -> Stage {
        match self {
            Step::AudioDemux => Stage::AudioExtractAndEncode,
            Step::AudioEncode => Stage::AudioExtractAndEncode,
            Step::VideoDemux => Stage::VideoPassOneEncode,
            Step::PassOne => Stage::VideoPassOneEncode,
            Step::PassTwo => Stage::VideoPassTwoEncode,
            Step::Chapters => Stage::ChapterExtraction,
            Step::Mux => Stage::FinalMux,
        }
    }

    /// The stage that this step belongs to.
    pub fn stage_of(self) -> (r: Stage)
        ensures
            r == self.stage(),
    {
        match self {
            Step::AudioDemux => Stage::AudioExtractAndEncode,
            Step::AudioEncode => Stage::AudioExtractAndEncode,
            Step::VideoDemux => Stage::VideoPassOneEncode,
            Step::PassOne => Stage::VideoPassOneEncode,
            Step::PassTwo => Stage::VideoPassTwoEncode,
            Step::Chapters => Stage::ChapterExtraction,
            Step::Mux => Stage::FinalMux,
        }
    }
}

/// How the pipeline of one file ended.
#[derive(Clone, Copy, Debug, PartialEq, Eq, Structural)]
pub enum FileOutcome {
    /// Every stage succeeded; the final output is the file's deliverable.
    Completed,
    /// A stage failed; the file's artifacts were cleaned up.
    Failed,
}

/// Where the pipeline of one file stands.
#[derive(Clone, Copy, Debug, PartialEq, Eq, Structural)]
pub enum Phase {
    /// The step has been handed out; its report is awaited.
    Running(Step),
    /// The pipeline has ended.
    Finished(FileOutcome),
}

/// What the caller found where a stage was to leave an artifact.
#[derive(Clone, Copy, Debug, PartialEq, Eq, Structural)]
pub enum Artifact {
    /// There is no such file.
    Absent,
    /// The file exists and holds nothing.
    Empty,
    /// The file exists and holds data.
    Filled,
}

impl Artifact {
    /// What a look at a path amounts to: a regular file of `size` bytes is
    /// `Empty` if it holds none and `Filled` otherwise; anything else, or
    /// nothing at all, is `Absent`.
    pub open spec fn of(is_file: bool, size: u64) -> Artifact {
        if !is_file {
            Artifact::Absent
        } else if size == 0 {
            Artifact::Empty
        } else {
            Artifact::Filled
        }
    }

    /// Classifies what was found at a path.
    pub fn found(is_file: bool, size: u64) -> (r: Artifact)
        ensures
            r == Artifact::of(is_file, size),
    {
        if !is_file {
            Artifact::Absent
        } else if size == 0 {
            Artifact::Empty
        } else {
            Artifact::Filled
        }
    }
}

/// The caller's report on the stage last handed out.
#[derive(Clone, Copy, Debug, PartialEq, Eq, Structural)]
pub struct Report {
    /// How the stage ended.
    pub result: StageResult,
    /// What was found at the path the directive asked about. Without such a
    /// path the value is not looked at.
    pub artifact: Artifact,
}

/// The state of the machine.
#[derive(Clone, Copy, Debug, PartialEq, Eq, Structural)]
pub struct Progress {
    /// Where the pipeline stands.
    pub phase: Phase,
    /// Whether chapter extraction left chapter markup. Set by that step, and
    /// read when the final container is written.
    pub chapters: bool,
}

/// What one file's pipeline works on, as plain values.
pub struct Job {
    pub policy: PipelinePolicy,
    pub input: Seq<char>,
    pub names: ArtifactNames,
}

/// A [`Next`] as plain values.
pub enum NextView {
    Run { step: Step, plan: StagePlanView, probe: Option<Seq<char>> },
    Finished(FileOutcome),
}

/// A [`Directive`] as plain values.
pub struct DirectiveView {
    pub diagnostic: Option<Diagnostic>,
    pub removals: Seq<Seq<char>>,
    pub next: NextView,
}

/// The step a pipeline begins with.
pub open spec fn first_step(realization: Realization) -> Step {
    match realization {
        Realization::Piped => Step::AudioEncode,
        Realization::FileBacked => Step::AudioDemux,
    }
}

/// The step that follows `step` once it has succeeded, if any does.
pub open spec fn successor(realization: Realization, step: Step) -> Option<Step> {
    match step {
        Step::AudioDemux => Some(Step::AudioEncode),
        Step::AudioEncode => match realization {
            Realization::Piped => Some(Step::PassOne),
            Realization::FileBacked => Some(Step::VideoDemux),
        },
        Step::VideoDemux => Some(Step::PassOne),
        Step::PassOne => Some(Step::PassTwo),
        Step::PassTwo => Some(Step::Chapters),
        Step::Chapters => Some(Step::Mux),
        Step::Mux => None,
    }
}

/// The processes of a step. `chapters` matters to the final step alone.
pub open spec fn plan_for(job: Job, step: Step, chapters: bool) -> StagePlanView {
    let names = job.names;
    let piped = job.policy.realization == Realization::Piped;
    match step {
        Step::AudioDemux => StagePlanView::Single(
            audio_demux_call(job.policy, job.input, Some(names.raw_audio)),
        ),
        Step::AudioEncode => if piped {
            StagePlanView::Piped {
                producer: audio_demux_call(job.policy, job.input, None),
                consumer: audio_encode_call(None, names.audio),
            }
        } else {
            StagePlanView::Single(audio_encode_call(Some(names.raw_audio), names.audio))
        },
        Step::VideoDemux => StagePlanView::Single(
            video_demux_call(job.policy, job.input, Some(names.raw_video)),
        ),
        Step::PassOne => encode_plan(job, Pass::One),
        Step::PassTwo => encode_plan(job, Pass::Two),
        Step::Chapters => StagePlanView::Single(chapter_call(job.input, names.chapters)),
        Step::Mux => StagePlanView::Single(mux_call(names, chapters)),
    }
}

/// The processes of one video pass: with piped stages the demultiplexer runs
/// anew as the producer of each pass; with file-backed stages the encoder
/// reads the decoded video that was written once.
pub open spec fn encode_plan(job: Job, pass: Pass) -> StagePlanView {
    let names = job.names;
    if job.policy.realization == Realization::Piped {
        StagePlanView::Piped {
            producer: video_demux_call(job.policy, job.input, None),
            consumer: video_encode_call(job.policy, pass, None, names.bitstream, names.stats),
        }
    } else {
        StagePlanView::Single(
            video_encode_call(
                job.policy,
                pass,
                Some(names.raw_video),
                names.bitstream,
                names.stats,
            ),
        )
    }
}

/// The artifact whose presence decides what follows a step, if one does.
pub open spec fn probe_for(job: Job, step: Step) -> Option<Seq<char>> {
    match step {
        Step::PassOne => Some(job.names.stats),
        Step::Chapters => Some(job.names.chapters),
        _ => None,
    }
}

/// The request to run `step`.
pub open spec fn run(job: Job, step: Step, chapters: bool) -> NextView {
    NextView::Run { step, plan: plan_for(job, step, chapters), probe: probe_for(job, step) }
}

/// Why a report on `step` means failure, if it does. A tool that could not
/// be run, or that ran past its time, fails any step. A non-zero exit fails
/// any step but chapter
/// extraction, where it may only mean that the input has no chapters. The
/// first video pass also fails when it leaves no statistics behind.
pub open spec fn failure(step: Step, report: Report) -> Option<FailureCause> {
    match report.result {
        StageResult::LaunchFailure => Some(FailureCause::Launch),
        StageResult::TimedOut => Some(FailureCause::TimedOut),
        StageResult::Failed => if step == Step::Chapters {
            None
        } else {
            Some(FailureCause::ExitStatus)
        },
        StageResult::Success => if step == Step::PassOne && report.artifact is Absent {
            Some(FailureCause::MissingStatistics)
        } else {
            None
        },
    }
}

/// The files that only file-backed stages write.
pub open spec fn scratch(job: Job) -> Seq<Seq<char>> {
    match job.policy.realization {
        Realization::Piped => seq![],
        Realization::FileBacked => seq![job.names.raw_audio, job.names.raw_video],
    }
}

/// Every artifact of the job but the final output.
pub open spec fn intermediates(job: Job) -> Seq<Seq<char>> {
    seq![job.names.audio, job.names.bitstream, job.names.stats, job.names.chapters] + scratch(job)
}

/// What is removed when `step` fails: every intermediate artifact, and the
/// final output too where the failed step is the one that writes it.
pub open spec fn cleanup(job: Job, step: Step) -> Seq<Seq<char>> {
    intermediates(job) + if step == Step::Mux {
        seq![job.names.output]
    } else {
        seq![]
    }
}

/// What is removed when `step` succeeds: the artifacts that no later step
/// reads. The first pass's bitstream goes at once, the statistics after the
/// second pass, and every intermediate artifact after the final step.
pub open spec fn leftovers(job: Job, step: Step) -> Seq<Seq<char>> {
    let file_backed = job.policy.realization == Realization::FileBacked;
    match step {
        Step::AudioDemux => seq![],
        Step::AudioEncode => if file_backed {
            seq![job.names.raw_audio]
        } else {
            seq![]
        },
        Step::VideoDemux => seq![],
        Step::PassOne => seq![job.names.bitstream],
        Step::PassTwo => if file_backed {
            seq![job.names.stats, job.names.raw_video]
        } else {
            seq![job.names.stats]
        },
        Step::Chapters => seq![],
        Step::Mux => intermediates(job),
    }
}

/// The state a pipeline begins in.
pub open spec fn opening_progress(job: Job) -> Progress {
    Progress { phase: Phase::Running(first_step(job.policy.realization)), chapters: false }
}

/// The directive a pipeline begins with.
pub open spec fn opening(job: Job) -> DirectiveView {
    DirectiveView {
        diagnostic: None,
        removals: seq![],
        next: run(job, first_step(job.policy.realization), false),
    }
}

/// The state that follows `progress` on `report`.
pub open spec fn next_progress(job: Job, progress: Progress, report: Report) -> Progress {
    match progress.phase {
        Phase::Finished(_) => progress,
        Phase::Running(step) => if failure(step, report) is Some {
            Progress { phase: Phase::Finished(FileOutcome::Failed), chapters: progress.chapters }
        } else {
            Progress {
                phase: match successor(job.policy.realization, step) {
                    Some(following) => Phase::Running(following),
                    None => Phase::Finished(FileOutcome::Completed),
                },
                chapters: if step == Step::Chapters {
                    report.artifact is Filled
                } else {
                    progress.chapters
                },
            }
        },
    }
}

/// The directive that answers `report` in the state `progress`. A failed
/// step is answered with a message that names its stage, the cleanup, and
/// the end of the file. A step that succeeded is answered with the removal
/// of what is no longer needed and the step that follows. A finished
/// pipeline stays finished.
pub open spec fn directive_for(job: Job, progress: Progress, report: Report) -> DirectiveView {
    let after = next_progress(job, progress, report);
    match progress.phase {
        Phase::Finished(outcome) => DirectiveView {
            diagnostic: None,
            removals: seq![],
            next: NextView::Finished(outcome),
        },
        Phase::Running(step) => match failure(step, report) {
            Some(cause) => DirectiveView {
                diagnostic: Some(Diagnostic::StageFailed { stage: step.stage(), cause }),
                removals: cleanup(job, step),
                next: NextView::Finished(FileOutcome::Failed),
            },
            None => DirectiveView {
                diagnostic: None,
                removals: leftovers(job, step),
                next: match after.phase {
                    Phase::Running(following) => run(job, following, after.chapters),
                    Phase::Finished(outcome) => NextView::Finished(outcome),
                },
            },
        },
    }
}

/// What the caller is to do after the removals of a directive.
#[derive(Debug, PartialEq, Eq)]
pub enum Next {
    /// Run the processes of `plan`; then report how the stage ended and, if
    /// `probe` names a file, what was found there.
    Run { step: Step, plan: StagePlan, probe: Option<String> },
    /// Nothing more: the file is finished.
    Finished(FileOutcome),
}

impl View for Next {
    type V = NextView;

    open spec fn view(&self) -> NextView {
        match self {
            Next::Run { step, plan, probe } => NextView::Run {
                step: *step,
                plan: plan@,
                probe: match probe {
                    Some(path) => Some(path@),
                    None => None,
                },
            },
            Next::Finished(outcome) => NextView::Finished(*outcome),
        }
    }
}

/// One answer of the engine. The caller shows the diagnostic, if there is
/// one, then removes the files, then does what `next` says.
#[derive(Debug, PartialEq, Eq)]
pub struct Directive {
    /// A message for the user, shown before anything is removed.
    pub diagnostic: Option<Diagnostic>,
    /// The files to remove. A file that is not there is no error.
    pub removals: Vec<String>,
    /// What to do then.
    pub next: Next,
}

impl View for Directive {
    type V = DirectiveView;

    open spec fn view(&self) -> DirectiveView {
        DirectiveView {
            diagnostic: self.diagnostic,
            removals: self.removals.deep_view(),
            next: self.next@,
        }
    }
}

/// The pipeline of one input file.
#[derive(Debug)]
pub struct PipelineEngine {
    policy: PipelinePolicy,
    media: MediaFile,
    artifacts: ArtifactSet,
    progress: Progress,
}

impl PipelineEngine {
    #[verifier::type_invariant]
    spec fn well_formed(self) -> bool {
        &&& is_media_path(self.media@)
        &&& self.artifacts@ == artifacts_of(self.media@)
    }

    /// What the engine works on.
    pub closed spec fn job(self) -> Job {
        Job { policy: self.policy, input: self.media@, names: self.artifacts@ }
    }

    /// The state of the machine.
    pub closed spec fn state(self) -> Progress {
        self.progress
    }

    /// Sets up the pipeline of `media`: derives its artifact paths and hands
    /// out the first directive.
    pub fn new(policy: PipelinePolicy, media: MediaFile) -> (r: (PipelineEngine, Directive))
        ensures
            is_media_path(media@),
            r.0.job() == (Job { policy, input: media@, names: artifacts_of(media@) }),
            r.0.state() == opening_progress(r.0.job()),
            r.1@ == opening(r.0.job()),
    {
        let artifacts = ArtifactSet::derive(&media);
        let first = match policy.realization {
            Realization::Piped => Step::AudioEncode,
            Realization::FileBacked => Step::AudioDemux,
        };
        let engine = PipelineEngine {
            policy,
            media,
            artifacts,
            progress: Progress { phase: Phase::Running(first), chapters: false },
        };
        let next = engine.request(first, false);
        let removals: Vec<String> = Vec::new();
        assert(removals.deep_view() =~= Seq::<Seq<char>>::empty());
        (engine, Directive { diagnostic: None, removals, next })
    }

    /// The input file.
    pub fn media(&self) -> (r: &MediaFile)
        ensures
            r@ == self.job().input,
            is_media_path(r@),
    {
        proof {
            use_type_invariant(self);
        }
        &self.media
    }

    /// The artifact paths of the input file.
    pub fn artifacts(&self) -> (r: &ArtifactSet)
        ensures
            r@ == self.job().names,
            r@ == artifacts_of(self.job().input),
    {
        proof {
            use_type_invariant(self);
        }
        &self.artifacts
    }

    /// The configuration of the run.
    pub fn policy(&self) -> (r: PipelinePolicy)
        ensures
            r == self.job().policy,
    {
        self.policy
    }

    /// The state of the machine.
    pub fn progress(&self) -> (r: Progress)
        ensures
            r == self.state(),
    {
        self.progress
    }

    /// The outcome of the file, once the pipeline has ended.
    pub fn outcome(&self) -> (r: Option<FileOutcome>)
        ensures
            r == match self.state().phase {
                Phase::Finished(outcome) => Some(outcome),
                Phase::Running(_) => None,
            },
    {
        match self.progress.phase {
            Phase::Finished(outcome) => Some(outcome),
            Phase::Running(_) => None,
        }
    }

    fn plan(&self, step: Step, chapters: bool) -> (r: StagePlan)
        ensures
            r@ == plan_for(self.job(), step, chapters),
    {
        let input = self.media.path();
        let a = &self.artifacts;
        let piped = match self.policy.realization {
            Realization::Piped => true,
            Realization::FileBacked => false,
        };
        match step {
            Step::AudioDemux => StagePlan::Single(
                audio_demux(&self.policy, input, Some(a.raw_audio())),
            ),
            Step::AudioEncode => if piped {
                StagePlan::Piped {
                    producer: audio_demux(&self.policy, input, None),
                    consumer: audio_encode(None, a.audio()),
                }
            } else {
                StagePlan::Single(audio_encode(Some(a.raw_audio()), a.audio()))
            },
            Step::VideoDemux => StagePlan::Single(
                video_demux(&self.policy, input, Some(a.raw_video())),
            ),
            Step::PassOne => self.encode(Pass::One),
            Step::PassTwo => self.encode(Pass::Two),
            Step::Chapters => StagePlan::Single(chapter_extract(input, a.chapters())),
            Step::Mux => StagePlan::Single(mux(a, chapters)),
        }
    }

    fn encode(&self, pass: Pass) -> (r: StagePlan)
        ensures
            r@ == encode_plan(self.job(), pass),
    {
        let input = self.media.path();
        let a = &self.artifacts;
        match self.policy.realization {
            Realization::Piped => StagePlan::Piped {
                producer: video_demux(&self.policy, input, None),
                consumer: video_encode(&self.policy, pass, None, a.bitstream(), a.stats()),
            },
            Realization::FileBacked => StagePlan::Single(
                video_encode(&self.policy, pass, Some(a.raw_video()), a.bitstream(), a.stats()),
            ),
        }
    }

    fn request(&self, step: Step, chapters: bool) -> (r: Next)
        ensures
            r@ == run(self.job(), step, chapters),
    {
        let plan = self.plan(step, chapters);
        let probe = match step {
            Step::PassOne => Some(String::from_str(self.artifacts.stats())),
            Step::Chapters => Some(String::from_str(self.artifacts.chapters())),
            _ => None,
        };
        Next::Run { step, plan, probe }
    }

    fn intermediate_paths(&self) -> (r: Vec<String>)
        ensures
            r.deep_view() == intermediates(self.job()),
    {
        let a = &self.artifacts;
        let mut r: Vec<String> = Vec::new();
        push_text(&mut r, a.audio());
        push_text(&mut r, a.bitstream());
        push_text(&mut r, a.stats());
        push_text(&mut r, a.chapters());
        match self.policy.realization {
            Realization::Piped => {},
            Realization::FileBacked => {
                push_text(&mut r, a.raw_audio());
                push_text(&mut r, a.raw_video());
            },
        }
        assert(r.deep_view() =~= intermediates(self.job()));
        r
    }

    fn cleanup_paths(&self, step: Step) -> (r: Vec<String>)
        ensures
            r.deep_view() == cleanup(self.job(), step),
    {
        let mut r = self.intermediate_paths();
        match step {
            Step::Mux => {
                push_text(&mut r, self.artifacts.output());
            },
            _ => {},
        }
        assert(r.deep_view() =~= cleanup(self.job(), step));
        r
    }

    fn leftover_paths(&self, step: Step) -> (r: Vec<String>)
        ensures
            r.deep_view() == leftovers(self.job(), step),
    {
        let a = &self.artifacts;
        let file_backed = match self.policy.realization {
            Realization::Piped => false,
            Realization::FileBacked => true,
        };
        let mut r: Vec<String> = Vec::new();
        match step {
            Step::AudioDemux => {},
            Step::AudioEncode => {
                if file_backed {
                    push_text(&mut r, a.raw_audio());
                }
            },
            Step::VideoDemux => {},
            Step::PassOne => {
                push_text(&mut r, a.bitstream());
            },
            Step::PassTwo => {
                push_text(&mut r, a.stats());
                if file_backed {
                    push_text(&mut r, a.raw_video());
                }
            },
            Step::Chapters => {},
            Step::Mux => {
                return self.intermediate_paths();
            },
        }
        assert(r.deep_view() =~= leftovers(self.job(), step));
        r
    }

    /// Takes the report on the stage last handed out and answers with the
    /// next directive.
    pub fn step(&mut self, report: Report) -> (directive: Directive)
        ensures
            final(self).job() == old(self).job(),
            final(self).state() == next_progress(old(self).job(), old(self).state(), report),
            directive@ == directive_for(old(self).job(), old(self).state(), report),
    {
        proof {
            use_type_invariant(&*self);
        }
        let step = match self.progress.phase {
            Phase::Finished(outcome) => {
                let removals: Vec<String> = Vec::new();
                assert(removals.deep_view() =~= Seq::<Seq<char>>::empty());
                return Directive { diagnostic: None, removals, next: Next::Finished(outcome) };
            },
            Phase::Running(step) => step,
        };
        match failure_of(step, report) {
            Some(cause) => {
                let removals = self.cleanup_paths(step);
                self.progress = Progress {
                    phase: Phase::Finished(FileOutcome::Failed),
                    chapters: self.progress.chapters,
                };
                Directive {
                    diagnostic: Some(Diagnostic::StageFailed { stage: step.stage_of(), cause }),
                    removals,
                    next: Next::Finished(FileOutcome::Failed),
                }
            },
            None => {
                let removals = self.leftover_paths(step);
                let chapters = match step {
                    Step::Chapters => match report.artifact {
                        Artifact::Filled => true,
                        _ => false,
                    },
                    _ => self.progress.chapters,
                };
                match following(self.policy.realization, step) {
                    Some(then) => {
                        let next = self.request(then, chapters);
                        self.progress = Progress { phase: Phase::Running(then), chapters };
                        Directive { diagnostic: None, removals, next }
                    },
                    None => {
                        self.progress = Progress {
                            phase: Phase::Finished(FileOutcome::Completed),
                            chapters,
                        };
                        Directive {
                            diagnostic: None,
                            removals,
                            next: Next::Finished(FileOutcome::Completed),
                        }
                    },
                }
            },
        }
    }
}

/// Why a report on `step` means failure, if it does.
pub fn failure_of(step: Step, report: Report) -> (r: Option<FailureCause>)
    ensures
        r == failure(step, report),
{
    match report.result {
        StageResult::LaunchFailure => Some(FailureCause::Launch),
        StageResult::TimedOut => Some(FailureCause::TimedOut),
        StageResult::Failed => match step {
            Step::Chapters => None,
            _ => Some(FailureCause::ExitStatus),
        },
        StageResult::Success => match (step, report.artifact) {
            (Step::PassOne, Artifact::Absent) => Some(FailureCause::MissingStatistics),
            _ => None,
        },
    }
}

/// The step that follows `step` once it has succeeded, if any does.
pub fn following(realization: Realization, step: Step) -> (r: Option<Step>)
    ensures
        r == successor(realization, step),
{
    match step {
        Step::AudioDemux => Some(Step::AudioEncode),
        Step::AudioEncode => match realization {
            Realization::Piped => Some(Step::PassOne),
            Realization::FileBacked => Some(Step::VideoDemux),
        },
        Step::VideoDemux => Some(Step::PassOne),
        Step::PassOne => Some(Step::PassTwo),
        Step::PassTwo => Some(Step::Chapters),
        Step::Chapters => Some(Step::Mux),
        Step::Mux => None,
    }
}

} // verus!
