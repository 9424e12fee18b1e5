//! The pipeline set against a model of the file system, and what holds of
//! every run of it.
//!
//! The model is the set of paths that exist. A stage may create the files
//! that its step writes and no others, whatever its result; a removal that
//! a directive asks for is carried out. The laws below speak of every
//! sequence of stage outcomes.

use vstd::prelude::*;
use crate::artifacts::{artifacts_of, is_media_path, law_artifacts_are_distinct_siblings};
use crate::command::{mux_call, video_demux_call, StagePlanView};
use crate::engine::{
    directive_for, failure, intermediates, next_progress, opening_progress, plan_for, run,
    Artifact, FileOutcome, Job, NextView, Phase, Progress, Report, Step,
};
use crate::policy::Realization;
use crate::runner::StageResult;

verus! {

/// What one stage did to the world.
pub struct Happening {
    /// How the stage ended.
    pub result: StageResult,
    /// The files that the tools of the stage tried to create.
    pub created: Set<Seq<char>>,
    /// Whether the artifact of the stage, where it exists, holds nothing.
    pub hollow: bool,
}

/// A pipeline in its world: the state of the machine and the files that exist.
pub struct World {
    pub progress: Progress,
    pub files: Set<Seq<char>>,
}

/// The job of a media file: its names are those derived from its path.
pub open spec fn job_of(job: Job) -> bool {
    is_media_path(job.input) && job.names == artifacts_of(job.input)
}

/// The files that the tools of a step may create or overwrite.
pub open spec fn writes(job: Job, step: Step) -> Set<Seq<char>> {
    match step {
        Step::AudioDemux => set![job.names.raw_audio],
        Step::AudioEncode => set![job.names.audio],
        Step::VideoDemux => set![job.names.raw_video],
        Step::PassOne => set![job.names.bitstream, job.names.stats],
        Step::PassTwo => set![job.names.bitstream],
        Step::Chapters => set![job.names.chapters],
        Step::Mux => set![job.names.output],
    }
}

/// Whether one of the processes of `plan` is handed `path` as an argument.
pub open spec fn names_path(plan: StagePlanView, path: Seq<char>) -> bool {
    match plan {
        StagePlanView::Single(only) => only.args.contains(path),
        StagePlanView::Piped { producer, consumer } => producer.args.contains(path)
            || consumer.args.contains(path),
    }
}

/// Every file that a step may write is named in the arguments of one of its
/// processes: no tool is left to pick a place of its own.
pub proof fn law_steps_name_what_they_write(job: Job, step: Step, chapters: bool, path: Seq<char>)
    requires
        writes(job, step).contains(path),
    ensures
        names_path(plan_for(job, step, chapters), path),
{
    let names = job.names;
    let shift: int = if job.policy.trial {
        7
    } else {
        5
    };
    match plan_for(job, step, chapters) {
        StagePlanView::Single(only) => {
            match step {
                Step::AudioDemux => {
                    assert(only.args[shift + 8] == names.raw_audio);
                },
                Step::AudioEncode => {
                    assert(only.args[4] == names.audio);
                },
                Step::VideoDemux => {
                    assert(only.args[shift + 10] == names.raw_video);
                },
                Step::PassOne => {
                    assert(only.args[9] == names.bitstream);
                    assert(only.args[13] == names.stats);
                },
                Step::PassTwo => {
                    assert(only.args[9] == names.bitstream);
                },
                Step::Chapters => {
                    assert(only.args[2] == names.chapters);
                },
                Step::Mux => {
                    assert(only.args[3] == names.output);
                },
            }
        },
        StagePlanView::Piped { producer, consumer } => {
            match step {
                Step::AudioEncode => {
                    assert(consumer.args[4] == names.audio);
                },
                Step::PassOne => {
                    assert(consumer.args[9] == names.bitstream);
                    assert(consumer.args[13] == names.stats);
                },
                _ => {
                    assert(consumer.args[9] == names.bitstream);
                },
            }
        },
    }
}

/// The files that exist once the tools of `step` have run.
pub open spec fn after_stage(files: Set<Seq<char>>, job: Job, step: Step, h: Happening) -> Set<
    Seq<char>,
> {
    files.union(h.created.intersect(writes(job, step)))
}

/// The report that a truthful caller gives on `step`, the files being `files`.
pub open spec fn report_on(files: Set<Seq<char>>, job: Job, step: Step, h: Happening) -> Report {
    Report {
        result: h.result,
        artifact: match crate::engine::probe_for(job, step) {
            Some(path) => if !files.contains(path) {
                Artifact::Absent
            } else if h.hollow {
                Artifact::Empty
            } else {
                Artifact::Filled
            },
            None => Artifact::Absent,
        },
    }
}

/// The files that exist once `removals` have been carried out.
pub open spec fn after_removals(files: Set<Seq<char>>, removals: Seq<Seq<char>>) -> Set<
    Seq<char>,
> {
    Set::new(|p: Seq<char>| files.contains(p) && !removals.contains(p))
}

/// The world after one more stage: its tools run, the caller reports, and
/// the removals of the answering directive are carried out. A finished
/// pipeline changes nothing.
pub open spec fn advance(job: Job, w: World, h: Happening) -> World {
    match w.progress.phase {
        Phase::Finished(_) => w,
        Phase::Running(step) => {
            let files = after_stage(w.files, job, step, h);
            let report = report_on(files, job, step, h);
            World {
                progress: next_progress(job, w.progress, report),
                files: after_removals(files, directive_for(job, w.progress, report).removals),
            }
        },
    }
}

/// The world in which a pipeline starts, the files being `files`.
pub open spec fn start(job: Job, files: Set<Seq<char>>) -> World {
    World { progress: opening_progress(job), files }
}

/// The world after the stages of `happenings`, in order.
pub open spec fn world_after(job: Job, files: Set<Seq<char>>, happenings: Seq<Happening>) -> World
    decreases happenings.len(),
{
    if happenings.len() == 0 {
        start(job, files)
    } else {
        advance(job, world_after(job, files, happenings.drop_last()), happenings.last())
    }
}

/// Every path that a pipeline may create or remove: the intermediate
/// artifacts and the final output.
pub open spec fn owned(job: Job) -> Seq<Seq<char>> {
    intermediates(job).push(job.names.output)
}

/// Whether a step occurs in pipelines of this realization.
pub open spec fn occurs(realization: Realization, step: Step) -> bool {
    realization == Realization::FileBacked || (step != Step::AudioDemux && step
        != Step::VideoDemux)
}

/// Whether the second pass lies behind: the pipeline is past it, or has ended.
pub open spec fn past_second_pass(phase: Phase) -> bool {
    phase == Phase::Running(Step::Chapters) || phase == Phase::Running(Step::Mux) || phase
        == Phase::Finished(FileOutcome::Completed)
}

/// What holds of a pipeline's world at every moment of every run that
/// started with the files `initial`.
pub open spec fn sound(job: Job, initial: Set<Seq<char>>, w: World) -> bool {
    let names = job.names;
    &&& w.progress.phase matches Phase::Running(step) ==> occurs(job.policy.realization, step)
    &&& forall|p: Seq<char>|
        !owned(job).contains(p) ==> (w.files.contains(p) <==> initial.contains(p))
    &&& w.progress.phase is Finished ==> forall|p: Seq<char>| #[trigger]
        intermediates(job).contains(p) ==> !w.files.contains(p)
    &&& w.progress.phase == Phase::Running(Step::PassTwo) ==> w.files.contains(names.stats)
        && !w.files.contains(names.bitstream)
    &&& past_second_pass(w.progress.phase) ==> !w.files.contains(names.stats)
    &&& w.progress.phase == Phase::Running(Step::Mux) && w.progress.chapters
        ==> w.files.contains(names.chapters)
}

/// The names of a job are apart from each other and from the input, and all
/// that a job owns is among them.
pub proof fn lemma_names_apart(job: Job)
    requires
        job_of(job),
    ensures
        job.names.all().no_duplicates(),
        !job.names.all().contains(job.input),
        !owned(job).contains(job.input),
        forall|p: Seq<char>| #[trigger] owned(job).contains(p) ==> job.names.all().contains(p),
        forall|p: Seq<char>| #[trigger] intermediates(job).contains(p) ==> owned(job).contains(p),
        owned(job).contains(job.names.output),
        !intermediates(job).contains(job.names.output),
        intermediates(job).contains(job.names.audio),
        intermediates(job).contains(job.names.bitstream),
        intermediates(job).contains(job.names.stats),
        intermediates(job).contains(job.names.chapters),
        job.policy.realization == Realization::FileBacked ==> intermediates(job).contains(
            job.names.raw_audio,
        ) && intermediates(job).contains(job.names.raw_video),
        job.names.stats != job.names.bitstream,
        job.names.stats != job.names.chapters,
        job.names.stats != job.names.output,
        job.names.chapters != job.names.output,
{
    law_artifacts_are_distinct_siblings(job.input);
    let all = job.names.all();
    let mid = intermediates(job);
    let own = owned(job);
    assert(all[0] == job.names.audio && all[1] == job.names.chapters && all[2] == job.names.stats
        && all[3] == job.names.bitstream && all[4] == job.names.output && all[5]
        == job.names.raw_audio && all[6] == job.names.raw_video);
    assert(mid[0] == job.names.audio && mid[1] == job.names.bitstream && mid[2] == job.names.stats
        && mid[3] == job.names.chapters);
    if job.policy.realization == Realization::FileBacked {
        assert(mid[4] == job.names.raw_audio && mid[5] == job.names.raw_video);
    }
    assert(own[mid.len() as int] == job.names.output);
    assert forall|p: Seq<char>| #[trigger] mid.contains(p) implies own.contains(p) && p
        != job.names.output && all.contains(p) by {
        let k = choose|k: int| 0 <= k < mid.len() && mid[k] == p;
        assert(own[k] == p);
        if k == 0 {
            assert(all[0] == p);
        } else if k == 1 {
            assert(all[3] == p);
        } else if k == 2 {
            assert(all[2] == p);
        } else if k == 3 {
            assert(all[1] == p);
        } else if k == 4 {
            assert(all[5] == p);
        } else {
            assert(all[6] == p);
        }
    }
    assert forall|p: Seq<char>| #[trigger] own.contains(p) implies all.contains(p) by {
        let k = choose|k: int| 0 <= k < own.len() && own[k] == p;
        if k < mid.len() {
            assert(mid[k] == p);
            assert(mid.contains(p));
        } else {
            assert(all[4] == p);
        }
    }
}

/// What a directive removes, and what a step writes, is owned by the job.
proof fn lemma_touches_owned(job: Job, progress: Progress, report: Report, step: Step)
    requires
        job_of(job),
        progress.phase == Phase::Running(step),
        occurs(job.policy.realization, step),
    ensures
        forall|p: Seq<char>| #[trigger]
            directive_for(job, progress, report).removals.contains(p) ==> owned(job).contains(p),
        forall|p: Seq<char>| #[trigger] writes(job, step).contains(p) ==> owned(job).contains(p),
{
    lemma_names_apart(job);
    let removals = directive_for(job, progress, report).removals;
    let mid = intermediates(job);
    assert forall|p: Seq<char>| #[trigger] removals.contains(p) implies owned(job).contains(p) by {
        let k = choose|k: int| 0 <= k < removals.len() && removals[k] == p;
        if failure(step, report) is Some {
            if k < mid.len() {
                assert(mid[k] == p);
                assert(mid.contains(p));
            }
        } else if step == Step::Mux {
            assert(mid[k] == p);
            assert(mid.contains(p));
        }
    }
}

/// One more stage keeps a sound world sound.
proof fn lemma_advance_sound(job: Job, initial: Set<Seq<char>>, w: World, h: Happening)
    requires
        job_of(job),
        sound(job, initial, w),
    ensures
        sound(job, initial, advance(job, w, h)),
{
    let after = advance(job, w, h);
    if let Phase::Running(step) = w.progress.phase {
        lemma_names_apart(job);
        let files = after_stage(w.files, job, step, h);
        let report = report_on(files, job, step, h);
        let directive = directive_for(job, w.progress, report);
        let removals = directive.removals;
        let names = job.names;
        let mid = intermediates(job);
        lemma_touches_owned(job, w.progress, report, step);
        assert forall|p: Seq<char>| !owned(job).contains(p) implies (after.files.contains(p)
            <==> initial.contains(p)) by {
            if removals.contains(p) {
                assert(owned(job).contains(p));
            }
            if writes(job, step).contains(p) {
                assert(owned(job).contains(p));
            }
        }
        if after.progress.phase is Finished {
            assert forall|p: Seq<char>| #[trigger] mid.contains(p) implies !after.files.contains(
                p,
            ) by {
                let k = choose|k: int| 0 <= k < mid.len() && mid[k] == p;
                assert(removals[k] == p);
            }
        }
        if failure(step, report) is None {
            if step == Step::PassOne {
                assert(removals[0] == names.bitstream);
                assert(!removals.contains(names.stats));
            }
            if step == Step::PassTwo {
                assert(removals[0] == names.stats);
            }
            if step == Step::Chapters {
                assert(!writes(job, step).contains(names.stats));
            }
            if step == Step::Mux {
                assert(mid.contains(names.stats));
                assert(!writes(job, step).contains(names.stats));
            }
        }
    }
}

/// Every run keeps its world sound.
pub proof fn lemma_runs_are_sound(job: Job, files: Set<Seq<char>>, happenings: Seq<Happening>)
    requires
        job_of(job),
    ensures
        sound(job, files, world_after(job, files, happenings)),
    decreases happenings.len(),
{
    if happenings.len() == 0 {
    } else {
        lemma_runs_are_sound(job, files, happenings.drop_last());
        lemma_advance_sound(
            job,
            files,
            world_after(job, files, happenings.drop_last()),
            happenings.last(),
        );
    }
}

/// How many reports a pipeline is away from its end, at most.
pub open spec fn steps_left(phase: Phase) -> nat {
    match phase {
        Phase::Running(Step::AudioDemux) => 7,
        Phase::Running(Step::AudioEncode) => 6,
        Phase::Running(Step::VideoDemux) => 5,
        Phase::Running(Step::PassOne) => 4,
        Phase::Running(Step::PassTwo) => 3,
        Phase::Running(Step::Chapters) => 2,
        Phase::Running(Step::Mux) => 1,
        Phase::Finished(_) => 0,
    }
}

/// Every report brings the pipeline of a file closer to its end: a failure
/// ends it at once, and without one it ends after seven reports at most.
pub proof fn law_pipeline_ends(job: Job, progress: Progress, report: Report)
    ensures
        steps_left(progress.phase) <= 7,
        progress.phase is Running ==> steps_left(next_progress(job, progress, report).phase)
            < steps_left(progress.phase),
        progress.phase matches Phase::Running(step) && failure(step, report) is Some
            ==> next_progress(job, progress, report).phase == Phase::Finished(FileOutcome::Failed),
        next_progress(job, progress, report).phase == Phase::Finished(FileOutcome::Completed)
            ==> progress.phase == Phase::Finished(FileOutcome::Completed) || (progress.phase
            == Phase::Running(Step::Mux) && report.result == StageResult::Success),
{
}

/// Whatever stage fails, and however: once the pipeline of a file has ended,
/// none of its intermediate artifacts exists, whether they were written by
/// this run or left behind by an earlier one; the input exists exactly if it
/// did before; and so does every other file that is none of the job's own.
pub proof fn law_ended_run_leaves_no_intermediates(
    job: Job,
    files: Set<Seq<char>>,
    happenings: Seq<Happening>,
)
    requires
        job_of(job),
        world_after(job, files, happenings).progress.phase is Finished,
    ensures
        forall|p: Seq<char>| #[trigger]
            intermediates(job).contains(p) ==> !world_after(job, files, happenings).files.contains(
                p,
            ),
        world_after(job, files, happenings).files.contains(job.input) <==> files.contains(
            job.input,
        ),
        forall|p: Seq<char>|
            !owned(job).contains(p) ==> (#[trigger] world_after(
                job,
                files,
                happenings,
            ).files.contains(p) <==> files.contains(p)),
{
    lemma_runs_are_sound(job, files, happenings);
    lemma_names_apart(job);
}

/// The final step, where it succeeds, ends the file as completed and takes
/// nothing of the final output: the output exists afterwards exactly if the
/// step left it. Where it fails, the output goes with the intermediates.
pub proof fn law_only_success_keeps_the_output(job: Job, w: World, h: Happening)
    requires
        job_of(job),
        w.progress.phase == Phase::Running(Step::Mux),
    ensures
        ({
            let left = after_stage(w.files, job, Step::Mux, h);
            let after = advance(job, w, h);
            &&& h.result == StageResult::Success ==> after.progress.phase == Phase::Finished(
                FileOutcome::Completed,
            ) && (after.files.contains(job.names.output) <==> left.contains(job.names.output))
            &&& h.result != StageResult::Success ==> after.progress.phase == Phase::Finished(
                FileOutcome::Failed,
            ) && !after.files.contains(job.names.output)
        }),
{
    lemma_names_apart(job);
    let left = after_stage(w.files, job, Step::Mux, h);
    let report = report_on(left, job, Step::Mux, h);
    let removals = directive_for(job, w.progress, report).removals;
    if h.result != StageResult::Success {
        assert(removals[intermediates(job).len() as int] == job.names.output);
    }
}

/// Running the pipeline of a file again, on the files that an earlier run
/// left, leaves the same files but for the final output: nothing piles up.
/// Where the final output exists after both runs, the files are the same.
pub proof fn law_second_run_leaves_the_same_files(
    job: Job,
    files: Set<Seq<char>>,
    first: Seq<Happening>,
    second: Seq<Happening>,
)
    requires
        job_of(job),
        world_after(job, files, first).progress.phase is Finished,
        world_after(job, world_after(job, files, first).files, second).progress.phase is Finished,
    ensures
        ({
            let once = world_after(job, files, first).files;
            let twice = world_after(job, once, second).files;
            &&& twice.remove(job.names.output) == once.remove(job.names.output)
            &&& once.contains(job.names.output) && twice.contains(job.names.output) ==> twice
                == once
        }),
{
    let once = world_after(job, files, first).files;
    let twice = world_after(job, once, second).files;
    lemma_runs_are_sound(job, files, first);
    lemma_runs_are_sound(job, once, second);
    lemma_names_apart(job);
    let output = job.names.output;
    assert forall|p: Seq<char>| p != output implies (twice.contains(p) <==> once.contains(p)) by {
        if owned(job).contains(p) {
            let k = choose|k: int| 0 <= k < owned(job).len() && owned(job)[k] == p;
            assert(intermediates(job)[k] == p);
            assert(intermediates(job).contains(p));
        }
    }
    assert(twice.remove(output) =~= once.remove(output));
    if once.contains(output) && twice.contains(output) {
        assert(twice =~= once);
    }
}

/// The second pass is handed out only in answer to a first pass that
/// reported success and left its statistics.
pub proof fn law_second_pass_follows_first(job: Job, progress: Progress, report: Report)
    ensures
        (directive_for(job, progress, report).next matches NextView::Run { step, .. } && step
            == Step::PassTwo) <==> (progress.phase == Phase::Running(Step::PassOne)
            && report.result == StageResult::Success && report.artifact != Artifact::Absent),
        next_progress(job, progress, report).phase == Phase::Running(Step::PassTwo) <==> (
        progress.phase == Phase::Running(Step::PassOne) && report.result == StageResult::Success
            && report.artifact != Artifact::Absent),
        progress.phase == Phase::Running(Step::PassOne) && failure(Step::PassOne, report) is None
            ==> directive_for(job, progress, report).removals == seq![job.names.bitstream],
        progress.phase == Phase::Running(Step::PassTwo) && report.result == StageResult::Success
            ==> directive_for(job, progress, report).removals.contains(job.names.stats),
{
    if progress.phase == Phase::Running(Step::PassTwo) && report.result == StageResult::Success {
        assert(directive_for(job, progress, report).removals[0] == job.names.stats);
    }
}

/// In every run: while the second pass runs, the statistics of the first
/// exist and its bitstream is gone; once the second pass lies behind, the
/// statistics are gone too.
pub proof fn law_two_pass_discipline(job: Job, files: Set<Seq<char>>, happenings: Seq<Happening>)
    requires
        job_of(job),
    ensures
        ({
            let w = world_after(job, files, happenings);
            &&& w.progress.phase == Phase::Running(Step::PassTwo) ==> w.files.contains(
                job.names.stats,
            ) && !w.files.contains(job.names.bitstream)
            &&& past_second_pass(w.progress.phase) ==> !w.files.contains(job.names.stats)
        }),
{
    lemma_runs_are_sound(job, files, happenings);
}

/// In every run: where the final step is handed the chapter flag, the
/// chapter file exists. No run passes a file that is not there.
pub proof fn law_chapter_file_exists_when_named(
    job: Job,
    files: Set<Seq<char>>,
    happenings: Seq<Happening>,
)
    requires
        job_of(job),
    ensures
        ({
            let w = world_after(job, files, happenings);
            w.progress.phase == Phase::Running(Step::Mux) && w.progress.chapters
                ==> w.files.contains(job.names.chapters)
        }),
{
    lemma_runs_are_sound(job, files, happenings);
}

/// The arguments of the final step name the chapter file exactly when
/// chapter extraction left chapter markup: then the flag and the file close
/// the argument vector; otherwise neither occurs in it.
pub proof fn law_chapters_flag_follows_presence(job: Job, progress: Progress, report: Report)
    requires
        job_of(job),
        progress.phase == Phase::Running(Step::Chapters),
        failure(Step::Chapters, report) is None,
    ensures
        ({
            let present = report.artifact == Artifact::Filled;
            let args = mux_call(job.names, present).args;
            &&& directive_for(job, progress, report).next == NextView::Run {
                step: Step::Mux,
                plan: StagePlanView::Single(mux_call(job.names, present)),
                probe: None,
            }
            &&& present ==> args.len() == 6 && args[4] == "--chapters"@ && args[5]
                == job.names.chapters
            &&& !present ==> !args.contains("--chapters"@) && !args.contains(job.names.chapters)
        }),
{
    let present = report.artifact == Artifact::Filled;
    let args = mux_call(job.names, present).args;
    let names = job.names;
    assert(directive_for(job, progress, report).next == run(job, Step::Mux, present));
    if present {
        assert(args =~= seq![
            names.bitstream,
            names.audio,
            "-o"@,
            names.output,
            "--chapters"@,
            names.chapters,
        ]);
    } else {
        lemma_names_apart(job);
        lemma_flag_is_no_artifact(job);
        reveal_strlit("--chapters");
        reveal_strlit("-o");
        let all = names.all();
        assert(all[0] == names.audio && all[1] == names.chapters && all[3] == names.bitstream
            && all[4] == names.output);
        assert(args =~= seq![names.bitstream, names.audio, "-o"@, names.output]);
        assert(names.chapters.len() > 4) by {
            crate::artifacts::lemma_media_path(job.input);
            reveal_strlit(".xml");
        }
        assert("-o"@.len() == 2 && "--chapters"@.len() == 10);
        assert(names.chapters != names.audio && names.chapters != names.bitstream
            && names.chapters != names.output);
        if args.contains("--chapters"@) {
            let k = choose|k: int| 0 <= k < args.len() && args[k] == "--chapters"@;
            assert(k == 0 || k == 1 || k == 2 || k == 3);
        }
        if args.contains(names.chapters) {
            let k = choose|k: int| 0 <= k < args.len() && args[k] == names.chapters;
            assert(k == 0 || k == 1 || k == 2 || k == 3);
        }
    }
}

/// No artifact path reads as the chapter flag.
proof fn lemma_flag_is_no_artifact(job: Job)
    requires
        job_of(job),
    ensures
        job.names.bitstream != "--chapters"@,
        job.names.audio != "--chapters"@,
        job.names.output != "--chapters"@,
{
    crate::artifacts::lemma_media_path(job.input);
    let stem = crate::path::stem_path(job.input);
    let flag = "--chapters"@;
    reveal_strlit("--chapters");
    reveal_strlit(".ivf");
    reveal_strlit(".opus");
    reveal_strlit("-out.mkv");
    let n = stem.len() as int;
    assert(flag.len() == 10 && flag[6] == 't' && flag[5] == 'p');
    assert(".ivf"@.len() == 4 && ".ivf"@[0] == '.');
    assert(".opus"@.len() == 5 && ".opus"@[0] == '.');
    assert("-out.mkv"@.len() == 8 && "-out.mkv"@[4] == '.');
    assert(job.names.bitstream.len() == n + 4 && job.names.bitstream[n] == '.');
    assert(job.names.audio.len() == n + 5 && job.names.audio[n] == '.');
    assert(job.names.output.len() == n + 8 && job.names.output[n + 4] == '.');
}

/// In trial mode both video passes work on a demultiplexer run that is cut
/// short: with piped stages the producer of each pass carries the duration
/// limit, and with file-backed stages the one run that decodes the video
/// for both passes carries it. Outside trial mode the limit is left out:
/// the input follows the opening flags at once.
pub proof fn law_trial_cuts_both_passes_short(job: Job, chapters: bool)
    ensures
        ({
            let limit = seq!["-t"@, "120"@];
            let piped = video_demux_call(job.policy, job.input, None);
            let filed = video_demux_call(job.policy, job.input, Some(job.names.raw_video));
            &&& job.policy.realization == Realization::Piped ==> {
                &&& plan_for(job, Step::PassOne, chapters) matches StagePlanView::Piped {
                    producer,
                    ..
                } && producer == piped
                &&& plan_for(job, Step::PassTwo, chapters) matches StagePlanView::Piped {
                    producer,
                    ..
                } && producer == piped
            }
            &&& job.policy.realization == Realization::FileBacked ==> plan_for(
                job,
                Step::VideoDemux,
                chapters,
            ) == StagePlanView::Single(filed)
            &&& job.policy.trial ==> piped.args.subrange(5, 7) == limit && filed.args.subrange(5, 7)
                == limit
            &&& !job.policy.trial ==> piped.args[5] == "-i"@ && filed.args[5] == "-i"@
        }),
{
    let piped = video_demux_call(job.policy, job.input, None);
    let filed = video_demux_call(job.policy, job.input, Some(job.names.raw_video));
    if job.policy.trial {
        assert(piped.args.subrange(5, 7) =~= seq!["-t"@, "120"@]);
        assert(filed.args.subrange(5, 7) =~= seq!["-t"@, "120"@]);
    }
}

} // verus!
