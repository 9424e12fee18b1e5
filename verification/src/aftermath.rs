//! What a whole batch leaves behind: the pipelines of several inputs, run
//! one after the other in one world.
//!
//! Each input is run to its end, whatever its stages come to. A batch that
//! is cut short by a failure is the batch of the inputs it got to.

use vstd::prelude::*;
use crate::artifacts::{
    artifacts_of, is_media_path, law_artifacts_are_exclusive, law_only_outputs_can_be_inputs,
};
use crate::engine::{intermediates, Job, Phase};
use crate::policy::PipelinePolicy;
use crate::world::{
    after_stage, law_pipeline_ends, lemma_names_apart, lemma_runs_are_sound, owned, report_on,
    steps_left, world_after, Happening,
};

verus! {

/// The job of the input `input` under `policy`.
pub open spec fn job_at(policy: PipelinePolicy, input: Seq<char>) -> Job {
    Job { policy, input, names: artifacts_of(input) }
}

/// The files that exist once the pipelines of `inputs` have run, one after
/// the other, the stages of each input being those of its script.
pub open spec fn files_after(
    policy: PipelinePolicy,
    inputs: Seq<Seq<char>>,
    files: Set<Seq<char>>,
    scripts: Seq<Seq<Happening>>,
) -> Set<Seq<char>>
    decreases inputs.len(),
{
    if inputs.len() == 0 {
        files
    } else {
        world_after(
            job_at(policy, inputs.last()),
            files_after(policy, inputs.drop_last(), files, scripts.drop_last()),
            scripts.last(),
        ).files
    }
}

/// Whether `scripts` runs each of `inputs` to its end: one script for each
/// input, long enough for every step of a pipeline.
pub open spec fn runs_to_the_end(inputs: Seq<Seq<char>>, scripts: Seq<Seq<Happening>>) -> bool {
    &&& scripts.len() == inputs.len()
    &&& forall|i: int| 0 <= i < scripts.len() ==> (#[trigger] scripts[i]).len() >= 7
}

/// Whether `path` is the final output of one of `inputs`.
pub open spec fn is_an_output(inputs: Seq<Seq<char>>, path: Seq<char>) -> bool {
    exists|i: int| 0 <= i < inputs.len() && artifacts_of(#[trigger] inputs[i]).output == path
}

/// Whether `path` is an intermediate artifact of `input`.
pub open spec fn is_intermediate_of(
    policy: PipelinePolicy,
    input: Seq<char>,
    path: Seq<char>,
) -> bool {
    intermediates(job_at(policy, input)).contains(path)
}

/// Whether `path` is an intermediate artifact of one of `inputs`.
pub open spec fn is_an_intermediate(
    policy: PipelinePolicy,
    inputs: Seq<Seq<char>>,
    path: Seq<char>,
) -> bool {
    exists|i: int| 0 <= i < inputs.len() && is_intermediate_of(policy, #[trigger] inputs[i], path)
}

/// A pipeline that has taken as many reports as it has steps has ended.
pub proof fn lemma_long_runs_end(job: Job, files: Set<Seq<char>>, happenings: Seq<Happening>)
    ensures
        steps_left(world_after(job, files, happenings).progress.phase) + happenings.len() <= 7
            || world_after(job, files, happenings).progress.phase is Finished,
    decreases happenings.len(),
{
    if happenings.len() > 0 {
        let head = happenings.drop_last();
        lemma_long_runs_end(job, files, head);
        let before = world_after(job, files, head);
        if let Phase::Running(step) = before.progress.phase {
            let stage = happenings.last();
            let report = report_on(after_stage(before.files, job, step, stage), job, step, stage);
            law_pipeline_ends(job, before.progress, report);
        }
    }
}

/// What holds of the files once the first `inputs.len()` pipelines have run.
spec fn settled(
    policy: PipelinePolicy,
    inputs: Seq<Seq<char>>,
    initial: Set<Seq<char>>,
    files: Set<Seq<char>>,
) -> bool {
    &&& forall|p: Seq<char>| is_an_intermediate(policy, inputs, p) ==> !files.contains(p)
    &&& forall|p: Seq<char>|
        !is_an_intermediate(policy, inputs, p) && !is_an_output(inputs, p) ==> (files.contains(p)
            <==> initial.contains(p))
}

proof fn lemma_batches_settle(
    policy: PipelinePolicy,
    inputs: Seq<Seq<char>>,
    files: Set<Seq<char>>,
    scripts: Seq<Seq<Happening>>,
)
    requires
        forall|i: int| 0 <= i < inputs.len() ==> is_media_path(#[trigger] inputs[i]),
        runs_to_the_end(inputs, scripts),
    ensures
        settled(policy, inputs, files, files_after(policy, inputs, files, scripts)),
    decreases inputs.len(),
{
    if inputs.len() > 0 {
        let head = inputs.drop_last();
        let n = inputs.len() - 1;
        assert forall|i: int| 0 <= i < head.len() implies is_media_path(#[trigger] head[i]) by {
            assert(head[i] == inputs[i]);
        }
        assert(runs_to_the_end(head, scripts.drop_last())) by {
            let earlier = scripts.drop_last();
            assert forall|i: int| 0 <= i < head.len() implies (#[trigger] earlier[i]).len()
                >= 7 by {
                assert(earlier[i] == scripts[i]);
            }
        }
        lemma_batches_settle(policy, head, files, scripts.drop_last());
        let before = files_after(policy, head, files, scripts.drop_last());
        let job = job_at(policy, inputs[n]);
        let w = world_after(job, before, scripts.last());
        assert(scripts.last() == scripts[n]);
        lemma_long_runs_end(job, before, scripts.last());
        lemma_runs_are_sound(job, before, scripts.last());
        lemma_names_apart(job);
        assert(w.progress.phase is Finished);
        assert forall|p: Seq<char>| is_an_intermediate(policy, inputs, p) implies !w.files.contains(
            p,
        ) by {
            let i = choose|i: int|
                0 <= i < inputs.len() && is_intermediate_of(policy, #[trigger] inputs[i], p);
            if inputs[i] == inputs[n] {
                assert(intermediates(job).contains(p));
            } else {
                assert(head[i] == inputs[i]);
                assert(is_an_intermediate(policy, head, p));
                lemma_owned_apart(policy, inputs[i], inputs[n], p);
                assert(w.files.contains(p) <==> before.contains(p));
            }
        }
        assert forall|p: Seq<char>|
            !is_an_intermediate(policy, inputs, p) && !is_an_output(inputs, p) implies (
        w.files.contains(p) <==> files.contains(p)) by {
            if owned(job).contains(p) {
                let k = choose|k: int| 0 <= k < owned(job).len() && owned(job)[k] == p;
                if k < intermediates(job).len() {
                    assert(intermediates(job)[k] == p);
                    assert(intermediates(job).contains(p));
                    assert(is_an_intermediate(policy, inputs, p));
                } else {
                    assert(artifacts_of(inputs[n]).output == p);
                    assert(is_an_output(inputs, p));
                }
            }
            if is_an_intermediate(policy, head, p) {
                let i = choose|i: int|
                    0 <= i < head.len() && is_intermediate_of(policy, #[trigger] head[i], p);
                assert(head[i] == inputs[i]);
                assert(is_an_intermediate(policy, inputs, p));
            }
            if is_an_output(head, p) {
                let i = choose|i: int|
                    0 <= i < head.len() && artifacts_of(#[trigger] head[i]).output == p;
                assert(head[i] == inputs[i]);
                assert(is_an_output(inputs, p));
            }
        }
    }
}

/// An intermediate artifact of one input is none of what the job of a
/// different input owns.
proof fn lemma_owned_apart(
    policy: PipelinePolicy,
    one: Seq<char>,
    other: Seq<char>,
    path: Seq<char>,
)
    requires
        is_media_path(one),
        is_media_path(other),
        one != other,
        intermediates(job_at(policy, one)).contains(path),
    ensures
        !owned(job_at(policy, other)).contains(path),
{
    lemma_names_apart(job_at(policy, one));
    lemma_names_apart(job_at(policy, other));
    law_artifacts_are_exclusive(one, other);
    let mine = artifacts_of(one).all();
    let theirs = artifacts_of(other).all();
    if owned(job_at(policy, other)).contains(path) {
        assert(mine.contains(path));
        assert(theirs.contains(path));
        let i = choose|i: int| 0 <= i < mine.len() && mine[i] == path;
        let j = choose|j: int| 0 <= j < theirs.len() && theirs[j] == path;
        assert(mine[i] != theirs[j]);
    }
}

/// Whichever stages fail, and of whichever inputs: once a batch has run,
/// no intermediate artifact of any of its inputs exists; every file that is
/// no artifact of the batch exists exactly if it did before; and so does
/// every input that is not, by its name, the final output of another.
pub proof fn law_batch_leaves_no_intermediates(
    policy: PipelinePolicy,
    inputs: Seq<Seq<char>>,
    files: Set<Seq<char>>,
    scripts: Seq<Seq<Happening>>,
)
    requires
        forall|i: int| 0 <= i < inputs.len() ==> is_media_path(#[trigger] inputs[i]),
        runs_to_the_end(inputs, scripts),
    ensures
        forall|p: Seq<char>|
            is_an_intermediate(policy, inputs, p) ==> !files_after(
                policy,
                inputs,
                files,
                scripts,
            ).contains(p),
        forall|p: Seq<char>|
            !is_an_intermediate(policy, inputs, p) && !is_an_output(inputs, p) ==> (files_after(
                policy,
                inputs,
                files,
                scripts,
            ).contains(p) <==> files.contains(p)),
        forall|k: int|
            0 <= k < inputs.len() && !is_an_output(inputs, #[trigger] inputs[k]) ==> (files_after(
                policy,
                inputs,
                files,
                scripts,
            ).contains(inputs[k]) <==> files.contains(inputs[k])),
{
    lemma_batches_settle(policy, inputs, files, scripts);
    assert forall|k: int| 0 <= k < inputs.len() implies !is_an_intermediate(
        policy,
        inputs,
        #[trigger] inputs[k],
    ) by {
        if is_an_intermediate(policy, inputs, inputs[k]) {
            let input = inputs[k];
            let i = choose|i: int|
                0 <= i < inputs.len() && is_intermediate_of(policy, #[trigger] inputs[i], input);
            lemma_input_is_no_intermediate(policy, inputs[i], inputs[k]);
        }
    }
}

/// No media file is an intermediate artifact of a media file.
proof fn lemma_input_is_no_intermediate(policy: PipelinePolicy, one: Seq<char>, other: Seq<char>)
    requires
        is_media_path(one),
        is_media_path(other),
    ensures
        !intermediates(job_at(policy, one)).contains(other),
{
    let job = job_at(policy, one);
    lemma_names_apart(job);
    law_only_outputs_can_be_inputs(one, other);
    let all = artifacts_of(one).all();
    if intermediates(job).contains(other) {
        assert(all.contains(other));
        let i = choose|i: int| 0 <= i < all.len() && all[i] == other;
        assert(all[4] == job.names.output);
    }
}

/// Running a batch again, on the files that its first run left, leaves the
/// same files but for the final outputs: whatever the stages of either run
/// come to, nothing piles up.
pub proof fn law_second_batch_leaves_the_same_files(
    policy: PipelinePolicy,
    inputs: Seq<Seq<char>>,
    files: Set<Seq<char>>,
    first: Seq<Seq<Happening>>,
    second: Seq<Seq<Happening>>,
)
    requires
        forall|i: int| 0 <= i < inputs.len() ==> is_media_path(#[trigger] inputs[i]),
        runs_to_the_end(inputs, first),
        runs_to_the_end(inputs, second),
    ensures
        ({
            let once = files_after(policy, inputs, files, first);
            let twice = files_after(policy, inputs, once, second);
            forall|p: Seq<char>|
                !is_an_output(inputs, p) ==> (twice.contains(p) <==> once.contains(p))
        }),
{
    let once = files_after(policy, inputs, files, first);
    lemma_batches_settle(policy, inputs, files, first);
    lemma_batches_settle(policy, inputs, once, second);
}

} // verus!
