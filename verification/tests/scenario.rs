use std::collections::BTreeSet;

use ffmpeg_driver::artifacts::{ArtifactSet, MediaFile};
use ffmpeg_driver::batch::{BatchEngine, BatchStep};
use ffmpeg_driver::command::StagePlan;
use ffmpeg_driver::diagnostic::{Diagnostic, FailureCause, Stage};
use ffmpeg_driver::discover::{discover, Entry, Listing};
use ffmpeg_driver::engine::{Artifact, FileOutcome, Next, PipelineEngine, Report, Step};
use ffmpeg_driver::policy::{Continuation, PipelinePolicy, Realization};
use ffmpeg_driver::runner::{Role, RunnerAction, RunnerEvent, StageResult, StageRunner};

/// A stand-in for the outside world: the files that exist, the processes
/// that run, and a script that says which step of which file goes wrong.
struct World {
    files: BTreeSet<String>,
    live: Vec<Role>,
    launched: Vec<(String, Step, Vec<String>)>,
    diagnostics: Vec<(String, Diagnostic)>,
    fails: Vec<(String, Step, StageResult)>,
    hangs: Vec<(String, Step)>,
    killed: Vec<Role>,
    kills: usize,
    with_chapters: bool,
}

impl World {
    fn new(files: &[&str]) -> World {
        World {
            files: files.iter().map(|f| f.to_string()).collect(),
            live: Vec::new(),
            launched: Vec::new(),
            diagnostics: Vec::new(),
            fails: Vec::new(),
            hangs: Vec::new(),
            killed: Vec::new(),
            kills: 0,
            with_chapters: true,
        }
    }

    fn failing(mut self, input: &str, step: Step, result: StageResult) -> World {
        self.fails.push((input.to_string(), step, result));
        self
    }

    fn hanging(mut self, input: &str, step: Step) -> World {
        self.hangs.push((input.to_string(), step));
        self
    }

    fn scripted(&self, input: &str, step: Step) -> Option<StageResult> {
        self.fails.iter().find(|(i, s, _)| i == input && *s == step).map(|(_, _, r)| *r)
    }

    /// What the tools of a step write, as far as they get.
    fn writes(&self, names: &ArtifactSet, step: Step) -> Vec<String> {
        let paths: Vec<&str> = match step {
            Step::AudioDemux => vec![names.raw_audio()],
            Step::AudioEncode => vec![names.audio()],
            Step::VideoDemux => vec![names.raw_video()],
            Step::PassOne => vec![names.bitstream(), names.stats()],
            Step::PassTwo => vec![names.bitstream()],
            Step::Chapters => {
                if self.with_chapters {
                    vec![names.chapters()]
                } else {
                    vec![]
                }
            }
            Step::Mux => vec![names.output()],
        };
        paths.into_iter().map(|p| p.to_string()).collect()
    }

    /// Runs one stage through the launch protocol.
    fn run_stage(
        &mut self,
        input: &str,
        names: &ArtifactSet,
        step: Step,
        plan: &StagePlan,
    ) -> StageResult {
        let scripted = self.scripted(input, step);
        let mut runner = StageRunner::start(plan);
        loop {
            let event = match runner.action() {
                RunnerAction::Finish(result) => {
                    assert!(self.live.is_empty());
                    return result;
                }
                RunnerAction::Spawn(role) => {
                    let call = plan.invocation(role).unwrap();
                    assert!(!self.live.contains(&role));
                    let decides = role != Role::Producer;
                    if decides && scripted == Some(StageResult::LaunchFailure) {
                        RunnerEvent::SpawnFailed
                    } else {
                        self.live.push(role);
                        let mut line = vec![call.program.clone()];
                        line.extend(call.args.iter().cloned());
                        self.launched.push((input.to_string(), step, line));
                        RunnerEvent::Spawned
                    }
                }
                RunnerAction::Kill(role) => {
                    assert!(self.live.contains(&role));
                    self.killed.push(role);
                    self.kills += 1;
                    RunnerEvent::Killed
                }
                RunnerAction::Reap(role) => {
                    assert!(self.live.contains(&role));
                    assert!(self.killed.contains(&role));
                    self.live.retain(|r| *r != role);
                    self.killed.retain(|r| *r != role);
                    RunnerEvent::Exited { success: false }
                }
                RunnerAction::Wait(role) => {
                    assert!(self.live.contains(&role));
                    let hangs = self.hangs.iter().any(|(i, s)| i == input && *s == step);
                    if hangs && role != Role::Producer {
                        for path in self.writes(names, step) {
                            self.files.insert(path);
                        }
                        runner.step(RunnerEvent::TimedOut);
                        continue;
                    }
                    self.live.retain(|r| *r != role);
                    if role == Role::Producer {
                        RunnerEvent::Exited { success: true }
                    } else {
                        for path in self.writes(names, step) {
                            self.files.insert(path);
                        }
                        RunnerEvent::Exited { success: scripted != Some(StageResult::Failed) }
                    }
                }
            };
            runner.step(event);
        }
    }

    /// Runs the pipeline of one file to its end.
    fn run_file(&mut self, policy: PipelinePolicy, input: &str) -> FileOutcome {
        let media = MediaFile::new(input.to_string()).unwrap();
        let (mut engine, mut directive) = PipelineEngine::new(policy, media);
        loop {
            if let Some(message) = directive.diagnostic {
                self.diagnostics.push((input.to_string(), message));
            }
            for path in &directive.removals {
                self.files.remove(path);
            }
            match &directive.next {
                Next::Finished(outcome) => return *outcome,
                Next::Run { step, plan, probe } => {
                    let result = self.run_stage(input, engine.artifacts(), *step, plan);
                    let artifact = match probe {
                        Some(path) if self.files.contains(path) => Artifact::Filled,
                        _ => Artifact::Absent,
                    };
                    directive = engine.step(Report { result, artifact });
                }
            }
        }
    }

    /// Runs a whole batch and gives its exit code and the produced outputs.
    fn run_batch(&mut self, policy: PipelinePolicy, inputs: &[&str]) -> (u8, Vec<usize>) {
        let mut batch = BatchEngine::new(policy.continuation, inputs.len());
        let mut step = batch.pending();
        loop {
            match step {
                BatchStep::Done { exit_code } => return (exit_code, batch.produced().clone()),
                BatchStep::Process(i) => {
                    let outcome = self.run_file(policy, inputs[i]);
                    step = batch.record(outcome);
                }
            }
        }
    }

    fn names(&self) -> Vec<&str> {
        self.files.iter().map(|f| f.as_str()).collect()
    }
}

fn policy(realization: Realization, continuation: Continuation) -> PipelinePolicy {
    PipelinePolicy {
        preset: 4,
        rate: 30,
        framerate: None,
        trial: false,
        realization,
        continuation,
        stage_limit: None,
    }
}

fn best_effort() -> PipelinePolicy {
    policy(Realization::Piped, Continuation::BestEffort)
}

const INTERMEDIATE_ENDINGS: [&str; 6] = [".opus", ".ivf", ".stats", ".xml", ".wav", ".y4m"];

fn intermediates_left(world: &World) -> Vec<&str> {
    world
        .names()
        .into_iter()
        .filter(|f| INTERMEDIATE_ENDINGS.iter().any(|ending| f.ends_with(ending)))
        .collect()
}

#[test]
fn three_files_of_which_the_second_fails_at_the_first_pass() {
    let inputs = ["/d/one.mkv", "/d/two.mkv", "/d/three.mkv"];
    let mut world = World::new(&inputs).failing("/d/two.mkv", Step::PassOne, StageResult::Failed);
    let (exit_code, produced) = world.run_batch(best_effort(), &inputs);
    assert_eq!(exit_code, 0);
    assert_eq!(produced, vec![0, 2]);
    assert_eq!(
        world.names(),
        vec!["/d/one-out.mkv", "/d/one.mkv", "/d/three-out.mkv", "/d/three.mkv", "/d/two.mkv"]
    );
    assert!(intermediates_left(&world).is_empty());
    assert_eq!(
        world.diagnostics,
        vec![(
            "/d/two.mkv".to_string(),
            Diagnostic::StageFailed {
                stage: Stage::VideoPassOneEncode,
                cause: FailureCause::ExitStatus,
            }
        )]
    );
}

#[test]
fn the_same_three_files_under_fail_fast() {
    let inputs = ["/d/one.mkv", "/d/two.mkv", "/d/three.mkv"];
    let mut world = World::new(&inputs).failing("/d/two.mkv", Step::PassOne, StageResult::Failed);
    let strict = policy(Realization::Piped, Continuation::FailFast);
    let (exit_code, produced) = world.run_batch(strict, &inputs);
    assert_eq!(exit_code, 1);
    assert_eq!(produced, vec![0]);
    assert_eq!(
        world.names(),
        vec!["/d/one-out.mkv", "/d/one.mkv", "/d/three.mkv", "/d/two.mkv"]
    );
    assert!(world.launched.iter().all(|(input, _, _)| input != "/d/three.mkv"));
}

#[test]
fn a_failure_at_any_step_leaves_the_input_and_nothing_else() {
    for realization in [Realization::Piped, Realization::FileBacked] {
        for step in [
            Step::AudioDemux,
            Step::AudioEncode,
            Step::VideoDemux,
            Step::PassOne,
            Step::PassTwo,
            Step::Chapters,
            Step::Mux,
        ] {
            for result in [StageResult::Failed, StageResult::LaunchFailure] {
                let occurs = realization == Realization::FileBacked
                    || (step != Step::AudioDemux && step != Step::VideoDemux);
                let fails = occurs && !(step == Step::Chapters && result == StageResult::Failed);
                let mut world = World::new(&["/d/in.mkv", "/d/other.txt"])
                    .failing("/d/in.mkv", step, result);
                let outcome =
                    world.run_file(policy(realization, Continuation::BestEffort), "/d/in.mkv");
                if fails {
                    assert_eq!(outcome, FileOutcome::Failed);
                    assert_eq!(world.names(), vec!["/d/in.mkv", "/d/other.txt"]);
                    assert_eq!(world.diagnostics.len(), 1);
                } else {
                    assert_eq!(outcome, FileOutcome::Completed);
                    assert_eq!(world.names(), vec!["/d/in-out.mkv", "/d/in.mkv", "/d/other.txt"]);
                    assert!(world.diagnostics.is_empty());
                }
                assert!(world.live.is_empty());
            }
        }
    }
}

#[test]
fn a_tool_that_hangs_is_killed_and_its_file_cleaned_up() {
    for realization in [Realization::Piped, Realization::FileBacked] {
        for step in [Step::AudioEncode, Step::PassOne, Step::PassTwo, Step::Chapters, Step::Mux] {
            let mut limited = policy(realization, Continuation::BestEffort);
            limited.stage_limit = Some(1);
            let inputs = ["/d/a.mkv", "/d/b.mkv"];
            let mut world = World::new(&inputs).hanging("/d/a.mkv", step);
            let (exit_code, produced) = world.run_batch(limited, &inputs);
            assert_eq!(exit_code, 0);
            assert_eq!(produced, vec![1]);
            assert_eq!(world.names(), vec!["/d/a.mkv", "/d/b-out.mkv", "/d/b.mkv"]);
            assert!(world.live.is_empty());
            assert!(world.killed.is_empty());
            assert_eq!(world.kills, 1);
            assert_eq!(
                world.diagnostics,
                vec![(
                    "/d/a.mkv".to_string(),
                    Diagnostic::StageFailed {
                        stage: step.stage_of(),
                        cause: FailureCause::TimedOut
                    }
                )]
            );
        }
    }
}

#[test]
fn stale_intermediates_of_an_earlier_run_are_swept() {
    let mut world = World::new(&[
        "/d/in.mkv",
        "/d/in.opus",
        "/d/in.ivf",
        "/d/in.stats",
        "/d/in.xml",
        "/d/in-out.mkv",
    ])
    .failing("/d/in.mkv", Step::AudioEncode, StageResult::LaunchFailure);
    assert_eq!(world.run_file(best_effort(), "/d/in.mkv"), FileOutcome::Failed);
    assert_eq!(world.names(), vec!["/d/in-out.mkv", "/d/in.mkv"]);
}

#[test]
fn a_failed_final_step_takes_the_partial_output_with_it() {
    let mut world = World::new(&["/d/in.mkv"]).failing("/d/in.mkv", Step::Mux, StageResult::Failed);
    assert_eq!(world.run_file(best_effort(), "/d/in.mkv"), FileOutcome::Failed);
    assert_eq!(world.names(), vec!["/d/in.mkv"]);
}

#[test]
fn running_twice_leaves_the_same_files() {
    for realization in [Realization::Piped, Realization::FileBacked] {
        let p = policy(realization, Continuation::BestEffort);
        let inputs = ["/d/a.mkv", "/d/b.mkv"];
        let mut world = World::new(&inputs);
        assert_eq!(world.run_batch(p, &inputs), (0, vec![0, 1]));
        let once: Vec<String> = world.names().into_iter().map(|f| f.to_string()).collect();
        assert_eq!(once, vec!["/d/a-out.mkv", "/d/a.mkv", "/d/b-out.mkv", "/d/b.mkv"]);
        assert_eq!(world.run_batch(p, &inputs), (0, vec![0, 1]));
        assert_eq!(world.names(), once);
    }
}

#[test]
fn an_input_without_chapters_is_muxed_without_the_flag() {
    let mut world = World::new(&["/d/in.mkv"]);
    world.with_chapters = false;
    assert_eq!(world.run_file(best_effort(), "/d/in.mkv"), FileOutcome::Completed);
    let mux = world.launched.iter().find(|(_, step, _)| *step == Step::Mux).unwrap();
    assert_eq!(mux.2, vec!["mkvmerge", "/d/in.ivf", "/d/in.opus", "-o", "/d/in-out.mkv"]);
    assert_eq!(world.names(), vec!["/d/in-out.mkv", "/d/in.mkv"]);
}

#[test]
fn an_input_with_chapters_is_muxed_with_flag_and_file() {
    let mut world = World::new(&["/d/in.mkv"]);
    assert_eq!(world.run_file(best_effort(), "/d/in.mkv"), FileOutcome::Completed);
    let mux = world.launched.iter().find(|(_, step, _)| *step == Step::Mux).unwrap();
    assert_eq!(
        mux.2,
        vec![
            "mkvmerge",
            "/d/in.ivf",
            "/d/in.opus",
            "-o",
            "/d/in-out.mkv",
            "--chapters",
            "/d/in.xml",
        ]
    );
}

#[test]
fn the_second_pass_is_never_launched_after_a_failed_first_pass() {
    for result in [StageResult::Failed, StageResult::LaunchFailure] {
        let mut world = World::new(&["/d/in.mkv"]).failing("/d/in.mkv", Step::PassOne, result);
        world.run_file(best_effort(), "/d/in.mkv");
        assert!(world.launched.iter().all(|(_, step, _)| *step != Step::PassTwo));
        assert!(world.launched.iter().all(|(_, step, _)| *step != Step::Chapters));
        assert!(world.launched.iter().all(|(_, step, _)| *step != Step::Mux));
    }
}

#[test]
fn in_trial_mode_both_passes_are_launched_with_the_duration_limit() {
    let mut p = best_effort();
    p.trial = true;
    let mut world = World::new(&["/d/in.mkv"]);
    assert_eq!(world.run_file(p, "/d/in.mkv"), FileOutcome::Completed);
    for pass in [Step::PassOne, Step::PassTwo] {
        let demux: Vec<&Vec<String>> = world
            .launched
            .iter()
            .filter(|(_, step, line)| *step == pass && line[0] == "ffmpeg")
            .map(|(_, _, line)| line)
            .collect();
        assert_eq!(demux.len(), 1);
        assert_eq!(demux[0][6..8], ["-t", "120"]);
    }
    let mut world = World::new(&["/d/in.mkv"]);
    world.run_file(best_effort(), "/d/in.mkv");
    assert!(world.launched.iter().all(|(_, _, line)| !line.contains(&"-t".to_string())));
}

#[test]
fn from_listings_to_outputs() {
    let listings = vec![
        Listing::Entries(vec![
            Entry::Path("/d/one.mkv".to_string()),
            Entry::Path("/d/readme.txt".to_string()),
            Entry::Path("/d/two.mkv".to_string()),
        ]),
        Listing::Unreadable,
    ];
    let found = discover(&listings);
    let inputs: Vec<&str> = found.files.iter().map(|f| f.path()).collect();
    assert_eq!(inputs, vec!["/d/one.mkv", "/d/two.mkv"]);
    let mut world = World::new(&["/d/one.mkv", "/d/readme.txt", "/d/two.mkv"]);
    let (exit_code, produced) = world.run_batch(best_effort(), &inputs);
    assert_eq!(exit_code, 0);
    assert_eq!(produced, vec![0, 1]);
    assert_eq!(
        world.names(),
        vec!["/d/one-out.mkv", "/d/one.mkv", "/d/readme.txt", "/d/two-out.mkv", "/d/two.mkv"]
    );
}
