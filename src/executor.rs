//! The build protocol of one task, as a state machine. The machine decides;
//! its driver performs each returned action on the filesystem or with the
//! converter and reports back what came of it.

use vstd::prelude::*;
use crate::config::{
    clone_strings, opt_view, out_root, reference_candidate, strings_view, try_get_reference_doc,
    RuntimeConfiguration, Task,
};
use crate::error::BuildError;
use crate::paths::{extension, extension_spec, file_name, file_name_spec, join, join_spec};
use crate::snapshot::{EntrySpec, Snapshot};
use crate::staleness::{prior_view, rebuild_needed, should_rebuild};

verus! {

/// The file, in each target directory, that records the snapshot its
/// outputs were last built from.
pub open spec fn sidecar_name() -> Seq<char> {
    ".snapshot"@
}

/// The directory an output is built in: the task's build path joined with
/// the output's extension; none when the output has no extension.
pub open spec fn target_dir_spec(build_path: Seq<char>, output: Seq<char>) -> Option<Seq<char>> {
    match extension_spec(output) {
        Some(e) => Some(join_spec(build_path, e)),
        None => None,
    }
}

/// The directory in which `output` is built under `build_path`.
pub fn build_target_path(build_path: &str, output: &str) -> (r: Result<String, BuildError>)
    ensures
        match target_dir_spec(build_path@, output@) {
            Some(d) => r matches Ok(p) && p@ == d,
            None => r == Err::<String, BuildError>(BuildError::MissingExtension),
        },
{
    match extension(output) {
        Some(e) => Ok(join(build_path, e)),
        None => Err(BuildError::MissingExtension),
    }
}

/// The paths an output involves.
pub struct Target {
    /// The target directory.
    pub dir: String,
    /// The rendered file.
    pub artifact: String,
    /// The snapshot sidecar.
    pub sidecar: String,
}

/// Whether `t` holds the paths of `output` built under `build_path`.
pub open spec fn target_of(t: Target, build_path: Seq<char>, output: Seq<char>) -> bool {
    target_dir_spec(build_path, output) == Some(t.dir@) && t.artifact@ == join_spec(
        t.dir@,
        file_name_spec(output),
    ) && t.sidecar@ == join_spec(t.dir@, sidecar_name())
}

/// Where a task run stands.
#[derive(Clone, Copy, Debug, PartialEq, Eq, Structural)]
pub enum Phase {
    /// About to take up the output at the current position.
    Opening,
    /// Waiting for what is on disk for the current output.
    Inspecting,
    /// Waiting for the converter's outcome.
    Converting,
    /// Waiting for the new snapshot to be stored.
    Recording,
    /// The run is over.
    Finished,
}

/// What the driver is to do next.
pub enum Action {
    /// Create `target.dir` if it is absent, then report the snapshot stored
    /// at `target.sidecar` (if there is one), whether `target.artifact`
    /// exists and whether `reference` exists.
    Inspect { target: Target, reference: String },
    /// Run the converter on `inputs`, writing `output`, styled by
    /// `reference_doc` when there is one.
    Convert { inputs: Vec<String>, output: String, reference_doc: Option<String> },
    /// Report `output` as produced and store `snapshot` at `sidecar`.
    Record { output: String, sidecar: String, snapshot: Snapshot },
    /// Every output of the task is up to date.
    Done,
    /// The task fails.
    Fail(BuildError),
    /// The converter failed on `output`: report it and end the whole run
    /// with status 1, leaving the stored snapshot as it was.
    Abort { output: String },
}

/// The paths of a snapshot's entries, in order.
pub open spec fn snapshot_paths(s: Seq<EntrySpec>) -> Seq<Seq<char>> {
    s.map_values(|e: EntrySpec| e.0)
}

/// One task being built.
pub struct TaskRun {
    pub build_path: String,
    pub outputs: Vec<String>,
    pub sources: Snapshot,
    pub position: usize,
    pub phase: Phase,
    pub target: Target,
}

/// The step that takes up the output at `pos` of `run`'s task, leaving the
/// run as `post` with action `a`: past the last output the task is done; an
/// output without extension fails the task; any other is inspected.
pub open spec fn opened(
    c: &RuntimeConfiguration,
    run: TaskRun,
    pos: int,
    post: TaskRun,
    a: Action,
) -> bool {
    &&& post.build_path@ == run.build_path@
    &&& post.outputs@ == run.outputs@
    &&& post.sources@ == run.sources@
    &&& post.position == pos
    &&& if pos >= run.outputs@.len() {
        post.phase == Phase::Finished && a is Done
    } else {
        let out = run.outputs@[pos]@;
        match target_dir_spec(run.build_path@, out) {
            None => post.phase == Phase::Finished && a == Action::Fail(BuildError::MissingExtension),
            Some(_) => {
                &&& post.phase == Phase::Inspecting
                &&& target_of(post.target, run.build_path@, out)
                &&& a matches Action::Inspect { target, reference } && target.dir@
                    == post.target.dir@ && target.artifact@ == post.target.artifact@
                    && target.sidecar@ == post.target.sidecar@ && reference@
                    == reference_candidate(c)
            },
        }
    }
}

impl TaskRun {
    /// The run's internal consistency: the position is within the outputs
    /// while the run waits on one, and the target is that output's.
    pub open spec fn wf(&self) -> bool {
        &&& self.position <= self.outputs@.len()
        &&& (self.phase == Phase::Inspecting || self.phase == Phase::Converting || self.phase == Phase::Recording)
            ==> self.position < self.outputs@.len() && target_of(
            self.target,
            self.build_path@,
            self.outputs@[self.position as int]@,
        )
    }

    /// A run of `task` whose sources have the snapshot `sources`.
    pub fn new(task: &Task, configuration: &RuntimeConfiguration, sources: Snapshot) -> (r: TaskRun)
        ensures
            r.wf(),
            r.build_path@ == join_spec(out_root(configuration), task.source@),
            strings_view(r.outputs@) == strings_view(task.outputs@),
            r.sources@ == sources@,
            r.position == 0,
            r.phase == Phase::Opening,
    {
        TaskRun {
            build_path: configuration.build_path(task.source.as_str()),
            outputs: clone_strings(&task.outputs),
            sources,
            position: 0,
            phase: Phase::Opening,
            target: Target { dir: String::new(), artifact: String::new(), sidecar: String::new() },
        }
    }

    /// Takes up the output at the current position, or ends the run.
    fn open(&mut self, configuration: &RuntimeConfiguration) -> (r: Action)
        requires
            old(self).position <= old(self).outputs@.len(),
        ensures
            final(self).wf(),
            opened(configuration, *old(self), old(self).position as int, *final(self), r),
    {
        if self.position >= self.outputs.len() {
            self.phase = Phase::Finished;
            return Action::Done;
        }
        let output = self.outputs[self.position].as_str();
        match build_target_path(self.build_path.as_str(), output) {
            Err(e) => {
                self.phase = Phase::Finished;
                Action::Fail(e)
            },
            Ok(dir) => {
                let artifact = join(dir.as_str(), file_name(output));
                proof {
                    reveal_strlit(".snapshot");
                }
                let sidecar = join(dir.as_str(), ".snapshot");
                let target = Target {
                    dir: dir.clone(),
                    artifact: artifact.clone(),
                    sidecar: sidecar.clone(),
                };
                self.target = Target { dir, artifact, sidecar };
                self.phase = Phase::Inspecting;
                Action::Inspect { target, reference: configuration.reference_doc_candidate() }
            },
        }
    }

    /// Starts the run on its first output.
    pub fn start(&mut self, configuration: &RuntimeConfiguration) -> (r: Action)
        requires
            old(self).wf(),
            old(self).phase == Phase::Opening,
        ensures
            final(self).wf(),
            opened(configuration, *old(self), old(self).position as int, *final(self), r),
    {
        self.open(configuration)
    }

    /// Takes in what is on disk for the current output: the snapshot stored
    /// in its sidecar, whether its artifact exists and whether the reference
    /// document's candidate path exists. An up-to-date output is passed over
    /// and the next one taken up; a stale one is converted, unless a
    /// configured reference document is missing.
    pub fn inspected(
        &mut self,
        configuration: &RuntimeConfiguration,
        prior: Option<&Snapshot>,
        artifact_exists: bool,
        reference_exists: bool,
    ) -> (r: Action)
        requires
            old(self).wf(),
            old(self).phase == Phase::Inspecting,
        ensures
            final(self).wf(),
            !rebuild_needed(prior_view(prior), old(self).sources@, artifact_exists)
                ==> opened(
                configuration,
                *old(self),
                old(self).position + 1,
                *final(self),
                r,
            ),
            rebuild_needed(prior_view(prior), old(self).sources@, artifact_exists)
                ==> if !reference_exists && configuration.configuration.reference_doc is Some {
                &&& final(self).phase == Phase::Finished
                &&& r == Action::Fail(BuildError::MissingReferenceDocument)
            } else {
                &&& final(self).phase == Phase::Converting
                &&& final(self).position == old(self).position
                &&& final(self).target == old(self).target
                &&& final(self).build_path == old(self).build_path
                &&& final(self).outputs == old(self).outputs
                &&& final(self).sources@ == old(self).sources@
                &&& r matches Action::Convert { inputs, output, reference_doc } && strings_view(
                    inputs@,
                ) == snapshot_paths(old(self).sources@) && output@ == old(self).target.artifact@
                    && opt_view(reference_doc) == (if reference_exists {
                    Some(reference_candidate(configuration))
                } else {
                    None
                })
            },
    {
        let count: usize = self.outputs.len();
        if !should_rebuild(prior, &self.sources, artifact_exists) {
            assert(self.position < count);
            self.position = self.position + 1;
            return self.open(configuration);
        }
        match try_get_reference_doc(configuration, reference_exists) {
            Err(e) => {
                self.phase = Phase::Finished;
                Action::Fail(e)
            },
            Ok(reference_doc) => {
                let inputs = self.sources.args();
                proof {
                    assert(strings_view(inputs@) =~= snapshot_paths(self.sources@));
                }
                self.phase = Phase::Converting;
                Action::Convert { inputs, output: self.target.artifact.clone(), reference_doc }
            },
        }
    }

    /// Takes in whether the converter succeeded on the current output. On
    /// success the sources' snapshot is to be recorded; on failure the run
    /// is aborted and nothing is recorded.
    pub fn converted(&mut self, success: bool) -> (r: Action)
        requires
            old(self).wf(),
            old(self).phase == Phase::Converting,
        ensures
            final(self).wf(),
            final(self).position == old(self).position,
            final(self).target == old(self).target,
            final(self).build_path == old(self).build_path,
            final(self).outputs == old(self).outputs,
            final(self).sources@ == old(self).sources@,
            success ==> final(self).phase == Phase::Recording,
            success ==> (r matches Action::Record { output, sidecar, snapshot } && output@ == old(
                self,
            ).outputs@[old(self).position as int]@ && sidecar@ == old(self).target.sidecar@
                && snapshot@ == old(self).sources@),
            !success ==> final(self).phase == Phase::Finished,
            !success ==> (r matches Action::Abort { output } && output@ == old(
                self,
            ).outputs@[old(self).position as int]@),
    {
        let output = self.outputs[self.position].clone();
        if success {
            self.phase = Phase::Recording;
            Action::Record {
                output,
                sidecar: self.target.sidecar.clone(),
                snapshot: self.sources.duplicate(),
            }
        } else {
            self.phase = Phase::Finished;
            Action::Abort { output }
        }
    }

    /// Takes in that the snapshot was stored, and takes up the next output.
    pub fn recorded(&mut self, configuration: &RuntimeConfiguration) -> (r: Action)
        requires
            old(self).wf(),
            old(self).phase == Phase::Recording,
        ensures
            final(self).wf(),
            opened(configuration, *old(self), old(self).position + 1, *final(self), r),
    {
        let count: usize = self.outputs.len();
        assert(self.position < count);
        self.position = self.position + 1;
        self.open(configuration)
    }
}

/// The directory in which `output` is built under `build_path`, when the
/// output has an extension.
pub open spec fn target_dir_of(build_path: Seq<char>, output: Seq<char>) -> Seq<char> {
    join_spec(build_path, extension_spec(output).unwrap())
}

/// The sidecar that gates `output`.
pub open spec fn sidecar_of(build_path: Seq<char>, output: Seq<char>) -> Seq<char> {
    join_spec(target_dir_of(build_path, output), sidecar_name())
}

/// The rendered file of `output`.
pub open spec fn artifact_of(build_path: Seq<char>, output: Seq<char>) -> Seq<char> {
    join_spec(target_dir_of(build_path, output), file_name_spec(output))
}

/// Whether a run converts `output`, given the snapshots stored in sidecars
/// and the artifacts that exist: what `TaskRun::inspected` decides.
pub open spec fn stale(
    build_path: Seq<char>,
    sources: Seq<EntrySpec>,
    stored: Map<Seq<char>, Seq<EntrySpec>>,
    artifacts: Set<Seq<char>>,
    output: Seq<char>,
) -> bool {
    let sidecar = sidecar_of(build_path, output);
    rebuild_needed(
        if stored.contains_key(sidecar) {
            Some(stored[sidecar])
        } else {
            None
        },
        sources,
        artifacts.contains(artifact_of(build_path, output)),
    )
}

/// The stored snapshots and the artifacts after a run over `outputs` in which
/// every conversion succeeded: each stale output, taken in order, gets its
/// artifact and has the sources' snapshot stored in its sidecar.
pub open spec fn run_result(
    build_path: Seq<char>,
    sources: Seq<EntrySpec>,
    stored: Map<Seq<char>, Seq<EntrySpec>>,
    artifacts: Set<Seq<char>>,
    outputs: Seq<Seq<char>>,
) -> (Map<Seq<char>, Seq<EntrySpec>>, Set<Seq<char>>)
    decreases outputs.len(),
{
    if outputs.len() == 0 {
        (stored, artifacts)
    } else {
        let before = run_result(build_path, sources, stored, artifacts, outputs.drop_last());
        let output = outputs.last();
        if stale(build_path, sources, before.0, before.1, output) {
            (
                before.0.insert(sidecar_of(build_path, output), sources),
                before.1.insert(artifact_of(build_path, output)),
            )
        } else {
            before
        }
    }
}

/// Running a task a second time with nothing changed converts nothing:
/// after a run in which every conversion succeeded, no output of the task is
/// stale.
pub proof fn lemma_rerun_converts_nothing(
    build_path: Seq<char>,
    sources: Seq<EntrySpec>,
    stored: Map<Seq<char>, Seq<EntrySpec>>,
    artifacts: Set<Seq<char>>,
    outputs: Seq<Seq<char>>,
)
    requires
        forall|i: int| 0 <= i < outputs.len() ==> (#[trigger] extension_spec(outputs[i])) is Some,
    ensures
        ({
            let after = run_result(build_path, sources, stored, artifacts, outputs);
            forall|i: int|
                0 <= i < outputs.len() ==> !stale(build_path, sources, after.0, after.1, #[trigger] outputs[i])
        }),
    decreases outputs.len(),
{
    if outputs.len() > 0 {
        let prefix = outputs.drop_last();
        assert forall|i: int| 0 <= i < prefix.len() implies (#[trigger] extension_spec(prefix[i])) is Some by {
            assert(prefix[i] == outputs[i]);
        }
        lemma_rerun_converts_nothing(build_path, sources, stored, artifacts, prefix);
        let before = run_result(build_path, sources, stored, artifacts, prefix);
        let after = run_result(build_path, sources, stored, artifacts, outputs);
        assert forall|i: int| 0 <= i < outputs.len() implies !stale(
            build_path,
            sources,
            after.0,
            after.1,
            #[trigger] outputs[i],
        ) by {
            if i < prefix.len() {
                assert(prefix[i] == outputs[i]);
                assert(!stale(build_path, sources, before.0, before.1, prefix[i]));
            }
        }
    }
}

} // verus!
