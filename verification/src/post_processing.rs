//! The post-processing pipeline of a completed download: which stages run
//! for a mode, in which order and on which paths, and what each stage
//! decides from the results of verification, repair, extraction, moving and
//! cleanup.
//!
//! The stages themselves touch the disk and run external tools; the runner
//! performs each action that [`Pipeline`] hands out and reports its result
//! back.
pub mod stages;
pub mod par2_files;
pub mod cleanup;

use vstd::prelude::*;
use crate::error::Error;

verus! {

/// Post-processing mode of a download.
#[derive(Debug, Clone, Copy, PartialEq, Eq, Structural)]
pub enum PostProcess {
    /// No post-processing.
    Off,
    /// PAR2 verification only.
    Verify,
    /// Verification, then repair.
    Repair,
    /// Verification, repair and extraction.
    Unpack,
    /// Verification, repair, extraction, move and cleanup.
    UnpackAndCleanup,
}

/// A stage of the pipeline.
#[derive(Debug, Clone, Copy, PartialEq, Eq, Structural)]
pub enum Stage {
    /// PAR2 verification.
    Verify,
    /// PAR2 repair.
    Repair,
    /// Archive extraction.
    Extract,
    /// Move to the final destination.
    Move,
    /// Removal of intermediate files.
    Cleanup,
}

/// The stages a mode runs, in order.
pub open spec fn spec_stages(mode: PostProcess) -> Seq<Stage> {
    match mode {
        PostProcess::Off => seq![],
        PostProcess::Verify => seq![Stage::Verify],
        PostProcess::Repair => seq![Stage::Verify, Stage::Repair],
        PostProcess::Unpack => seq![Stage::Verify, Stage::Repair, Stage::Extract],
        PostProcess::UnpackAndCleanup => seq![
            Stage::Verify,
            Stage::Repair,
            Stage::Extract,
            Stage::Move,
            Stage::Cleanup,
        ],
    }
}

/// The stages re-extraction runs: extraction and move, without
/// verification or repair.
pub open spec fn spec_reextract_stages() -> Seq<Stage> {
    seq![Stage::Extract, Stage::Move]
}

/// The stages a mode runs, in order.
pub fn pipeline_stages(mode: PostProcess) -> (r: Vec<Stage>)
    ensures
        r@ == spec_stages(mode),
{
    match mode {
        PostProcess::Off => Vec::new(),
        PostProcess::Verify => vec![Stage::Verify],
        PostProcess::Repair => vec![Stage::Verify, Stage::Repair],
        PostProcess::Unpack => vec![Stage::Verify, Stage::Repair, Stage::Extract],
        PostProcess::UnpackAndCleanup => vec![
            Stage::Verify,
            Stage::Repair,
            Stage::Extract,
            Stage::Move,
            Stage::Cleanup,
        ],
    }
}

/// What the runner is to do next.
#[derive(Debug)]
pub enum PipelineAction {
    /// Run the verify stage on the download directory.
    Verify(String),
    /// Run the repair stage on the download directory.
    Repair(String),
    /// Run the extract stage on the download directory; it reports the
    /// directory holding the extracted files.
    Extract(String),
    /// Move `source` to `destination`; it reports the final path.
    Move {
        /// What to move.
        source: String,
        /// Where to.
        destination: String,
    },
    /// Run the cleanup stage on the download directory.
    Cleanup(String),
    /// The pipeline succeeded with this final path.
    Finish(String),
    /// The pipeline failed with this error.
    Fail(Error),
}

/// What a stage reported.
#[derive(Debug)]
pub enum StageResult {
    /// The stage succeeded.
    Done,
    /// The stage succeeded and produced this path (extraction directory,
    /// final destination).
    Produced(String),
    /// The stage failed.
    Failed(Error),
}

/// The progress of one run of the pipeline.
#[derive(Debug)]
pub struct Pipeline {
    /// The stages to run, in order.
    pub stages: Vec<Stage>,
    /// Index of the stage under way; the number of stages once finished.
    pub next: usize,
    /// The download directory.
    pub download_path: String,
    /// The final destination.
    pub destination: String,
    /// The path the pipeline ends with so far: the download directory, then
    /// what extraction and moving produced.
    pub current: String,
}

/// The action that runs `stage`.
pub open spec fn is_stage_action(
    a: PipelineAction,
    stage: Stage,
    download: Seq<char>,
    current: Seq<char>,
    destination: Seq<char>,
) -> bool {
    match stage {
        Stage::Verify => a matches PipelineAction::Verify(p) && p@ == download,
        Stage::Repair => a matches PipelineAction::Repair(p) && p@ == download,
        Stage::Extract => a matches PipelineAction::Extract(p) && p@ == download,
        Stage::Move => a matches PipelineAction::Move { source, destination: d } && source@
            == current && d@ == destination,
        Stage::Cleanup => a matches PipelineAction::Cleanup(p) && p@ == download,
    }
}

/// The action of a pipeline in the given state: the stage under way, or
/// finishing with the current path once every stage ran.
pub open spec fn is_next_action(a: PipelineAction, p: Pipeline) -> bool {
    if p.next < p.stages@.len() {
        is_stage_action(a, p.stages@[p.next as int], p.download_path@, p.current@, p.destination@)
    } else {
        a matches PipelineAction::Finish(f) && f@ == p.current@
    }
}

impl Pipeline {
    /// The pipeline is well formed: the stage under way is one of its stages.
    pub open spec fn wf(&self) -> bool {
        self.next <= self.stages@.len()
    }

    /// The pipeline still runs a stage.
    pub open spec fn running(&self) -> bool {
        self.next < self.stages@.len()
    }

    /// The action for the current state.
    fn action(&self) -> (r: PipelineAction)
        requires
            self.wf(),
        ensures
            is_next_action(r, *self),
    {
        if self.next < self.stages.len() {
            match self.stages[self.next] {
                Stage::Verify => PipelineAction::Verify(self.download_path.clone()),
                Stage::Repair => PipelineAction::Repair(self.download_path.clone()),
                Stage::Extract => PipelineAction::Extract(self.download_path.clone()),
                Stage::Move => PipelineAction::Move {
                    source: self.current.clone(),
                    destination: self.destination.clone(),
                },
                Stage::Cleanup => PipelineAction::Cleanup(self.download_path.clone()),
            }
        } else {
            PipelineAction::Finish(self.current.clone())
        }
    }

    /// Starts post-processing `download_path` in the given mode towards
    /// `destination`: the first stage of the mode, or, for a mode without
    /// stages, finishing at once with the download directory.
    pub fn start_post_processing(
        download_path: &str,
        mode: PostProcess,
        destination: &str,
    ) -> (r: (Pipeline, PipelineAction))
        ensures
            r.0.wf(),
            r.0.stages@ == spec_stages(mode),
            r.0.next == 0,
            r.0.download_path@ == download_path@,
            r.0.destination@ == destination@,
            r.0.current@ == download_path@,
            is_next_action(r.1, r.0),
    {
        let p = Pipeline {
            stages: pipeline_stages(mode),
            next: 0,
            download_path: download_path.to_string(),
            destination: destination.to_string(),
            current: download_path.to_string(),
        };
        let a = p.action();
        (p, a)
    }

    /// Starts re-extracting `download_path` towards `destination`:
    /// extraction and move only.
    pub fn reextract(download_path: &str, destination: &str) -> (r: (Pipeline, PipelineAction))
        ensures
            r.0.wf(),
            r.0.stages@ == spec_reextract_stages(),
            r.0.next == 0,
            r.0.download_path@ == download_path@,
            r.0.destination@ == destination@,
            r.0.current@ == download_path@,
            is_next_action(r.1, r.0),
    {
        let p = Pipeline {
            stages: vec![Stage::Extract, Stage::Move],
            next: 0,
            download_path: download_path.to_string(),
            destination: destination.to_string(),
            current: download_path.to_string(),
        };
        let a = p.action();
        (p, a)
    }

    /// Takes what the stage under way reported: a failure ends the pipeline
    /// with that error; a success moves to the next stage (a produced path
    /// becomes the current path), or finishes with the current path after
    /// the last stage.
    pub fn step(&mut self, result: StageResult) -> (r: PipelineAction)
        requires
            old(self).wf(),
            old(self).running(),
        ensures
            final(self).wf(),
            final(self).stages@ == old(self).stages@,
            final(self).download_path == old(self).download_path,
            final(self).destination == old(self).destination,
            match result {
                StageResult::Failed(e) => r == PipelineAction::Fail(e) && final(self).next
                    == old(self).stages@.len() && final(self).current == old(self).current,
                StageResult::Done => final(self).next == old(self).next + 1 && final(self).current
                    == old(self).current && is_next_action(r, *final(self)),
                StageResult::Produced(p) => final(self).next == old(self).next + 1
                    && final(self).current == p && is_next_action(r, *final(self)),
            },
    {
        let total = self.stages.len();
        match result {
            StageResult::Failed(e) => {
                self.next = total;
                PipelineAction::Fail(e)
            },
            StageResult::Done => {
                self.next = self.next + 1;
                self.action()
            },
            StageResult::Produced(p) => {
                self.next = self.next + 1;
                self.current = p;
                self.action()
            },
        }
    }
}


/// The last path produced among the results, or `start` when none was.
pub open spec fn last_produced(results: Seq<StageResult>, start: String) -> String
    decreases results.len(),
{
    if results.len() == 0 {
        start
    } else {
        match results.last() {
            StageResult::Produced(path) => path,
            _ => last_produced(results.drop_last(), start),
        }
    }
}

/// What [`Pipeline::step`] promises for a success: the pipeline `q` follows
/// `p` after `result`.
pub open spec fn step_success(p: Pipeline, result: StageResult, q: Pipeline) -> bool {
    &&& q.stages@ == p.stages@
    &&& q.download_path == p.download_path
    &&& q.destination == p.destination
    &&& q.next == p.next + 1
    &&& match result {
        StageResult::Produced(path) => q.current == path,
        StageResult::Done => q.current == p.current,
        StageResult::Failed(_) => false,
    }
}

/// `ps` are the states of a pipeline whose stages reported `results` in
/// turn, all successes.
pub open spec fn successful_run(ps: Seq<Pipeline>, results: Seq<StageResult>) -> bool {
    &&& ps.len() == results.len() + 1
    &&& forall|i: int| 0 <= i < results.len() ==> step_success(ps[i], #[trigger] results[i], ps[i + 1])
}

/// A pipeline whose stages all succeed runs each of its stages once, in
/// order, and finishes with the last path a stage produced: the download
/// directory when none did, the extraction directory after extraction, the
/// final destination after a move.
pub proof fn lemma_pipeline_runs_to_end(ps: Seq<Pipeline>, results: Seq<StageResult>)
    requires
        ps.len() > 0,
        ps[0].next == 0,
        results.len() == ps[0].stages@.len(),
        successful_run(ps, results),
    ensures
        ps.last().next == ps[0].stages@.len(),
        ps.last().current == last_produced(results, ps[0].current),
        forall|a: PipelineAction|
            is_next_action(a, ps.last()) <==> (a matches PipelineAction::Finish(f) && f@
                == last_produced(results, ps[0].current)@),
{
    lemma_successful_prefix(ps, results, results.len() as int);
    assert(results.take(results.len() as int) =~= results);
    assert(ps.last() == ps[results.len() as int]);
}

/// After `k` successes the pipeline is at stage `k` with the last path
/// produced so far.
proof fn lemma_successful_prefix(ps: Seq<Pipeline>, results: Seq<StageResult>, k: int)
    requires
        ps.len() > 0,
        successful_run(ps, results),
        0 <= k <= results.len(),
    ensures
        ps[k].next == ps[0].next + k,
        ps[k].stages@ == ps[0].stages@,
        ps[k].current == last_produced(results.take(k), ps[0].current),
    decreases k,
{
    if k > 0 {
        lemma_successful_prefix(ps, results, k - 1);
        assert(results.take(k).drop_last() =~= results.take(k - 1));
        assert(step_success(ps[k - 1], results[k - 1], ps[k]));
    } else {
        assert(results.take(0) =~= Seq::<StageResult>::empty());
    }
}

} // verus!
