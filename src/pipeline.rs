use crate::worker::Filter;
use vstd::prelude::*;

verus! {

/// Which horizontal band of the source a stage works on.
#[derive(Clone, Copy, Debug, PartialEq, Eq, Structural)]
pub enum BandSel {
    /// Rows `[0, height / 2)`.
    Top,
    /// Rows `[height / 2, height)`.
    Bottom,
}

/// One stage of the pipeline: a band and the worker that filters it.
#[derive(Clone, Copy, Debug, PartialEq, Eq, Structural)]
pub struct Stage {
    pub band: BandSel,
    pub worker: Filter,
}

/// Where the orchestrator stands.
#[derive(Clone, Copy, Debug, PartialEq, Eq, Structural)]
pub enum PipelineState {
    /// Nothing launched yet.
    Idle,
    /// The worker of this stage runs; no region is read meanwhile.
    Running { stage: usize },
    /// Every worker exited successfully; the regions may be read.
    Done,
    /// The worker of this stage failed; nothing more runs.
    Failed { stage: usize },
}

/// What the orchestrator hands to it.
#[derive(Clone, Copy, Debug, PartialEq, Eq, Structural)]
pub enum Event {
    Start,
    WorkerExited { success: bool },
}

/// What the orchestrator is to do next.
#[derive(Clone, Copy, Debug, PartialEq, Eq, Structural)]
pub enum Action {
    /// Fill this stage's region and run its worker to completion.
    Launch { stage: usize },
    /// Read every region back and stitch the bands.
    Collect,
    /// Give up: this stage's worker failed.
    Abort { stage: usize },
    /// The event does not fit the state; do nothing.
    Ignore,
}

/// The fixed assignment of bands to workers: the top band is smoothed, the
/// bottom band goes through edge detection.
pub open spec fn default_stages_spec() -> Seq<Stage> {
    seq![
        Stage { band: BandSel::Top, worker: Filter::Blur },
        Stage { band: BandSel::Bottom, worker: Filter::EdgeDetection },
    ]
}

pub fn default_stages() -> (r: Vec<Stage>)
    ensures
        r@ == default_stages_spec(),
{
    let r = vec![
        Stage { band: BandSel::Top, worker: Filter::Blur },
        Stage { band: BandSel::Bottom, worker: Filter::EdgeDetection },
    ];
    assert(r@ =~= default_stages_spec());
    r
}

/// The rows `[y0, y1)` a band covers in a source of `height` rows. The top
/// band has `height / 2` rows and the bottom band the rest.
pub open spec fn band_rows_spec(height: u32, band: BandSel) -> (u32, u32) {
    match band {
        BandSel::Top => (0, height / 2),
        BandSel::Bottom => ((height / 2) as u32, height),
    }
}

pub fn band_rows(height: u32, band: BandSel) -> (r: (u32, u32))
    ensures
        r == band_rows_spec(height, band),
        r.0 <= r.1 <= height,
{
    let half = height / 2;
    match band {
        BandSel::Top => (0, half),
        BandSel::Bottom => (half, height),
    }
}

/// The next state and action after `event` in `state`, for a pipeline of
/// `n` stages run one after the other.
pub open spec fn step_spec(state: PipelineState, event: Event, n: nat) -> (PipelineState, Action) {
    match (state, event) {
        (PipelineState::Idle, Event::Start) => {
            if n == 0 {
                (PipelineState::Done, Action::Collect)
            } else {
                (PipelineState::Running { stage: 0 }, Action::Launch { stage: 0 })
            }
        },
        (PipelineState::Running { stage }, Event::WorkerExited { success }) => {
            if !success {
                (PipelineState::Failed { stage }, Action::Abort { stage })
            } else if stage + 1 < n {
                (
                    PipelineState::Running { stage: (stage + 1) as usize },
                    Action::Launch { stage: (stage + 1) as usize },
                )
            } else {
                (PipelineState::Done, Action::Collect)
            }
        },
        _ => (state, Action::Ignore),
    }
}

/// Decides the orchestrator's next move. Each worker is launched only after
/// the previous one exited successfully, the regions are collected only after
/// the last one did, and a failure stops everything.
pub fn step(state: PipelineState, event: Event, n: usize) -> (r: (PipelineState, Action))
    requires
        state matches PipelineState::Running { stage } ==> stage < n,
    ensures
        r == step_spec(state, event, n as nat),
        r.0 matches PipelineState::Running { stage } ==> stage < n,
{
    match (state, event) {
        (PipelineState::Idle, Event::Start) => {
            if n == 0 {
                (PipelineState::Done, Action::Collect)
            } else {
                (PipelineState::Running { stage: 0 }, Action::Launch { stage: 0 })
            }
        },
        (PipelineState::Running { stage }, Event::WorkerExited { success }) => {
            if !success {
                (PipelineState::Failed { stage }, Action::Abort { stage })
            } else if stage + 1 < n {
                (PipelineState::Running { stage: stage + 1 }, Action::Launch { stage: stage + 1 })
            } else {
                (PipelineState::Done, Action::Collect)
            }
        },
        _ => (state, Action::Ignore),
    }
}

/// Collecting happens exactly when the last stage's worker exits successfully
/// (or at once when there is no stage): no region is read before its writer
/// is known to have finished.
pub proof fn lemma_collect_after_last_success(state: PipelineState, event: Event, n: nat)
    requires
        state matches PipelineState::Running { stage } ==> stage < n,
    ensures
        step_spec(state, event, n).1 == Action::Collect <==> (state == PipelineState::Idle && event
            == Event::Start && n == 0) || (state matches PipelineState::Running { stage } && stage
            + 1 == n && event == (Event::WorkerExited { success: true })),
{
}

} // verus!
