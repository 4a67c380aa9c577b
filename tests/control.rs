use img_utils::config::{ConfigError, Mode, ProcessConfig};
use img_utils::pipeline::{band_rows, default_stages, step, Action, BandSel, Event, PipelineState};
use img_utils::worker::Filter;

fn config(
    input: Option<&str>,
    output: Option<&str>,
    shared_memory: Option<&str>,
    width: Option<u32>,
    height: Option<u32>,
) -> ProcessConfig {
    ProcessConfig {
        input: input.map(String::from),
        output: output.map(String::from),
        shared_memory: shared_memory.map(String::from),
        width,
        height,
    }
}

fn error_of(c: ProcessConfig) -> Option<ConfigError> {
    c.select_mode().err()
}

#[test]
fn standalone_mode_selected() {
    match config(Some("in.png"), Some("out.png"), None, None, None).select_mode() {
        Ok(Mode::Standalone { input, output }) => {
            assert_eq!(input, "in.png");
            assert_eq!(output, "out.png");
        },
        _ => panic!("expected standalone mode"),
    }
}

#[test]
fn coordinated_mode_selected() {
    match config(None, None, Some("/tmp/region"), Some(2), Some(4)).select_mode() {
        Ok(Mode::Coordinated { shared_memory, width, height }) => {
            assert_eq!(shared_memory, "/tmp/region");
            assert_eq!(width, 2);
            assert_eq!(height, 4);
        },
        _ => panic!("expected coordinated mode"),
    }
}

#[test]
fn width_without_height_rejected() {
    assert_eq!(
        error_of(config(None, None, Some("/tmp/region"), Some(2), None)),
        Some(ConfigError::IncompleteCoordinated)
    );
    assert_eq!(
        error_of(config(None, None, None, None, Some(4))),
        Some(ConfigError::IncompleteCoordinated)
    );
    assert_eq!(
        error_of(config(Some("a"), Some("b"), None, Some(3), None)),
        Some(ConfigError::IncompleteCoordinated)
    );
}

#[test]
fn empty_config_rejected() {
    assert_eq!(error_of(config(None, None, None, None, None)), Some(ConfigError::NoMode));
}

#[test]
fn both_modes_rejected() {
    assert_eq!(
        error_of(config(Some("a"), None, Some("r"), Some(1), Some(1))),
        Some(ConfigError::BothModes)
    );
}

#[test]
fn partial_standalone_rejected() {
    assert_eq!(error_of(config(None, Some("b"), None, None, None)), Some(ConfigError::MissingInput));
    assert_eq!(error_of(config(Some("a"), None, None, None, None)), Some(ConfigError::MissingOutput));
    assert!(ConfigError::MissingInput.message().contains("input"));
}

#[test]
fn stages_assign_bands_to_workers() {
    let stages = default_stages();
    assert_eq!(stages.len(), 2);
    assert_eq!(stages[0].band, BandSel::Top);
    assert_eq!(stages[0].worker, Filter::Blur);
    assert_eq!(stages[1].band, BandSel::Bottom);
    assert_eq!(stages[1].worker, Filter::EdgeDetection);
}

#[test]
fn band_rows_split_at_half() {
    assert_eq!(band_rows(5, BandSel::Top), (0, 2));
    assert_eq!(band_rows(5, BandSel::Bottom), (2, 5));
    assert_eq!(band_rows(4, BandSel::Top), (0, 2));
    assert_eq!(band_rows(1, BandSel::Top), (0, 0));
    assert_eq!(band_rows(1, BandSel::Bottom), (0, 1));
    assert_eq!(band_rows(0, BandSel::Bottom), (0, 0));
}

#[test]
fn pipeline_runs_stages_in_order() {
    let (s, a) = step(PipelineState::Idle, Event::Start, 2);
    assert_eq!(a, Action::Launch { stage: 0 });
    let (s, a) = step(s, Event::WorkerExited { success: true }, 2);
    assert_eq!(a, Action::Launch { stage: 1 });
    let (s, a) = step(s, Event::WorkerExited { success: true }, 2);
    assert_eq!(a, Action::Collect);
    assert_eq!(s, PipelineState::Done);
}

#[test]
fn pipeline_aborts_on_failure() {
    let (s, _) = step(PipelineState::Idle, Event::Start, 2);
    let (s, a) = step(s, Event::WorkerExited { success: false }, 2);
    assert_eq!(a, Action::Abort { stage: 0 });
    assert_eq!(s, PipelineState::Failed { stage: 0 });
    let (s2, a) = step(s, Event::WorkerExited { success: true }, 2);
    assert_eq!(a, Action::Ignore);
    assert_eq!(s2, s);
}

#[test]
fn pipeline_without_stages_collects_at_once() {
    assert_eq!(step(PipelineState::Idle, Event::Start, 0), (PipelineState::Done, Action::Collect));
    assert_eq!(
        step(PipelineState::Idle, Event::WorkerExited { success: true }, 2),
        (PipelineState::Idle, Action::Ignore)
    );
}
