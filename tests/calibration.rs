use roads::calibration::{
    measure_roads, pixels_per_unit, process_trace, sum_lengths, to_real_length,
    CalibrationState, Ratio, Trace, REFERENCE_REAL_LENGTH,
};
use roads::error::RoadError;
use roads::path::{PathCommand, Position};
use roads::style::TraceKind;

fn value(r: Ratio) -> f64 {
    r.num as f64 / r.den as f64
}

fn trace(pos: Position, params: Vec<i32>, style: &str) -> Trace {
    Trace {
        path: Some(vec![PathCommand::Move(pos, params)]),
        style: Some(style.to_string()),
    }
}

fn reference_trace() -> Trace {
    trace(Position::Absolute, vec![0, 0, 100, 0], "stroke:#ff0000")
}

#[test]
fn scale_example() {
    assert_eq!(REFERENCE_REAL_LENGTH, 5);
    let ppu = pixels_per_unit(100);
    assert_eq!(ppu, Ratio { num: 100, den: 5 });
    assert_eq!(value(ppu), 20.0);
    let r = to_real_length(200, 100).unwrap();
    assert_eq!(r, Ratio { num: 1000, den: 100 });
    assert_eq!(value(r), 10.0);
}

#[test]
fn to_real_length_overflow() {
    assert_eq!(to_real_length(u128::MAX, 100), None);
    assert_eq!(to_real_length(u128::MAX / 5, 7), Some(Ratio { num: u128::MAX / 5 * 5, den: 7 }));
    assert_eq!(to_real_length(u128::MAX / 5 + 1, 7), None);
}

#[test]
fn sum_lengths_values() {
    assert_eq!(sum_lengths(&vec![]), Some(0));
    assert_eq!(sum_lengths(&vec![10, 10, 5]), Some(25));
    assert_eq!(sum_lengths(&vec![u128::MAX, 1]), None);
    assert_eq!(sum_lengths(&vec![u128::MAX - 1, 1]), Some(u128::MAX));
}

#[test]
fn end_to_end_scenario() {
    let traces = vec![
        reference_trace(),
        trace(Position::Relative, vec![0, 0, 10, 0, 0, 10], "stroke:#0000ff"),
    ];
    let totals = measure_roads(&traces).unwrap();
    assert_eq!(totals.group_a, Ratio { num: 100, den: 100 });
    assert_eq!(value(totals.group_a), 1.0);
    assert_eq!(value(totals.group_b), 0.0);
}

#[test]
fn both_groups_and_skipped_elements() {
    let traces = vec![
        Trace { path: None, style: Some("stroke:#cccccc".to_string()) },
        trace(Position::Absolute, vec![0, 0, 30, 40], "stroke:#008000"),
        Trace { path: Some(vec![PathCommand::Other]), style: None },
        reference_trace(),
        trace(Position::Relative, vec![5, 5, 60, 80], "stroke:#008000"),
        trace(Position::Relative, vec![0, 0, 200, 0], "stroke:#0000ff"),
    ];
    let totals = measure_roads(&traces).unwrap();
    assert_eq!(value(totals.group_a), 10.0);
    assert_eq!(value(totals.group_b), 7.5);
}

#[test]
fn missing_reference_scenario() {
    let traces = vec![
        trace(Position::Relative, vec![0, 0, 10, 0], "stroke:#0000ff"),
        trace(Position::Relative, vec![0, 0, 10, 0], "stroke:#008000"),
    ];
    assert_eq!(measure_roads(&traces), Err(RoadError::MissingReference));
    assert_eq!(measure_roads(&vec![]), Err(RoadError::MissingReference));
}

#[test]
fn zero_length_reference_counts_as_missing() {
    let traces = vec![trace(Position::Relative, vec![3, 4], "stroke:#ff0000")];
    assert_eq!(measure_roads(&traces), Err(RoadError::MissingReference));
}

#[test]
fn duplicate_reference_scenario() {
    let traces = vec![reference_trace(), reference_trace()];
    assert_eq!(measure_roads(&traces), Err(RoadError::MultipleReferences));
}

#[test]
fn duplicate_reference_is_flagged_before_measuring() {
    let bad = Trace {
        path: Some(vec![PathCommand::Other]),
        style: Some("stroke:#ff0000".to_string()),
    };
    let traces = vec![reference_trace(), bad];
    assert_eq!(measure_roads(&traces), Err(RoadError::MultipleReferences));
}

#[test]
fn unknown_style_stops_the_run() {
    let traces = vec![
        reference_trace(),
        trace(Position::Absolute, vec![0, 0, 1, 0], "stroke:#cccccc"),
    ];
    assert_eq!(measure_roads(&traces), Err(RoadError::UnknownStyle));
}

#[test]
fn malformed_path_stops_the_run() {
    let traces = vec![
        reference_trace(),
        trace(Position::Absolute, vec![0, 0, 1], "stroke:#0000ff"),
    ];
    assert_eq!(measure_roads(&traces), Err(RoadError::OddParameterCount));
}

#[test]
fn repeated_runs_agree() {
    let make = || {
        vec![
            reference_trace(),
            trace(Position::Relative, vec![0, 0, 33, 56], "stroke:#0000ff"),
            trace(Position::Absolute, vec![1, 1, 7, 9, 20, 20], "stroke:#008000"),
        ]
    };
    let first = measure_roads(&make());
    let second = measure_roads(&make());
    assert!(first.is_ok());
    assert_eq!(first, second);
    let bad = vec![reference_trace(), reference_trace()];
    assert_eq!(measure_roads(&bad), measure_roads(&bad));
}

#[test]
fn state_records_and_refuses_second_reference() {
    let mut s = CalibrationState::new();
    assert_eq!(s.reference(), None);
    assert_eq!(s.record(TraceKind::GroupA, 50), Ok(()));
    assert_eq!(s.record(TraceKind::Reference, 100), Ok(()));
    assert_eq!(s.reference(), Some(100));
    assert_eq!(s.record(TraceKind::Reference, 300), Err(RoadError::MultipleReferences));
    assert_eq!(s.reference(), Some(100));
    assert_eq!(s.record(TraceKind::GroupB, 20), Ok(()));
    let t = s.finish().unwrap();
    assert_eq!(value(t.group_a), 2.5);
    assert_eq!(value(t.group_b), 1.0);
}

#[test]
fn finish_without_reference_fails() {
    let mut s = CalibrationState::new();
    assert_eq!(s.finish(), Err(RoadError::MissingReference));
    assert_eq!(s.record(TraceKind::GroupA, 5), Ok(()));
    assert_eq!(s.finish(), Err(RoadError::MissingReference));
}

#[test]
fn finish_overflow() {
    let mut s = CalibrationState::new();
    assert_eq!(s.record(TraceKind::Reference, 1), Ok(()));
    assert_eq!(s.record(TraceKind::GroupB, u128::MAX), Ok(()));
    assert_eq!(s.finish(), Err(RoadError::Overflow));
}

#[test]
fn process_trace_step() {
    let mut s = CalibrationState::new();
    assert_eq!(process_trace(&mut s, &reference_trace()), Ok(()));
    assert_eq!(s.reference(), Some(100));
    let skipped = Trace { path: None, style: None };
    assert_eq!(process_trace(&mut s, &skipped), Ok(()));
    assert_eq!(process_trace(&mut s, &reference_trace()), Err(RoadError::MultipleReferences));
}

#[test]
fn error_messages() {
    assert_eq!(RoadError::MissingReference.message(), "missing reference");
    assert_eq!(RoadError::MultipleReferences.message(), "multiple reference traces");
    assert_eq!(RoadError::UnknownStyle.message(), "unknown style");
}
