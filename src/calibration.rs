//! Calibration: one pass over the traces collects the reference pixel length
//! and the pixel lengths of both groups, then converts the group totals to
//! real-world units through the reference's known length.
use vstd::prelude::*;
use crate::error::RoadError;
use crate::path::{agrees, data_pixel_distance, path_length, PathCommand};
use crate::style::{classify, classify_style, TraceKind};

verus! {

/// Real-world length of the reference trace, in output units.
pub const REFERENCE_REAL_LENGTH: u128 = 5;

/// A non-negative rational number `num / den`.
#[derive(Clone, Copy, Debug, PartialEq, Eq, Structural)]
pub struct Ratio {
    pub num: u128,
    pub den: u128,
}

/// Both group totals in real-world units.
#[derive(Clone, Copy, Debug, PartialEq, Eq, Structural)]
pub struct RoadTotals {
    pub group_a: Ratio,
    pub group_b: Ratio,
}

/// One decoded image element. Either attribute may be absent; such an
/// element is decoration and is skipped.
#[derive(Debug)]
pub struct Trace {
    pub path: Option<Vec<PathCommand>>,
    pub style: Option<String>,
}

/// What a calibration pass has collected so far.
pub struct CalibrationModel {
    pub reference: Option<u128>,
    pub group_a: Seq<u128>,
    pub group_b: Seq<u128>,
}

/// The per-run accumulator: at most one reference length and the lengths of
/// each group in the order they were met.
pub struct CalibrationState {
    reference: Option<u128>,
    group_a: Vec<u128>,
    group_b: Vec<u128>,
}

impl View for CalibrationState {
    type V = CalibrationModel;

    closed spec fn view(&self) -> CalibrationModel {
        CalibrationModel {
            reference: self.reference,
            group_a: self.group_a@,
            group_b: self.group_b@,
        }
    }
}

/// The state at the start of a run.
pub open spec fn empty_model() -> CalibrationModel {
    CalibrationModel { reference: None, group_a: Seq::empty(), group_b: Seq::empty() }
}

/// Sum of a sequence of lengths.
pub open spec fn total(s: Seq<u128>) -> nat
    decreases s.len(),
{
    if s.len() == 0 {
        0
    } else {
        (total(s.drop_last()) + s.last()) as nat
    }
}

/// Pixels per real-world unit, for a reference of the given pixel length.
pub open spec fn pixels_per_unit_of(reference: u128) -> Ratio {
    Ratio { num: reference, den: REFERENCE_REAL_LENGTH }
}

/// A pixel total in real-world units: `pixels / (reference / REFERENCE_REAL_LENGTH)`.
/// `None` when the numerator does not fit.
pub open spec fn real_length_of(pixels: nat, reference: u128) -> Option<Ratio> {
    if pixels * REFERENCE_REAL_LENGTH > u128::MAX {
        None
    } else {
        Some(Ratio { num: (pixels * REFERENCE_REAL_LENGTH) as u128, den: reference })
    }
}

/// A state after one trace of the given kind and length is added to it.
pub open spec fn add_length(m: CalibrationModel, kind: TraceKind, len: u128) -> CalibrationModel {
    match kind {
        TraceKind::Reference => CalibrationModel { reference: Some(len), ..m },
        TraceKind::GroupA => CalibrationModel { group_a: m.group_a.push(len), ..m },
        TraceKind::GroupB => CalibrationModel { group_b: m.group_b.push(len), ..m },
    }
}

/// Recording a trace: a second reference is refused, anything else added.
pub open spec fn record_model(m: CalibrationModel, kind: TraceKind, len: u128) -> Result<
    CalibrationModel,
    RoadError,
> {
    if kind == TraceKind::Reference && m.reference is Some {
        Err(RoadError::MultipleReferences)
    } else {
        Ok(add_length(m, kind, len))
    }
}

/// One element of the pass: skipped without both attributes; otherwise
/// classified, checked against an earlier reference, measured and recorded.
pub open spec fn trace_step(m: CalibrationModel, t: Trace) -> Result<CalibrationModel, RoadError> {
    match (t.path, t.style) {
        (Some(p), Some(s)) => match classify(s@) {
            Err(e) => Err(e),
            Ok(kind) => if kind == TraceKind::Reference && m.reference is Some {
                Err(RoadError::MultipleReferences)
            } else {
                match path_length(p@) {
                    Err(e) => Err(e),
                    Ok(len) => Ok(add_length(m, kind, len as u128)),
                }
            },
        },
        _ => Ok(m),
    }
}

/// The pass over a sequence of elements, stopping at the first error.
pub open spec fn run(ts: Seq<Trace>) -> Result<CalibrationModel, RoadError>
    decreases ts.len(),
{
    if ts.len() == 0 {
        Ok(empty_model())
    } else {
        match run(ts.drop_last()) {
            Err(e) => Err(e),
            Ok(m) => trace_step(m, ts.last()),
        }
    }
}

/// The totals of a finished pass. A missing reference, or one of zero
/// length, is an error, as is a total too large to scale.
pub open spec fn finish_model(m: CalibrationModel) -> Result<RoadTotals, RoadError> {
    match m.reference {
        None => Err(RoadError::MissingReference),
        Some(r) => if r == 0 {
            Err(RoadError::MissingReference)
        } else {
            match (real_length_of(total(m.group_a), r), real_length_of(total(m.group_b), r)) {
                (Some(a), Some(b)) => Ok(RoadTotals { group_a: a, group_b: b }),
                _ => Err(RoadError::Overflow),
            }
        },
    }
}

/// The whole computation on a sequence of elements.
pub open spec fn measure(ts: Seq<Trace>) -> Result<RoadTotals, RoadError> {
    match run(ts) {
        Err(e) => Err(e),
        Ok(m) => finish_model(m),
    }
}

/// A prefix's total is at most the whole total.
proof fn lemma_total_prefix(s: Seq<u128>, i: int)
    requires
        0 <= i <= s.len(),
    ensures
        total(s.subrange(0, i)) <= total(s),
    decreases s.len() - i,
{
    if i < s.len() {
        lemma_total_prefix(s, i + 1);
        assert(s.subrange(0, i + 1).drop_last() =~= s.subrange(0, i));
    } else {
        assert(s.subrange(0, i) =~= s);
    }
}

/// Sum of the lengths, or `None` when it does not fit.
pub fn sum_lengths(v: &Vec<u128>) -> (r: Option<u128>)
    ensures
        r is Some <==> total(v@) <= u128::MAX,
        r matches Some(x) ==> x == total(v@),
{
    let mut acc: u128 = 0;
    let mut i: usize = 0;
    while i < v.len()
        invariant
            i <= v@.len(),
            acc == total(v@.subrange(0, i as int)),
        decreases v.len() - i,
    {
        proof {
            assert(v@.subrange(0, i + 1).drop_last() =~= v@.subrange(0, i as int));
        }
        if acc > u128::MAX - v[i] {
            proof {
                lemma_total_prefix(v@, i + 1);
            }
            return None;
        }
        acc = acc + v[i];
        i = i + 1;
    }
    assert(v@.subrange(0, i as int) =~= v@);
    Some(acc)
}

/// Pixels per real-world unit for a reference of the given pixel length.
pub fn pixels_per_unit(reference: u128) -> (r: Ratio)
    ensures
        r == pixels_per_unit_of(reference),
{
    Ratio { num: reference, den: REFERENCE_REAL_LENGTH }
}

/// Converts a pixel total to real-world units against a reference length.
pub fn to_real_length(pixels: u128, reference: u128) -> (r: Option<Ratio>)
    ensures
        r == real_length_of(pixels as nat, reference),
{
    if pixels > u128::MAX / REFERENCE_REAL_LENGTH {
        None
    } else {
        Some(Ratio { num: pixels * REFERENCE_REAL_LENGTH, den: reference })
    }
}

impl CalibrationState {
    /// An empty state: no reference, both groups empty.
    pub fn new() -> (r: Self)
        ensures
            r@ == empty_model(),
    {
        CalibrationState { reference: None, group_a: Vec::new(), group_b: Vec::new() }
    }

    /// The reference pixel length, once recorded.
    pub fn reference(&self) -> (r: Option<u128>)
        ensures
            r == self@.reference,
    {
        self.reference
    }

    /// Records one measured trace. A second reference fails with
    /// `MultipleReferences` and leaves the state as it was.
    pub fn record(&mut self, kind: TraceKind, len: u128) -> (r: Result<(), RoadError>)
        ensures
            match record_model(old(self)@, kind, len) {
                Ok(m) => r is Ok && final(self)@ == m,
                Err(e) => r == Err::<(), RoadError>(e) && final(self)@ == old(self)@,
            },
    {
        match kind {
            TraceKind::Reference => {
                if self.reference.is_some() {
                    return Err(RoadError::MultipleReferences);
                }
                self.reference = Some(len);
            },
            TraceKind::GroupA => self.group_a.push(len),
            TraceKind::GroupB => self.group_b.push(len),
        }
        proof {
            assert(self@.group_a =~= add_length(old(self)@, kind, len).group_a);
            assert(self@.group_b =~= add_length(old(self)@, kind, len).group_b);
        }
        Ok(())
    }

    /// Both group totals in real-world units.
    pub fn finish(&self) -> (r: Result<RoadTotals, RoadError>)
        ensures
            r == finish_model(self@),
    {
        let reference = match self.reference {
            None => return Err(RoadError::MissingReference),
            Some(x) => x,
        };
        if reference == 0 {
            return Err(RoadError::MissingReference);
        }
        let a = match sum_lengths(&self.group_a) {
            Some(s) => to_real_length(s, reference),
            None => None,
        };
        let b = match sum_lengths(&self.group_b) {
            Some(s) => to_real_length(s, reference),
            None => None,
        };
        match (a, b) {
            (Some(a), Some(b)) => Ok(RoadTotals { group_a: a, group_b: b }),
            _ => Err(RoadError::Overflow),
        }
    }
}

/// Adds one element to the state: see `trace_step`.
pub fn process_trace(state: &mut CalibrationState, t: &Trace) -> (r: Result<(), RoadError>)
    ensures
        match trace_step(old(state)@, *t) {
            Ok(m) => r is Ok && final(state)@ == m,
            Err(e) => r == Err::<(), RoadError>(e),
        },
{
    let (path, style) = match (&t.path, &t.style) {
        (Some(p), Some(s)) => (p, s),
        _ => return Ok(()),
    };
    let kind = match classify_style(style.as_str()) {
        Ok(k) => k,
        Err(e) => return Err(e),
    };
    if kind == TraceKind::Reference && state.reference().is_some() {
        return Err(RoadError::MultipleReferences);
    }
    let len = match data_pixel_distance(path) {
        Ok(l) => l,
        Err(e) => return Err(e),
    };
    state.record(kind, len)
}

/// Measures both groups from the decoded elements of one image: one pass
/// that stops at the first error, then the conversion to real-world units.
pub fn measure_roads(traces: &Vec<Trace>) -> (r: Result<RoadTotals, RoadError>)
    ensures
        r == measure(traces@),
{
    let mut state = CalibrationState::new();
    let mut i: usize = 0;
    assert(traces@.subrange(0, 0) =~= Seq::<Trace>::empty());
    while i < traces.len()
        invariant
            i <= traces@.len(),
            run(traces@.subrange(0, i as int)) == Ok::<CalibrationModel, RoadError>(state@),
        decreases traces.len() - i,
    {
        proof {
            assert(traces@.subrange(0, i + 1).drop_last() =~= traces@.subrange(0, i as int));
        }
        match process_trace(&mut state, &traces[i]) {
            Ok(()) => {},
            Err(e) => {
                proof {
                    lemma_run_stops(traces@, i as int + 1, e);
                }
                return Err(e);
            },
        }
        i = i + 1;
    }
    assert(traces@.subrange(0, i as int) =~= traces@);
    state.finish()
}

/// Calibration is scale-correct: a pixel total converted to real-world units
/// and multiplied back by the pixels per unit gives the pixel total again.
pub proof fn lemma_scale_correct(pixels: nat, reference: u128)
    requires
        reference > 0,
        real_length_of(pixels, reference) is Some,
    ensures
        ({
            let conv = real_length_of(pixels, reference)->Some_0;
            let ppu = pixels_per_unit_of(reference);
            conv.num * ppu.num == pixels * (conv.den * ppu.den)
        }),
{
    let conv = real_length_of(pixels, reference)->Some_0;
    assert(conv.num == pixels * REFERENCE_REAL_LENGTH);
    assert(pixels * REFERENCE_REAL_LENGTH * reference == pixels * (reference
        * REFERENCE_REAL_LENGTH)) by (nonlinear_arith);
}

/// A pixel total that is `k` reference lengths converts to `k` times the
/// reference's real-world length.
pub proof fn lemma_reference_multiples(k: nat, reference: u128)
    requires
        reference > 0,
        real_length_of((k * reference) as nat, reference) is Some,
    ensures
        ({
            let conv = real_length_of((k * reference) as nat, reference)->Some_0;
            conv.num == (k * REFERENCE_REAL_LENGTH) * conv.den
        }),
{
    assert(k * reference * REFERENCE_REAL_LENGTH == k * REFERENCE_REAL_LENGTH * reference)
        by (nonlinear_arith);
}

/// Two path commands hold the same content.
pub open spec fn same_command(c: PathCommand, d: PathCommand) -> bool {
    match (c, d) {
        (PathCommand::Move(p, a), PathCommand::Move(q, b)) => p == q && a@ == b@,
        (PathCommand::Other, PathCommand::Other) => true,
        _ => false,
    }
}

/// Two elements hold the same content: the same style text and the same
/// path commands, present or absent alike.
pub open spec fn same_trace(t: Trace, u: Trace) -> bool {
    &&& match (t.style, u.style) {
        (Some(s), Some(v)) => s@ == v@,
        (None, None) => true,
        _ => false,
    }
    &&& match (t.path, u.path) {
        (Some(p), Some(q)) => p@.len() == q@.len() && forall|i: int|
            0 <= i < p@.len() ==> #[trigger] same_command(p@[i], q@[i]),
        (None, None) => true,
        _ => false,
    }
}

/// Two sequences of elements hold the same content.
pub open spec fn same_input(a: Seq<Trace>, b: Seq<Trace>) -> bool {
    a.len() == b.len() && forall|i: int| 0 <= i < a.len() ==> #[trigger] same_trace(a[i], b[i])
}

/// Elements of the same content take a state to the same next state.
proof fn lemma_step_same(m: CalibrationModel, t: Trace, u: Trace)
    requires
        same_trace(t, u),
    ensures
        trace_step(m, t) == trace_step(m, u),
{
    if let (Some(p), Some(s)) = (t.path, t.style) {
        let q = u.path->Some_0;
        let v = u.style->Some_0;
        assert(s@ == v@);
        if p@.len() == 1 {
            assert(same_command(p@[0], q@[0]));
        }
        assert(path_length(p@) == path_length(q@));
    }
}

/// Inputs of the same content make the same pass.
proof fn lemma_run_same(a: Seq<Trace>, b: Seq<Trace>)
    requires
        same_input(a, b),
    ensures
        run(a) == run(b),
    decreases a.len(),
{
    if a.len() > 0 {
        let n = a.len() - 1;
        assert(same_input(a.drop_last(), b.drop_last())) by {
            assert forall|i: int| 0 <= i < n implies #[trigger] same_trace(
                a.drop_last()[i],
                b.drop_last()[i],
            ) by {
                assert(same_trace(a[i], b[i]));
            }
        }
        lemma_run_same(a.drop_last(), b.drop_last());
        assert(same_trace(a[n], b[n]));
        if let Ok(m) = run(a.drop_last()) {
            lemma_step_same(m, a.last(), b.last());
        }
    }
}

/// The computation is repeatable: inputs of the same content always give
/// the same outcome, the same totals or the same error.
pub proof fn lemma_measure_repeatable(a: Seq<Trace>, b: Seq<Trace>)
    requires
        same_input(a, b),
    ensures
        measure(a) == measure(b),
{
    lemma_run_same(a, b);
}

/// An error in a prefix of the pass is the error of the whole pass.
proof fn lemma_run_stops(ts: Seq<Trace>, i: int, e: RoadError)
    requires
        0 <= i <= ts.len(),
        run(ts.subrange(0, i)) == Err::<CalibrationModel, RoadError>(e),
    ensures
        run(ts) == Err::<CalibrationModel, RoadError>(e),
    decreases ts.len() - i,
{
    if i < ts.len() {
        assert(ts.subrange(0, i + 1).drop_last() =~= ts.subrange(0, i));
        lemma_run_stops(ts, i + 1, e);
    } else {
        assert(ts.subrange(0, i) =~= ts);
    }
}

} // verus!
