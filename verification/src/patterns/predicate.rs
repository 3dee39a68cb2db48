//! Predicate programs: a bounded stack machine that combines the
//! observations of a pattern's atoms with `All`, `Any` and `AtLeast`.
//!
//! A program is validated once (atom references, arities, thresholds, stack
//! bounds) and then evaluated without failure; the result is the one that a
//! plain reference evaluator over an unbounded stack gives.

use vstd::prelude::*;
use crate::profiles::report::{decimal, decimal_chars};
use crate::text::{append_chars, append_str, string_of};

verus! {

pub const MAX_PREDICATE_ATOMS: usize = 128;
pub const MAX_PREDICATE_OPERATIONS: usize = 256;
pub const MAX_PREDICATE_STACK: usize = 32;

/// Identifier of an evidence fact.
pub type EvidenceId = u64;
/// Identifier of a coverage record.
pub type CoverageId = u64;
/// Code of the reason why an observation is unknown.
pub type UnknownReason = u32;

/// The four-valued outcome of observing a predicate atom.
#[derive(Debug, Clone, PartialEq, Eq)]
pub enum Observation {
    Present { evidence: Vec<EvidenceId> },
    Absent { coverage: CoverageId },
    Unknown(UnknownReason),
    Conflict { alternatives: Vec<EvidenceId> },
}

/// An observation as mathematical values.
pub enum ObservationView {
    Present(Seq<EvidenceId>),
    Absent(CoverageId),
    Unknown(UnknownReason),
    Conflict(Seq<EvidenceId>),
}

impl View for Observation {
    type V = ObservationView;

    open spec fn view(&self) -> ObservationView {
        match self {
            Observation::Present { evidence } => ObservationView::Present(evidence@),
            Observation::Absent { coverage } => ObservationView::Absent(*coverage),
            Observation::Unknown(r) => ObservationView::Unknown(*r),
            Observation::Conflict { alternatives } => ObservationView::Conflict(alternatives@),
        }
    }
}

/// A present observation carries at least one evidence id.
pub open spec fn well_formed(o: ObservationView) -> bool {
    o matches ObservationView::Present(ids) ==> ids.len() > 0
}

pub open spec fn all_well_formed(vals: Seq<ObservationView>) -> bool {
    forall|i: int| 0 <= i < vals.len() ==> well_formed(#[trigger] vals[i])
}

pub open spec fn obs_views(v: Seq<Observation>) -> Seq<ObservationView> {
    v.map_values(|o: Observation| o@)
}

#[derive(Debug, Clone, Copy, PartialEq, Eq, Structural)]
pub enum PredicateInstruction {
    PushAtom(u8),
    All(u8),
    Any(u8),
    AtLeast { arity: u8, minimum: u8 },
}

#[derive(Debug, Clone, Copy, PartialEq, Eq, Structural)]
pub enum PredicateProgramError {
    TooManyAtoms { actual: usize, limit: usize },
    TooManyInstructions { actual: usize, limit: usize },
    UnknownAtom { index: usize, atom: u8 },
    StackLimitExceeded { index: usize, limit: usize },
    InvalidArity { index: usize, arity: u8 },
    InvalidThreshold { index: usize, arity: u8, minimum: u8 },
    StackUnderflow { index: usize },
    FinalStackDepth { depth: usize },
}

impl PredicateProgramError {
    /// The error's message.
    pub open spec fn text(self) -> Seq<char> {
        match self {
            PredicateProgramError::TooManyAtoms { actual, limit } =>
                "predicate has "@ + decimal(actual as nat) + " atoms; limit is "@ + decimal(limit as nat),
            PredicateProgramError::TooManyInstructions { actual, limit } =>
                "predicate has "@ + decimal(actual as nat) + " operations; limit is "@ + decimal(limit as nat),
            PredicateProgramError::UnknownAtom { index, atom } =>
                "predicate operation "@ + decimal(index as nat) + " references atom "@ + decimal(atom as nat),
            PredicateProgramError::StackLimitExceeded { index, limit } =>
                "predicate operation "@ + decimal(index as nat) + " exceeds stack limit "@ + decimal(limit as nat),
            PredicateProgramError::InvalidArity { index, arity } =>
                "predicate operation "@ + decimal(index as nat) + " has invalid arity "@ + decimal(arity as nat),
            PredicateProgramError::InvalidThreshold { index, arity, minimum } =>
                "predicate operation "@ + decimal(index as nat) + " has threshold "@ + decimal(minimum as nat)
                    + " outside 1..="@ + decimal(arity as nat),
            PredicateProgramError::StackUnderflow { index } =>
                "predicate operation "@ + decimal(index as nat) + " underflows its stack"@,
            PredicateProgramError::FinalStackDepth { depth } =>
                "predicate program finishes with stack depth "@ + decimal(depth as nat),
        }
    }

    /// `text()`, as a string.
    pub fn message(&self) -> (r: String)
        ensures
            r@ == self.text(),
    {
        let mut out: Vec<char> = Vec::new();
        match *self {
            PredicateProgramError::TooManyAtoms { actual, limit } => {
                append_str(&mut out, "predicate has ");
                append_chars(&mut out, decimal_chars(actual));
                append_str(&mut out, " atoms; limit is ");
                append_chars(&mut out, decimal_chars(limit));
            },
            PredicateProgramError::TooManyInstructions { actual, limit } => {
                append_str(&mut out, "predicate has ");
                append_chars(&mut out, decimal_chars(actual));
                append_str(&mut out, " operations; limit is ");
                append_chars(&mut out, decimal_chars(limit));
            },
            PredicateProgramError::UnknownAtom { index, atom } => {
                append_str(&mut out, "predicate operation ");
                append_chars(&mut out, decimal_chars(index));
                append_str(&mut out, " references atom ");
                append_chars(&mut out, decimal_chars(atom as usize));
            },
            PredicateProgramError::StackLimitExceeded { index, limit } => {
                append_str(&mut out, "predicate operation ");
                append_chars(&mut out, decimal_chars(index));
                append_str(&mut out, " exceeds stack limit ");
                append_chars(&mut out, decimal_chars(limit));
            },
            PredicateProgramError::InvalidArity { index, arity } => {
                append_str(&mut out, "predicate operation ");
                append_chars(&mut out, decimal_chars(index));
                append_str(&mut out, " has invalid arity ");
                append_chars(&mut out, decimal_chars(arity as usize));
            },
            PredicateProgramError::InvalidThreshold { index, arity, minimum } => {
                append_str(&mut out, "predicate operation ");
                append_chars(&mut out, decimal_chars(index));
                append_str(&mut out, " has threshold ");
                append_chars(&mut out, decimal_chars(minimum as usize));
                append_str(&mut out, " outside 1..=");
                append_chars(&mut out, decimal_chars(arity as usize));
            },
            PredicateProgramError::StackUnderflow { index } => {
                append_str(&mut out, "predicate operation ");
                append_chars(&mut out, decimal_chars(index));
                append_str(&mut out, " underflows its stack");
            },
            PredicateProgramError::FinalStackDepth { depth } => {
                append_str(&mut out, "predicate program finishes with stack depth ");
                append_chars(&mut out, decimal_chars(depth));
            },
        }
        string_of(out.as_slice())
    }
}

// ------------------------------------------------------------ validation

/// The checks of one reduction: arity, then threshold, then stack depth.
pub open spec fn reduce_check(index: nat, arity: u8, minimum: Option<u8>, depth: nat) -> Result<nat, PredicateProgramError> {
    if arity < 2 {
        Err(PredicateProgramError::InvalidArity { index: index as usize, arity })
    } else if minimum matches Some(m) && (m == 0 || m > arity) {
        Err(PredicateProgramError::InvalidThreshold { index: index as usize, arity, minimum: minimum->0 })
    } else if depth < arity {
        Err(PredicateProgramError::StackUnderflow { index: index as usize })
    } else {
        Ok((depth - arity + 1) as nat)
    }
}

/// Validation of the instructions from `i` on, with `depth` values stacked.
pub open spec fn validate_from(n_atoms: nat, instrs: Seq<PredicateInstruction>, i: nat, depth: nat) -> Result<(), PredicateProgramError>
    decreases instrs.len() - i,
{
    if i >= instrs.len() {
        if depth != 1 {
            Err(PredicateProgramError::FinalStackDepth { depth: depth as usize })
        } else {
            Ok(())
        }
    } else {
        let step = match instrs[i as int] {
            PredicateInstruction::PushAtom(atom) => if atom >= n_atoms {
                Err(PredicateProgramError::UnknownAtom { index: i as usize, atom })
            } else if depth + 1 > MAX_PREDICATE_STACK {
                Err(PredicateProgramError::StackLimitExceeded { index: i as usize, limit: MAX_PREDICATE_STACK })
            } else {
                Ok(depth + 1)
            },
            PredicateInstruction::All(arity) => reduce_check(i, arity, None, depth),
            PredicateInstruction::Any(arity) => reduce_check(i, arity, None, depth),
            PredicateInstruction::AtLeast { arity, minimum } => reduce_check(i, arity, Some(minimum), depth),
        };
        match step {
            Err(e) => Err(e),
            Ok(d) => validate_from(n_atoms, instrs, i + 1, d),
        }
    }
}

/// The outcome of validating a program.
pub open spec fn validation(n_atoms: nat, instrs: Seq<PredicateInstruction>) -> Result<(), PredicateProgramError> {
    if n_atoms > MAX_PREDICATE_ATOMS {
        Err(PredicateProgramError::TooManyAtoms { actual: n_atoms as usize, limit: MAX_PREDICATE_ATOMS })
    } else if instrs.len() > MAX_PREDICATE_OPERATIONS {
        Err(PredicateProgramError::TooManyInstructions { actual: instrs.len() as usize, limit: MAX_PREDICATE_OPERATIONS })
    } else {
        validate_from(n_atoms, instrs, 0, 0)
    }
}

// ------------------------------------------------------------ reference semantics

pub open spec fn first_conflict(vals: Seq<ObservationView>) -> Option<ObservationView>
    decreases vals.len(),
{
    if vals.len() == 0 {
        None
    } else if vals[0] is Conflict {
        Some(vals[0])
    } else {
        first_conflict(vals.drop_first())
    }
}

pub open spec fn first_unknown(vals: Seq<ObservationView>) -> Option<UnknownReason>
    decreases vals.len(),
{
    if vals.len() == 0 {
        None
    } else if let ObservationView::Unknown(r) = vals[0] {
        Some(r)
    } else {
        first_unknown(vals.drop_first())
    }
}

pub open spec fn first_absent(vals: Seq<ObservationView>) -> Option<CoverageId>
    decreases vals.len(),
{
    if vals.len() == 0 {
        None
    } else if let ObservationView::Absent(c) = vals[0] {
        Some(c)
    } else {
        first_absent(vals.drop_first())
    }
}

/// The evidence ids of the present values, in order.
pub open spec fn present_ids(vals: Seq<ObservationView>) -> Seq<EvidenceId>
    decreases vals.len(),
{
    if vals.len() == 0 {
        Seq::<EvidenceId>::empty()
    } else {
        let head = if let ObservationView::Present(ids) = vals[0] { ids } else { Seq::<EvidenceId>::empty() };
        head + present_ids(vals.drop_first())
    }
}

pub open spec fn count_present(vals: Seq<ObservationView>) -> nat
    decreases vals.len(),
{
    if vals.len() == 0 {
        0
    } else {
        (if vals[0] is Present { 1nat } else { 0nat }) + count_present(vals.drop_first())
    }
}

pub open spec fn count_undecided(vals: Seq<ObservationView>) -> nat
    decreases vals.len(),
{
    if vals.len() == 0 {
        0
    } else {
        (if vals[0] is Unknown || vals[0] is Conflict { 1nat } else { 0nat }) + count_undecided(vals.drop_first())
    }
}

/// Conjunction: a conflict wins, then an unknown, then an absence; all
/// present gives the union of their evidence.
pub open spec fn combine_all_spec(vals: Seq<ObservationView>) -> ObservationView {
    match first_conflict(vals) {
        Some(c) => c,
        None => match first_unknown(vals) {
            Some(r) => ObservationView::Unknown(r),
            None => match first_absent(vals) {
                Some(c) => ObservationView::Absent(c),
                None => ObservationView::Present(present_ids(vals)),
            },
        },
    }
}

/// Disjunction: any present value wins with all present evidence; else a
/// conflict, then an unknown, then the first absence.
pub open spec fn combine_any_spec(vals: Seq<ObservationView>) -> ObservationView {
    if present_ids(vals).len() > 0 {
        ObservationView::Present(present_ids(vals))
    } else {
        match first_conflict(vals) {
            Some(c) => c,
            None => match first_unknown(vals) {
                Some(r) => ObservationView::Unknown(r),
                None => ObservationView::Absent(first_absent(vals)->0),
            },
        }
    }
}

/// Threshold: enough present values give present; enough present or
/// undecided values give the first conflict or unknown; else the first
/// absence.
pub open spec fn combine_at_least_spec(vals: Seq<ObservationView>, minimum: nat) -> ObservationView {
    if count_present(vals) >= minimum {
        ObservationView::Present(present_ids(vals))
    } else if count_present(vals) + count_undecided(vals) >= minimum {
        match first_conflict(vals) {
            Some(c) => c,
            None => ObservationView::Unknown(first_unknown(vals)->0),
        }
    } else {
        ObservationView::Absent(first_absent(vals)->0)
    }
}

/// The last `arity` values of the stack replaced by their combination.
pub open spec fn reduce(stack: Seq<ObservationView>, arity: nat, combined: spec_fn(Seq<ObservationView>) -> ObservationView) -> Seq<ObservationView> {
    let start = stack.len() - arity;
    stack.subrange(0, start).push(combined(stack.subrange(start, stack.len() as int)))
}

/// The stack after running the instructions from `i` on.
pub open spec fn run_from(instrs: Seq<PredicateInstruction>, obs: Seq<ObservationView>, i: nat, stack: Seq<ObservationView>) -> Seq<ObservationView>
    decreases instrs.len() - i,
{
    if i >= instrs.len() {
        stack
    } else {
        let next = match instrs[i as int] {
            PredicateInstruction::PushAtom(a) => stack.push(obs[a as int]),
            PredicateInstruction::All(arity) => reduce(stack, arity as nat, |v: Seq<ObservationView>| combine_all_spec(v)),
            PredicateInstruction::Any(arity) => reduce(stack, arity as nat, |v: Seq<ObservationView>| combine_any_spec(v)),
            PredicateInstruction::AtLeast { arity, minimum } => reduce(stack, arity as nat,
                |v: Seq<ObservationView>| combine_at_least_spec(v, minimum as nat)),
        };
        run_from(instrs, obs, i + 1, next)
    }
}

/// The value that the program computes from the observations of its atoms.
pub open spec fn reference_result(instrs: Seq<PredicateInstruction>, obs: Seq<ObservationView>) -> ObservationView {
    run_from(instrs, obs, 0, Seq::<ObservationView>::empty()).last()
}


/// The instructions that push the atoms `atoms`, in order.
pub open spec fn push_atoms(atoms: Seq<u8>) -> Seq<PredicateInstruction> {
    atoms.map_values(|a: u8| PredicateInstruction::PushAtom(a))
}

/// How many values a combining instruction takes.
pub open spec fn arity_of(op: PredicateInstruction) -> nat {
    match op {
        PredicateInstruction::PushAtom(_) => 0,
        PredicateInstruction::All(n) => n as nat,
        PredicateInstruction::Any(n) => n as nat,
        PredicateInstruction::AtLeast { arity, .. } => arity as nat,
    }
}

/// What a combining instruction makes of the values it takes.
pub open spec fn combination(op: PredicateInstruction, vals: Seq<ObservationView>) -> ObservationView {
    match op {
        PredicateInstruction::All(_) => combine_all_spec(vals),
        PredicateInstruction::Any(_) => combine_any_spec(vals),
        PredicateInstruction::AtLeast { minimum, .. } => combine_at_least_spec(vals, minimum as nat),
        PredicateInstruction::PushAtom(_) => vals.last(),
    }
}

pub open spec fn pushed(atoms: Seq<u8>, obs: Seq<ObservationView>, k: int) -> Seq<ObservationView> {
    atoms.take(k).map_values(|a: u8| obs[a as int])
}

proof fn lemma_pushes(instrs: Seq<PredicateInstruction>, obs: Seq<ObservationView>, atoms: Seq<u8>, k: int)
    requires
        0 <= k <= atoms.len() < instrs.len(),
        forall|i: int| 0 <= i < atoms.len() ==> #[trigger] instrs[i] == PredicateInstruction::PushAtom(atoms[i]),
    ensures
        run_from(instrs, obs, k as nat, pushed(atoms, obs, k)) == run_from(instrs, obs, atoms.len(), pushed(atoms, obs, atoms.len() as int)),
    decreases atoms.len() - k,
{
    if k < atoms.len() {
        assert(instrs[k] == PredicateInstruction::PushAtom(atoms[k]));
        assert(pushed(atoms, obs, k).push(obs[atoms[k] as int]) =~= pushed(atoms, obs, k + 1));
        lemma_pushes(instrs, obs, atoms, k + 1);
    }
}

/// A program that pushes the observations of some atoms and then combines
/// all of them with one instruction evaluates to that instruction's
/// combination of those observations, in the order they were pushed:
/// `All` gives the first conflict, else the first unknown, else the first
/// absence, else all present evidence; `Any` gives all present evidence if
/// any is present, else the first conflict, unknown or absence; `AtLeast`
/// gives present with enough present values, the first conflict or unknown
/// with enough present or undecided values, else the first absence.
pub proof fn lemma_single_combination(atoms: Seq<u8>, op: PredicateInstruction, obs: Seq<ObservationView>)
    requires
        op !is PushAtom,
        arity_of(op) == atoms.len(),
    ensures
        reference_result(push_atoms(atoms).push(op), obs) == combination(op, pushed(atoms, obs, atoms.len() as int)),
{
    let instrs = push_atoms(atoms).push(op);
    let n = atoms.len();
    assert forall|i: int| 0 <= i < n implies #[trigger] instrs[i] == PredicateInstruction::PushAtom(atoms[i]) by {
        assert(instrs[i] == push_atoms(atoms)[i]);
    }
    assert(pushed(atoms, obs, 0) =~= Seq::<ObservationView>::empty());
    lemma_pushes(instrs, obs, atoms, 0);
    let stack = pushed(atoms, obs, n as int);
    assert(instrs[n as int] == op);
    assert(stack.subrange(0, n as int) =~= stack);
    let last = seq![combination(op, stack)];
    assert(stack.subrange(0, 0).push(combination(op, stack)) =~= last);
    assert(run_from(instrs, obs, n, stack) == run_from(instrs, obs, n + 1, last));
}

// ------------------------------------------------------------ lemmas

proof fn lemma_present_nonempty(vals: Seq<ObservationView>)
    requires
        all_well_formed(vals),
        count_present(vals) > 0,
    ensures
        present_ids(vals).len() > 0,
    decreases vals.len(),
{
    if !(vals[0] is Present) {
        assert(all_well_formed(vals.drop_first())) by {
            assert forall|i: int| 0 <= i < vals.drop_first().len() implies well_formed(#[trigger] vals.drop_first()[i]) by {
                assert(vals.drop_first()[i] == vals[i + 1]);
            }
        }
        lemma_present_nonempty(vals.drop_first());
    } else {
        assert(well_formed(vals[0]));
    }
}

proof fn lemma_no_present_ids(vals: Seq<ObservationView>)
    requires
        all_well_formed(vals),
        present_ids(vals).len() == 0,
    ensures
        count_present(vals) == 0,
{
    if count_present(vals) > 0 {
        lemma_present_nonempty(vals);
    }
}

proof fn lemma_some_present(vals: Seq<ObservationView>)
    requires
        vals.len() > 0,
        first_conflict(vals) is None,
        first_unknown(vals) is None,
        first_absent(vals) is None,
    ensures
        count_present(vals) > 0,
{
}

proof fn lemma_some_unknown(vals: Seq<ObservationView>)
    requires
        count_undecided(vals) > 0,
        first_conflict(vals) is None,
    ensures
        first_unknown(vals) is Some,
    decreases vals.len(),
{
    if !(vals[0] is Unknown) {
        lemma_some_unknown(vals.drop_first());
    }
}

proof fn lemma_some_absent(vals: Seq<ObservationView>)
    requires
        count_present(vals) + count_undecided(vals) < vals.len(),
    ensures
        first_absent(vals) is Some,
    decreases vals.len(),
{
    if !(vals[0] is Absent) {
        lemma_some_absent(vals.drop_first());
    }
}

proof fn lemma_wf_subrange(vals: Seq<ObservationView>, a: int, b: int)
    requires
        all_well_formed(vals),
        0 <= a <= b <= vals.len(),
    ensures
        all_well_formed(vals.subrange(a, b)),
{
    assert forall|i: int| 0 <= i < vals.subrange(a, b).len() implies well_formed(#[trigger] vals.subrange(a, b)[i]) by {
        assert(vals.subrange(a, b)[i] == vals[a + i]);
    }
}

// ------------------------------------------------------------ exec helpers

/// A copy of an observation.
pub fn copy_observation(o: &Observation) -> (r: Observation)
    ensures
        r@ == o@,
{
    match o {
        Observation::Present { evidence } => {
            let e = evidence.clone();
            assert(e@ =~= evidence@);
            Observation::Present { evidence: e }
        },
        Observation::Absent { coverage } => Observation::Absent { coverage: *coverage },
        Observation::Unknown(r) => Observation::Unknown(*r),
        Observation::Conflict { alternatives } => {
            let e = alternatives.clone();
            assert(e@ =~= alternatives@);
            Observation::Conflict { alternatives: e }
        },
    }
}

fn find_first_conflict(values: &[Observation]) -> (r: Option<Observation>)
    ensures
        match first_conflict(obs_views(values@)) {
            Some(c) => r matches Some(o) && o@ == c,
            None => r is None,
        },
        r matches Some(o) ==> o@ is Conflict,
{
    let ghost vs = obs_views(values@);
    let mut i: usize = 0;
    assert(vs.skip(0) =~= vs);
    while i < values.len()
        invariant
            vs == obs_views(values@),
            i <= values.len(),
            first_conflict(vs) == first_conflict(vs.skip(i as int)),
        decreases values.len() - i,
    {
        assert(vs.skip(i as int).drop_first() =~= vs.skip(i + 1));
        assert(vs.skip(i as int)[0] == values@[i as int]@);
        if let Observation::Conflict { .. } = &values[i] {
            return Some(copy_observation(&values[i]));
        }
        i = i + 1;
    }
    None
}

fn find_first_unknown(values: &[Observation]) -> (r: Option<UnknownReason>)
    ensures
        r == first_unknown(obs_views(values@)),
{
    let ghost vs = obs_views(values@);
    let mut i: usize = 0;
    assert(vs.skip(0) =~= vs);
    while i < values.len()
        invariant
            vs == obs_views(values@),
            i <= values.len(),
            first_unknown(vs) == first_unknown(vs.skip(i as int)),
        decreases values.len() - i,
    {
        assert(vs.skip(i as int).drop_first() =~= vs.skip(i + 1));
        assert(vs.skip(i as int)[0] == values@[i as int]@);
        if let Observation::Unknown(reason) = &values[i] {
            return Some(*reason);
        }
        i = i + 1;
    }
    None
}

fn find_first_absent(values: &[Observation]) -> (r: Option<CoverageId>)
    ensures
        r == first_absent(obs_views(values@)),
{
    let ghost vs = obs_views(values@);
    let mut i: usize = 0;
    assert(vs.skip(0) =~= vs);
    while i < values.len()
        invariant
            vs == obs_views(values@),
            i <= values.len(),
            first_absent(vs) == first_absent(vs.skip(i as int)),
        decreases values.len() - i,
    {
        assert(vs.skip(i as int).drop_first() =~= vs.skip(i + 1));
        assert(vs.skip(i as int)[0] == values@[i as int]@);
        if let Observation::Absent { coverage } = &values[i] {
            return Some(*coverage);
        }
        i = i + 1;
    }
    None
}

fn collect_present_ids(values: &[Observation]) -> (r: Vec<EvidenceId>)
    ensures
        r@ == present_ids(obs_views(values@)),
{
    let ghost vs = obs_views(values@);
    let mut out: Vec<EvidenceId> = Vec::new();
    let mut i: usize = 0;
    assert(vs.skip(0) =~= vs);
    assert(out@ + present_ids(vs) =~= present_ids(vs));
    while i < values.len()
        invariant
            vs == obs_views(values@),
            i <= values.len(),
            present_ids(vs) == out@ + present_ids(vs.skip(i as int)),
        decreases values.len() - i,
    {
        assert(vs.skip(i as int).drop_first() =~= vs.skip(i + 1));
        assert(vs.skip(i as int)[0] == values@[i as int]@);
        let ghost before = out@;
        if let Observation::Present { evidence } = &values[i] {
            let mut j: usize = 0;
            while j < evidence.len()
                invariant
                    j <= evidence.len(),
                    out@ == before + evidence@.subrange(0, j as int),
                decreases evidence.len() - j,
            {
                out.push(evidence[j]);
                j = j + 1;
                assert(out@ =~= before + evidence@.subrange(0, j as int));
            }
            assert(evidence@.subrange(0, evidence.len() as int) =~= evidence@);
            assert(before + (evidence@ + present_ids(vs.skip(i + 1))) =~= out@ + present_ids(vs.skip(i + 1)));
        } else {
            assert(Seq::<EvidenceId>::empty() + present_ids(vs.skip(i + 1)) =~= present_ids(vs.skip(i + 1)));
        }
        i = i + 1;
    }
    assert(vs.skip(values.len() as int) =~= Seq::<ObservationView>::empty());
    assert(out@ + Seq::<EvidenceId>::empty() =~= out@);
    out
}

fn count_matching(values: &[Observation], undecided: bool) -> (r: usize)
    ensures
        r == if undecided { count_undecided(obs_views(values@)) } else { count_present(obs_views(values@)) },
        r <= values.len(),
{
    let ghost vs = obs_views(values@);
    let mut n: usize = 0;
    let mut i: usize = 0;
    assert(vs.skip(0) =~= vs);
    while i < values.len()
        invariant
            vs == obs_views(values@),
            i <= values.len(),
            n <= i,
            (if undecided { count_undecided(vs) } else { count_present(vs) }) == n + (if undecided {
                count_undecided(vs.skip(i as int))
            } else {
                count_present(vs.skip(i as int))
            }),
        decreases values.len() - i,
    {
        assert(vs.skip(i as int).drop_first() =~= vs.skip(i + 1));
        assert(vs.skip(i as int)[0] == values@[i as int]@);
        let hit = match &values[i] {
            Observation::Present { .. } => !undecided,
            Observation::Absent { .. } => false,
            Observation::Unknown(_) => undecided,
            Observation::Conflict { .. } => undecided,
        };
        if hit {
            n = n + 1;
        }
        i = i + 1;
    }
    assert(vs.skip(values.len() as int) =~= Seq::<ObservationView>::empty());
    n
}

/// `combine_all_spec`.
pub fn combine_all(values: &[Observation]) -> (r: Observation)
    requires
        values.len() > 0,
        all_well_formed(obs_views(values@)),
    ensures
        r@ == combine_all_spec(obs_views(values@)),
        well_formed(r@),
{
    let ghost vs = obs_views(values@);
    if let Some(conflict) = find_first_conflict(values) {
        return conflict;
    }
    if let Some(unknown) = find_first_unknown(values) {
        return Observation::Unknown(unknown);
    }
    if let Some(absent) = find_first_absent(values) {
        return Observation::Absent { coverage: absent };
    }
    proof {
        lemma_some_present(vs);
        lemma_present_nonempty(vs);
    }
    Observation::Present { evidence: collect_present_ids(values) }
}

/// `combine_any_spec`.
pub fn combine_any(values: &[Observation]) -> (r: Observation)
    requires
        values.len() > 0,
        all_well_formed(obs_views(values@)),
    ensures
        r@ == combine_any_spec(obs_views(values@)),
        well_formed(r@),
{
    let ghost vs = obs_views(values@);
    let present = collect_present_ids(values);
    if present.len() > 0 {
        return Observation::Present { evidence: present };
    }
    if let Some(conflict) = find_first_conflict(values) {
        return conflict;
    }
    if let Some(unknown) = find_first_unknown(values) {
        return Observation::Unknown(unknown);
    }
    proof {
        lemma_no_present_ids(vs);
        if count_undecided(vs) > 0 {
            lemma_some_unknown(vs);
        }
        lemma_some_absent(vs);
    }
    match find_first_absent(values) {
        Some(c) => Observation::Absent { coverage: c },
        None => Observation::Absent { coverage: 0 },
    }
}

/// `combine_at_least_spec`.
pub fn combine_at_least(values: &[Observation], minimum: usize) -> (r: Observation)
    requires
        1 <= minimum <= values.len(),
        all_well_formed(obs_views(values@)),
    ensures
        r@ == combine_at_least_spec(obs_views(values@), minimum as nat),
        well_formed(r@),
{
    let ghost vs = obs_views(values@);
    let present = collect_present_ids(values);
    let present_count = count_matching(values, false);
    if present_count >= minimum {
        proof { lemma_present_nonempty(vs); }
        return Observation::Present { evidence: present };
    }
    let unknown_count = count_matching(values, true);
    if unknown_count >= minimum - present_count {
        if let Some(conflict) = find_first_conflict(values) {
            return conflict;
        }
        proof { lemma_some_unknown(vs); }
        return match find_first_unknown(values) {
            Some(r) => Observation::Unknown(r),
            None => Observation::Unknown(0),
        };
    }
    proof { lemma_some_absent(vs); }
    match find_first_absent(values) {
        Some(c) => Observation::Absent { coverage: c },
        None => Observation::Absent { coverage: 0 },
    }
}


// ------------------------------------------------------------ programs

/// A validated predicate program over atoms of type `A`.
pub struct PredicateProgram<A> {
    atoms: Vec<A>,
    instructions: Vec<PredicateInstruction>,
}

/// `validation(n_atoms, instructions)`.
pub fn validate_program(n_atoms: usize, instructions: &[PredicateInstruction]) -> (r: Result<(), PredicateProgramError>)
    ensures
        r == validation(n_atoms as nat, instructions@),
{
    if n_atoms > MAX_PREDICATE_ATOMS {
        return Err(PredicateProgramError::TooManyAtoms { actual: n_atoms, limit: MAX_PREDICATE_ATOMS });
    }
    if instructions.len() > MAX_PREDICATE_OPERATIONS {
        return Err(PredicateProgramError::TooManyInstructions {
            actual: instructions.len(),
            limit: MAX_PREDICATE_OPERATIONS,
        });
    }
    let mut depth: usize = 0;
    let mut index: usize = 0;
    while index < instructions.len()
        invariant
            n_atoms <= MAX_PREDICATE_ATOMS,
            instructions.len() <= MAX_PREDICATE_OPERATIONS,
            index <= instructions.len(),
            depth <= MAX_PREDICATE_STACK,
            validation(n_atoms as nat, instructions@) == validate_from(n_atoms as nat, instructions@, index as nat, depth as nat),
        decreases instructions.len() - index,
    {
        match instructions[index] {
            PredicateInstruction::PushAtom(atom) => {
                if (atom as usize) >= n_atoms {
                    return Err(PredicateProgramError::UnknownAtom { index, atom });
                }
                depth = depth + 1;
                if depth > MAX_PREDICATE_STACK {
                    return Err(PredicateProgramError::StackLimitExceeded { index, limit: MAX_PREDICATE_STACK });
                }
            },
            PredicateInstruction::All(arity) | PredicateInstruction::Any(arity) => {
                validate_arity(index, arity)?;
                if depth < arity as usize {
                    return Err(PredicateProgramError::StackUnderflow { index });
                }
                depth = depth - arity as usize + 1;
            },
            PredicateInstruction::AtLeast { arity, minimum } => {
                validate_arity(index, arity)?;
                if minimum == 0 || minimum > arity {
                    return Err(PredicateProgramError::InvalidThreshold { index, arity, minimum });
                }
                if depth < arity as usize {
                    return Err(PredicateProgramError::StackUnderflow { index });
                }
                depth = depth - arity as usize + 1;
            },
        }
        index = index + 1;
    }
    if depth != 1 {
        return Err(PredicateProgramError::FinalStackDepth { depth });
    }
    Ok(())
}

/// `InvalidArity` for an arity below two.
pub fn validate_arity(index: usize, arity: u8) -> (r: Result<(), PredicateProgramError>)
    ensures
        r == if arity < 2 {
            Err::<(), PredicateProgramError>(PredicateProgramError::InvalidArity { index, arity })
        } else {
            Ok::<(), PredicateProgramError>(())
        },
{
    if arity < 2 {
        return Err(PredicateProgramError::InvalidArity { index, arity });
    }
    Ok(())
}

impl<A> PredicateProgram<A> {
    #[verifier::type_invariant]
    spec fn inv(&self) -> bool {
        validation(self.atoms.len() as nat, self.instructions@) is Ok
    }

    pub closed spec fn atom_seq(&self) -> Seq<A> {
        self.atoms@
    }

    pub closed spec fn instruction_seq(&self) -> Seq<PredicateInstruction> {
        self.instructions@
    }

    /// A program of these atoms and instructions, when they validate.
    pub fn try_new(atoms: Vec<A>, instructions: Vec<PredicateInstruction>) -> (r: Result<Self, PredicateProgramError>)
        ensures
            match validation(atoms@.len(), instructions@) {
                Ok(_) => r matches Ok(p) && p.atom_seq() == atoms@ && p.instruction_seq() == instructions@,
                Err(e) => r matches Err(e2) && e2 == e,
            },
    {
        match validate_program(atoms.len(), instructions.as_slice()) {
            Ok(()) => Ok(PredicateProgram { atoms, instructions }),
            Err(e) => Err(e),
        }
    }

    pub fn atoms(&self) -> (r: &[A])
        ensures
            r@ == self.atom_seq(),
    {
        self.atoms.as_slice()
    }

    pub fn instructions(&self) -> (r: &[PredicateInstruction])
        ensures
            r@ == self.instruction_seq(),
    {
        self.instructions.as_slice()
    }

    /// Always `Ok` for a program that exists.
    pub fn validate(&self) -> (r: Result<(), PredicateProgramError>)
        ensures
            r == validation(self.atom_seq().len(), self.instruction_seq()),
            r is Ok,
    {
        proof { use_type_invariant(self); }
        validate_program(self.atoms.len(), self.instructions.as_slice())
    }

    /// Runs the program on the observations of its atoms
    /// (`observations[i]` is that of atom `i`): the reference result.
    pub fn evaluate(&self, observations: &[Observation]) -> (r: Observation)
        requires
            observations.len() == self.atom_seq().len(),
            all_well_formed(obs_views(observations@)),
        ensures
            r@ == reference_result(self.instruction_seq(), obs_views(observations@)),
            well_formed(r@),
    {
        proof { use_type_invariant(self); }
        let ghost obs = obs_views(observations@);
        let ghost instrs = self.instructions@;
        let n_atoms = self.atoms.len();
        let mut stack: Vec<Observation> = Vec::new();
        let mut index: usize = 0;
        assert(obs_views(stack@) =~= Seq::<ObservationView>::empty());
        while index < self.instructions.len()
            invariant
                instrs == self.instructions@,
                obs == obs_views(observations@),
                n_atoms == self.atoms.len(),
                observations.len() == n_atoms,
                all_well_formed(obs),
                index <= instrs.len(),
                validate_from(n_atoms as nat, instrs, index as nat, stack.len() as nat) is Ok,
                run_from(instrs, obs, 0, Seq::<ObservationView>::empty()) == run_from(instrs, obs, index as nat, obs_views(stack@)),
                all_well_formed(obs_views(stack@)),
                stack.len() <= MAX_PREDICATE_STACK,
            decreases instrs.len() - index,
        {
            let ghost before = obs_views(stack@);
            match self.instructions[index] {
                PredicateInstruction::PushAtom(atom) => {
                    let value = copy_observation(&observations[atom as usize]);
                    stack.push(value);
                    assert(obs_views(stack@) =~= before.push(obs[atom as int]));
                },
                PredicateInstruction::All(arity) => {
                    let start = stack.len() - arity as usize;
                    let values = stack.split_off(start);
                    proof { lemma_wf_subrange(before, start as int, before.len() as int); }
                    assert(obs_views(values@) =~= before.subrange(start as int, before.len() as int));
                    let combined = combine_all(values.as_slice());
                    stack.push(combined);
                    assert(obs_views(stack@) =~= reduce(before, arity as nat, |v: Seq<ObservationView>| combine_all_spec(v)));
                },
                PredicateInstruction::Any(arity) => {
                    let start = stack.len() - arity as usize;
                    let values = stack.split_off(start);
                    proof { lemma_wf_subrange(before, start as int, before.len() as int); }
                    assert(obs_views(values@) =~= before.subrange(start as int, before.len() as int));
                    let combined = combine_any(values.as_slice());
                    stack.push(combined);
                    assert(obs_views(stack@) =~= reduce(before, arity as nat, |v: Seq<ObservationView>| combine_any_spec(v)));
                },
                PredicateInstruction::AtLeast { arity, minimum } => {
                    let start = stack.len() - arity as usize;
                    let values = stack.split_off(start);
                    proof { lemma_wf_subrange(before, start as int, before.len() as int); }
                    assert(obs_views(values@) =~= before.subrange(start as int, before.len() as int));
                    let combined = combine_at_least(values.as_slice(), minimum as usize);
                    stack.push(combined);
                    assert(obs_views(stack@) =~= reduce(before, arity as nat,
                        |v: Seq<ObservationView>| combine_at_least_spec(v, minimum as nat)));
                },
            }
            proof {
                assert forall|i: int| 0 <= i < obs_views(stack@).len() implies well_formed(#[trigger] obs_views(stack@)[i]) by {
                    if i < obs_views(stack@).len() - 1 {
                        assert(obs_views(stack@)[i] == before[i]);
                    }
                }
            }
            index = index + 1;
        }
        assert(stack.len() == 1);
        let result = stack.pop().unwrap();
        assert(obs_views(stack@.push(result)) =~= obs_views(stack@).push(result@));
        result
    }
}

} // verus!
