use reposeiri::patterns::predicate::{
    combine_all, combine_any, combine_at_least, validate_program, Observation,
    PredicateInstruction, PredicateProgram, PredicateProgramError, MAX_PREDICATE_OPERATIONS,
    MAX_PREDICATE_STACK,
};

fn simple_observations() -> Vec<Observation> {
    vec![
        Observation::Present { evidence: vec![1] },
        Observation::Absent { coverage: 7 },
    ]
}

#[test]
fn bounded_evaluator_matches_reference_for_simple_program() {
    let observations = simple_observations();
    for instruction in [
        PredicateInstruction::All(2),
        PredicateInstruction::Any(2),
        PredicateInstruction::AtLeast {
            arity: 2,
            minimum: 2,
        },
    ] {
        let program = PredicateProgram::try_new(
            vec!["file-present", "readme-present"],
            vec![
                PredicateInstruction::PushAtom(0),
                PredicateInstruction::PushAtom(1),
                instruction,
            ],
        )
        .expect("program");
        assert_eq!(
            program.evaluate(&observations),
            evaluate_reference(program.instructions(), &observations),
            "reference mismatch for {instruction:?}"
        );
    }
}

#[test]
fn validator_rejects_bad_stack_arity_and_atom_references() {
    assert!(matches!(
        PredicateProgram::try_new(vec!["file-present"], vec![PredicateInstruction::Any(1)]),
        Err(PredicateProgramError::InvalidArity { .. })
    ));
    assert!(matches!(
        PredicateProgram::try_new(vec!["file-present"], vec![PredicateInstruction::PushAtom(1)]),
        Err(PredicateProgramError::UnknownAtom { .. })
    ));
    assert!(matches!(
        PredicateProgram::try_new(
            vec!["file-present"],
            vec![
                PredicateInstruction::PushAtom(0),
                PredicateInstruction::PushAtom(0)
            ],
        ),
        Err(PredicateProgramError::FinalStackDepth { depth: 2 })
    ));
}

#[test]
fn simple_program_results_are_exact() {
    let observations = simple_observations();
    let run = |last: PredicateInstruction| {
        PredicateProgram::try_new(
            vec!["a", "b"],
            vec![
                PredicateInstruction::PushAtom(0),
                PredicateInstruction::PushAtom(1),
                last,
            ],
        )
        .expect("program")
        .evaluate(&observations)
    };
    assert_eq!(run(PredicateInstruction::All(2)), Observation::Absent { coverage: 7 });
    assert_eq!(
        run(PredicateInstruction::Any(2)),
        Observation::Present { evidence: vec![1] }
    );
    assert_eq!(
        run(PredicateInstruction::AtLeast { arity: 2, minimum: 1 }),
        Observation::Present { evidence: vec![1] }
    );
    assert_eq!(
        run(PredicateInstruction::AtLeast { arity: 2, minimum: 2 }),
        Observation::Absent { coverage: 7 }
    );
}

#[test]
fn validator_reports_every_error_kind() {
    let push = PredicateInstruction::PushAtom(0);
    assert_eq!(
        validate_program(129, &[push]),
        Err(PredicateProgramError::TooManyAtoms { actual: 129, limit: 128 })
    );
    let long = vec![push; MAX_PREDICATE_OPERATIONS + 1];
    assert_eq!(
        validate_program(1, &long),
        Err(PredicateProgramError::TooManyInstructions { actual: 257, limit: 256 })
    );
    let deep = vec![push; MAX_PREDICATE_STACK + 1];
    assert_eq!(
        validate_program(1, &deep),
        Err(PredicateProgramError::StackLimitExceeded { index: 32, limit: 32 })
    );
    assert_eq!(
        validate_program(1, &[push, push, PredicateInstruction::AtLeast { arity: 2, minimum: 3 }]),
        Err(PredicateProgramError::InvalidThreshold { index: 2, arity: 2, minimum: 3 })
    );
    assert_eq!(
        validate_program(1, &[push, PredicateInstruction::All(2)]),
        Err(PredicateProgramError::StackUnderflow { index: 1 })
    );
    assert_eq!(
        validate_program(1, &[]),
        Err(PredicateProgramError::FinalStackDepth { depth: 0 })
    );
    assert_eq!(validate_program(1, &[push]), Ok(()));
}

#[test]
fn program_accessors_give_back_what_was_validated() {
    let program = PredicateProgram::try_new(
        vec![10u32, 20u32],
        vec![
            PredicateInstruction::PushAtom(1),
            PredicateInstruction::PushAtom(0),
            PredicateInstruction::Any(2),
        ],
    )
    .expect("program");
    assert_eq!(program.atoms(), &[10, 20]);
    assert_eq!(program.instructions().len(), 3);
    assert_eq!(program.validate(), Ok(()));
}

#[test]
fn combinators_rank_conflict_unknown_absent_and_present() {
    let values = vec![
        Observation::Present { evidence: vec![3] },
        Observation::Unknown(4),
        Observation::Conflict { alternatives: vec![5, 6] },
        Observation::Absent { coverage: 9 },
    ];
    assert_eq!(
        combine_all(&values),
        Observation::Conflict { alternatives: vec![5, 6] }
    );
    assert_eq!(combine_any(&values), Observation::Present { evidence: vec![3] });
    assert_eq!(
        combine_at_least(&values, 2),
        Observation::Conflict { alternatives: vec![5, 6] }
    );
    assert_eq!(combine_at_least(&values, 4), Observation::Absent { coverage: 9 });
    let undecided = vec![Observation::Unknown(4), Observation::Absent { coverage: 2 }];
    assert_eq!(combine_all(&undecided), Observation::Unknown(4));
    assert_eq!(combine_any(&undecided), Observation::Unknown(4));
    assert_eq!(combine_at_least(&undecided, 1), Observation::Unknown(4));
    let present = vec![
        Observation::Present { evidence: vec![1, 2] },
        Observation::Present { evidence: vec![3] },
    ];
    assert_eq!(
        combine_all(&present),
        Observation::Present { evidence: vec![1, 2, 3] }
    );
}

fn evaluate_reference(
    instructions: &[PredicateInstruction],
    observations: &[Observation],
) -> Observation {
    let mut stack: Vec<Observation> = Vec::new();
    for instruction in instructions {
        match *instruction {
            PredicateInstruction::PushAtom(index) => {
                stack.push(observations[usize::from(index)].clone())
            }
            PredicateInstruction::All(arity) => {
                let values = stack.split_off(stack.len() - usize::from(arity));
                stack.push(reference_all(&values));
            }
            PredicateInstruction::Any(arity) => {
                let values = stack.split_off(stack.len() - usize::from(arity));
                stack.push(reference_any(&values));
            }
            PredicateInstruction::AtLeast { arity, minimum } => {
                let values = stack.split_off(stack.len() - usize::from(arity));
                stack.push(reference_at_least(&values, usize::from(minimum)));
            }
        }
    }
    stack.pop().expect("validated program")
}

fn reference_all(values: &[Observation]) -> Observation {
    if let Some(value) = reference_conflict(values) {
        return value;
    }
    if let Some(reason) = reference_unknown(values) {
        return Observation::Unknown(reason);
    }
    if let Some(coverage) = reference_absent(values) {
        return Observation::Absent { coverage };
    }
    reference_present(values)
}

fn reference_any(values: &[Observation]) -> Observation {
    let ids = reference_present_ids(values);
    if !ids.is_empty() {
        return Observation::Present { evidence: ids };
    }
    if let Some(value) = reference_conflict(values) {
        return value;
    }
    if let Some(reason) = reference_unknown(values) {
        return Observation::Unknown(reason);
    }
    Observation::Absent {
        coverage: reference_absent(values).expect("reference Any has absence"),
    }
}

fn reference_at_least(values: &[Observation], minimum: usize) -> Observation {
    let present_count = values
        .iter()
        .filter(|value| matches!(value, Observation::Present { .. }))
        .count();
    if present_count >= minimum {
        return reference_present(values);
    }
    let undecided_count = values
        .iter()
        .filter(|value| matches!(value, Observation::Unknown(_) | Observation::Conflict { .. }))
        .count();
    if present_count + undecided_count >= minimum {
        return reference_conflict(values).unwrap_or_else(|| {
            Observation::Unknown(reference_unknown(values).expect("reference unknown"))
        });
    }
    Observation::Absent {
        coverage: reference_absent(values).expect("reference threshold has absence"),
    }
}

fn reference_present(values: &[Observation]) -> Observation {
    Observation::Present {
        evidence: reference_present_ids(values),
    }
}

fn reference_present_ids(values: &[Observation]) -> Vec<u64> {
    let mut ids = Vec::new();
    for value in values {
        if let Observation::Present { evidence } = value {
            ids.extend_from_slice(evidence.as_slice());
        }
    }
    ids
}

fn reference_absent(values: &[Observation]) -> Option<u64> {
    values.iter().find_map(|value| match value {
        Observation::Absent { coverage } => Some(*coverage),
        _ => None,
    })
}

fn reference_unknown(values: &[Observation]) -> Option<u32> {
    values.iter().find_map(|value| match value {
        Observation::Unknown(reason) => Some(*reason),
        _ => None,
    })
}

fn reference_conflict(values: &[Observation]) -> Option<Observation> {
    values.iter().find_map(|value| match value {
        Observation::Conflict { alternatives } => Some(Observation::Conflict {
            alternatives: alternatives.clone(),
        }),
        _ => None,
    })
}
