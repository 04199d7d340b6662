use entropic_void::redistribution::{
    check_transfer, evolve_adaptive, flatten_index, unflatten_index, SubstepOutcome,
    SubstepSchedule, MAX_HALVINGS, STIFF_INTEGRATION_FAILED, TRANSFER_NOT_ALLOWED,
};
use entropic_void::types::{TransferMask, FORCES, N_FLATTENED, VARS};

fn open_mask() -> TransferMask {
    TransferMask {
        allow_var_to_var: [[true; VARS]; VARS],
        allow_force_to_force: [[true; FORCES]; FORCES],
    }
}

#[test]
fn channels_are_laid_out_variable_by_variable() {
    assert_eq!(N_FLATTENED, 20);
    assert_eq!(flatten_index(0, 0), 0);
    assert_eq!(flatten_index(0, 3), 3);
    assert_eq!(flatten_index(1, 0), 4);
    assert_eq!(flatten_index(4, 3), 19);
    assert_eq!(unflatten_index(0), (0, 0));
    assert_eq!(unflatten_index(7), (1, 3));
    assert_eq!(unflatten_index(19), (4, 3));
}

#[test]
fn flatten_and_unflatten_are_inverse() {
    for var in 0..VARS {
        for force in 0..FORCES {
            assert_eq!(unflatten_index(flatten_index(var, force)), (var, force));
        }
    }
    for n in 0..N_FLATTENED {
        let (var, force) = unflatten_index(n);
        assert_eq!(flatten_index(var, force), n);
    }
}

#[test]
fn the_default_mask_allows_nothing() {
    let mask = TransferMask::default();
    for from in 0..N_FLATTENED {
        for to in 0..N_FLATTENED {
            assert!(!mask.permits(from, to));
            assert_eq!(check_transfer(&mask, from, to), Err(TRANSFER_NOT_ALLOWED));
        }
    }
}

#[test]
fn a_transfer_needs_both_the_variable_pair_and_the_force_pair() {
    let mut mask = TransferMask::default();
    mask.allow_var_to_var[0][1] = true;
    mask.allow_force_to_force[2][3] = true;
    let from = flatten_index(0, 2);
    let to = flatten_index(1, 3);
    assert!(mask.permits(from, to));
    assert_eq!(check_transfer(&mask, from, to), Ok(()));
    // The mask is directed: the way back was not allowed.
    assert!(!mask.permits(to, from));
    // Right variables, wrong forces.
    assert!(!mask.permits(flatten_index(0, 2), flatten_index(1, 2)));
    // Right forces, wrong variables.
    assert!(!mask.permits(flatten_index(1, 2), flatten_index(1, 3)));
    assert_eq!(check_transfer(&mask, to, from), Err("TransferNotAllowed"));
}

#[test]
fn positions_outside_the_vector_are_never_permitted() {
    let mask = open_mask();
    assert!(mask.permits(0, 19));
    assert!(mask.permits(19, 0));
    assert!(!mask.permits(20, 0));
    assert!(!mask.permits(0, 20));
    assert!(!mask.permits(usize::MAX, usize::MAX));
    assert_eq!(check_transfer(&mask, 20, 0), Err(TRANSFER_NOT_ALLOWED));
}

#[test]
fn one_accepted_step_finishes_a_fresh_schedule() {
    let mut schedule = SubstepSchedule::new();
    assert!(!schedule.is_finished());
    assert_eq!((schedule.depth(), schedule.parts(), schedule.done()), (0, 1, 0));
    assert_eq!(evolve_adaptive(&mut schedule, SubstepOutcome::Accepted), Ok(()));
    assert!(schedule.is_finished());
    assert_eq!((schedule.depth(), schedule.parts(), schedule.done()), (0, 1, 1));
}

#[test]
fn a_finished_schedule_is_left_alone() {
    let mut schedule = SubstepSchedule::new();
    evolve_adaptive(&mut schedule, SubstepOutcome::Accepted).unwrap();
    assert_eq!(evolve_adaptive(&mut schedule, SubstepOutcome::Rejected), Ok(()));
    assert_eq!(evolve_adaptive(&mut schedule, SubstepOutcome::Accepted), Ok(()));
    assert!(schedule.is_finished());
    assert_eq!((schedule.depth(), schedule.parts(), schedule.done()), (0, 1, 1));
}

#[test]
fn a_rejection_halves_and_acceptances_double_again() {
    let mut s = SubstepSchedule::new();
    evolve_adaptive(&mut s, SubstepOutcome::Rejected).unwrap();
    assert_eq!((s.depth(), s.parts(), s.done()), (1, 2, 0));
    evolve_adaptive(&mut s, SubstepOutcome::Rejected).unwrap();
    assert_eq!((s.depth(), s.parts(), s.done()), (2, 4, 0));
    // First quarter done: an odd count, so the width stays.
    evolve_adaptive(&mut s, SubstepOutcome::Accepted).unwrap();
    assert_eq!((s.depth(), s.parts(), s.done()), (2, 4, 1));
    // Second quarter done: two quarters make one half.
    evolve_adaptive(&mut s, SubstepOutcome::Accepted).unwrap();
    assert_eq!((s.depth(), s.parts(), s.done()), (1, 2, 1));
    assert!(!s.is_finished());
    // The second half in one go.
    evolve_adaptive(&mut s, SubstepOutcome::Accepted).unwrap();
    assert_eq!((s.depth(), s.parts(), s.done()), (0, 1, 1));
    assert!(s.is_finished());
}

#[test]
fn too_many_rejections_fail_the_integration() {
    let mut s = SubstepSchedule::new();
    for depth in 1..=MAX_HALVINGS {
        assert_eq!(evolve_adaptive(&mut s, SubstepOutcome::Rejected), Ok(()));
        assert_eq!(s.depth(), depth);
        assert_eq!(s.parts(), 1u64 << depth);
        assert_eq!(s.done(), 0);
    }
    assert_eq!(s.parts(), 1_048_576);
    let before = (s.depth(), s.parts(), s.done());
    assert_eq!(evolve_adaptive(&mut s, SubstepOutcome::Rejected), Err(STIFF_INTEGRATION_FAILED));
    assert_eq!(evolve_adaptive(&mut s, SubstepOutcome::Rejected), Err("StiffIntegrationFailed"));
    assert_eq!((s.depth(), s.parts(), s.done()), before);
    // The smallest sub-step can still be accepted.
    assert_eq!(evolve_adaptive(&mut s, SubstepOutcome::Accepted), Ok(()));
    assert_eq!((s.depth(), s.done()), (MAX_HALVINGS, 1));
}

#[test]
fn the_integrated_part_never_shrinks_and_ends_at_the_whole() {
    // Reject whenever the sub-step is wider than a sixteenth of the step.
    let mut s = SubstepSchedule::new();
    let whole: u64 = 1 << MAX_HALVINGS;
    let mut covered: u64 = 0;
    let mut trials: u32 = 0;
    while !s.is_finished() {
        let width = whole / s.parts();
        let outcome =
            if s.parts() < 16 { SubstepOutcome::Rejected } else { SubstepOutcome::Accepted };
        evolve_adaptive(&mut s, outcome).unwrap();
        let now = s.done() * (whole / s.parts());
        match outcome {
            SubstepOutcome::Accepted => assert_eq!(now, covered + width),
            SubstepOutcome::Rejected => assert_eq!(now, covered),
        }
        covered = now;
        trials += 1;
        assert!(trials < 1000);
    }
    assert_eq!(covered, whole);
}

#[test]
fn the_default_schedule_is_the_fresh_one() {
    let s = SubstepSchedule::default();
    assert_eq!((s.depth(), s.parts(), s.done()), (0, 1, 0));
}
