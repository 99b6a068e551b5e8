use std::collections::HashSet;

use flow_edge::access::{Dropper, Entrant, Words};
use flow_edge::lifecycle::IsolateState;

type State = (Words, Vec<Entrant>, Dropper);

fn key(s: &State) -> String {
    format!("{s:?}")
}

/// Every order of the steps of `n` entrants and a dropper.
fn explore(n: usize) -> usize {
    let mut seen = HashSet::new();
    let mut open = vec![(Words::new(), vec![Entrant::Reading; n], Dropper::Announcing)];
    while let Some(s) = open.pop() {
        if !seen.insert(key(&s)) {
            continue;
        }
        let (words, entrants, dropper) = &s;
        let counted = entrants
            .iter()
            .filter(|e| matches!(e, Entrant::LookingAgain | Entrant::BackingOut | Entrant::Inside))
            .count();
        assert_eq!(words.active_operations as usize, counted);
        if words.state == IsolateState::Dropped {
            assert!(!entrants.contains(&Entrant::Inside));
        }
        for i in 0..n {
            let (mut w, mut e) = (*words, entrants.clone());
            e[i].step(&mut w);
            open.push((w, e, *dropper));
        }
        let (mut w, mut d) = (*words, *dropper);
        d.step(&mut w);
        open.push((w, entrants.clone(), d));
    }
    seen.len()
}

#[test]
fn nobody_is_inside_a_dropped_isolate() {
    assert!(explore(1) > 10);
    assert!(explore(2) > 100);
    assert!(explore(3) > 1000);
}

#[test]
fn an_undisturbed_thread_gets_in_and_out() {
    let mut w = Words::new();
    let mut e = Entrant::Reading;
    for _ in 0..4 {
        e.step(&mut w);
    }
    assert_eq!((e, w.active_operations), (Entrant::Inside, 1));
    let mut d = Dropper::Announcing;
    d.step(&mut w);
    d.step(&mut w);
    assert_eq!(d, Dropper::Waiting);
    e.step(&mut w);
    assert_eq!((e, w.active_operations), (Entrant::Outside, 0));
    d.step(&mut w);
    d.step(&mut w);
    assert_eq!((d, w.state), (Dropper::Done, IsolateState::Dropped));
    let mut late = Entrant::Reading;
    late.step(&mut w);
    late.step(&mut w);
    assert_eq!(late, Entrant::Outside);
}

#[test]
fn a_thread_that_comes_too_late_backs_out() {
    let mut w = Words::new();
    let mut e = Entrant::Reading;
    for _ in 0..3 {
        e.step(&mut w);
    }
    assert_eq!(e, Entrant::LookingAgain);
    Dropper::Announcing.step(&mut w);
    e.step(&mut w);
    assert_eq!(e, Entrant::BackingOut);
    e.step(&mut w);
    assert_eq!((e, w.active_operations), (Entrant::Outside, 0));
}

#[test]
fn a_number_that_changed_is_read_again() {
    let mut w = Words::new();
    let (mut a, mut b) = (Entrant::Reading, Entrant::Reading);
    a.step(&mut w);
    a.step(&mut w);
    for _ in 0..3 {
        b.step(&mut w);
    }
    a.step(&mut w);
    assert_eq!(a, Entrant::Reading);
}
