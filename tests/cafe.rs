use std::collections::VecDeque;

use rusty_problems::cafe::{Action, AdmissionOrder, Cafe, Phase, ResourcePool};

struct Outcome {
    record: Vec<Option<String>>,
    admitted: Vec<usize>,
    summaries_in_order: Vec<String>,
    max_outstanding: u32,
    polls_before_last_admission: usize,
    free_at_end: u32,
}

/// Drives a run as a task scheduler would, with the task admitted first finishing first.
fn run(consumers: usize, capacity: u32) -> Outcome {
    let names: Vec<String> = (0..consumers).map(|i| format!("visitor {}", i)).collect();
    let mut cafe = Cafe::new(names, capacity);
    let mut running: VecDeque<(usize, String)> = VecDeque::new();
    let mut admitted = Vec::new();
    let mut summaries_in_order = Vec::new();
    let mut max_outstanding = 0;
    let mut polls = 0;
    let mut polls_before_last_admission = 0;
    loop {
        let free = cafe.computers().free_count();
        assert!(free <= capacity);
        assert!(cafe.outstanding_count() <= capacity);
        max_outstanding = max_outstanding.max(cafe.outstanding_count());
        match cafe.next_action() {
            Action::Dispatch { ticket, consumer } => {
                admitted.push(ticket);
                polls_before_last_admission = polls;
                running.push_back((ticket, format!("{} is done", consumer)));
            }
            Action::Poll | Action::Wait => {
                polls += 1;
                let (ticket, summary) = running.pop_front().expect("a task is running");
                assert!(cafe.is_outstanding(ticket));
                summaries_in_order.push(summary.clone());
                cafe.handle_msg(ticket, summary);
                assert!(!cafe.is_outstanding(ticket));
            }
            Action::Finish => break,
        }
    }
    assert!(matches!(cafe.phase(), Phase::Done));
    Outcome {
        record: cafe.record().clone(),
        admitted,
        summaries_in_order,
        max_outstanding,
        polls_before_last_admission,
        free_at_end: cafe.computers().free_count(),
    }
}

#[test]
fn no_consumers_finish_at_once() {
    let mut cafe: Cafe<String> = Cafe::new(Vec::new(), 3);
    assert!(matches!(cafe.phase(), Phase::Done));
    assert!(matches!(cafe.next_action(), Action::Finish));
    assert_eq!(cafe.completed_count(), 0);
    assert_eq!(cafe.record().len(), 0);
    assert_eq!(cafe.computers().free_count(), 3);
}

#[test]
fn one_consumer_one_computer() {
    let out = run(1, 1);
    assert_eq!(out.admitted, vec![0]);
    assert_eq!(out.summaries_in_order, vec!["visitor 0 is done".to_string()]);
    assert_eq!(out.free_at_end, 1);
    assert_eq!(out.max_outstanding, 1);
}

#[test]
fn four_consumers_two_computers() {
    let out = run(4, 2);
    assert_eq!(out.max_outstanding, 2);
    assert_eq!(out.admitted.len(), 4);
    assert_eq!(out.summaries_in_order.len(), 4);
    assert!(out.record.iter().all(|s| s.is_some()));
    assert_eq!(out.free_at_end, 2);
}

#[test]
fn five_consumers_five_computers_never_wait() {
    let out = run(5, 5);
    assert_eq!(out.admitted, vec![4, 3, 2, 1, 0]);
    assert_eq!(out.polls_before_last_admission, 0);
    assert_eq!(out.max_outstanding, 5);
    assert_eq!(out.free_at_end, 5);
}

#[test]
fn capacity_does_not_change_the_record() {
    let small = run(6, 2);
    let large = run(6, 6);
    let single = run(6, 1);
    assert_eq!(small.record, large.record);
    assert_eq!(single.record, large.record);
    assert_eq!(large.record[3], Some("visitor 3 is done".to_string()));
}

#[test]
fn summaries_match_consumers_for_many_shapes() {
    for consumers in 0..8 {
        for capacity in 1..5u32 {
            let out = run(consumers, capacity);
            assert_eq!(out.summaries_in_order.len(), consumers);
            assert_eq!(out.free_at_end, capacity);
            assert!(out.max_outstanding <= capacity);
        }
    }
}

#[test]
fn steps_of_a_small_run() {
    let mut cafe = Cafe::new(vec!['a', 'b', 'c'], 1);
    assert!(matches!(cafe.phase(), Phase::Admitting));
    match cafe.next_action() {
        Action::Dispatch { ticket, consumer } => {
            assert_eq!(ticket, 2);
            assert_eq!(consumer, 'c');
        }
        _ => panic!("expected an admission"),
    }
    assert_eq!(cafe.waiting_count(), 2);
    assert_eq!(cafe.outstanding_count(), 1);
    assert!(matches!(cafe.next_action(), Action::Poll));
    assert!(!cafe.is_outstanding(0));
    assert!(!cafe.is_outstanding(5));
    cafe.handle_msg(2, "c left".to_string());
    assert_eq!(cafe.record()[2], Some("c left".to_string()));
    assert_eq!(cafe.completed_count(), 1);
    assert!(matches!(cafe.next_action(), Action::Dispatch { ticket: 1, consumer: 'b' }));
    cafe.handle_msg(1, "b left".to_string());
    assert!(matches!(cafe.next_action(), Action::Dispatch { ticket: 0, consumer: 'a' }));
    assert!(matches!(cafe.phase(), Phase::Draining));
    assert!(matches!(cafe.next_action(), Action::Wait));
    cafe.handle_msg(0, "a left".to_string());
    assert!(matches!(cafe.next_action(), Action::Finish));
    assert_eq!(cafe.computers().free_count(), 1);
}

#[test]
fn no_computers_means_polling() {
    let mut cafe = Cafe::new(vec![1u8], 0);
    assert!(matches!(cafe.next_action(), Action::Poll));
    assert!(matches!(cafe.next_action(), Action::Poll));
    assert_eq!(cafe.waiting_count(), 1);
}

#[test]
fn pool_reserve_and_release() {
    let mut pool = ResourcePool::new(2);
    assert!(pool.try_reserve());
    assert!(pool.try_reserve());
    assert_eq!(pool.free_count(), 0);
    assert!(!pool.try_reserve());
    assert_eq!(pool.free_count(), 0);
    pool.release();
    assert_eq!(pool.free_count(), 1);
    assert_eq!(pool.total_capacity(), 2);
    let mut empty = ResourcePool::new(0);
    assert!(!empty.try_reserve());
}

#[test]
fn first_first_admits_in_arrival_order() {
    let mut cafe = Cafe::with_order(vec!['a', 'b', 'c'], 2, AdmissionOrder::FirstFirst);
    assert!(matches!(cafe.next_action(), Action::Dispatch { ticket: 0, consumer: 'a' }));
    assert!(matches!(cafe.next_action(), Action::Dispatch { ticket: 1, consumer: 'b' }));
    assert!(matches!(cafe.next_action(), Action::Poll));
    assert!(!cafe.is_outstanding(2));
    assert!(cafe.is_outstanding(1));
    cafe.handle_msg(1, "b left".to_string());
    assert!(matches!(cafe.next_action(), Action::Dispatch { ticket: 2, consumer: 'c' }));
    assert!(matches!(cafe.next_action(), Action::Wait));
    cafe.handle_msg(0, "a left".to_string());
    cafe.handle_msg(2, "c left".to_string());
    assert!(matches!(cafe.next_action(), Action::Finish));
    assert_eq!(
        cafe.record().clone(),
        vec![Some("a left".to_string()), Some("b left".to_string()), Some("c left".to_string())]
    );
}

#[test]
fn last_first_is_the_default_order() {
    let mut cafe = Cafe::new(vec![10u32, 20, 30], 3);
    assert!(matches!(cafe.next_action(), Action::Dispatch { ticket: 2, consumer: 30 }));
    assert!(matches!(cafe.next_action(), Action::Dispatch { ticket: 1, consumer: 20 }));
    assert!(matches!(cafe.next_action(), Action::Dispatch { ticket: 0, consumer: 10 }));
    assert!(matches!(cafe.next_action(), Action::Wait));
}
