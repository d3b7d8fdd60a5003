//! The pool and its circuit breaker.

use html_to_pdf_rust::browser::instance::BrowserInstance;
use html_to_pdf_rust::browser::pool::{
    AcquireAction, AcquireInput, BrowserPool, CircuitBreakerState, MaintainAction, MaintainInput,
};

const SEC: u128 = 1_000_000_000;

fn pool(min: usize, max: usize, ids: &[u64]) -> BrowserPool {
    let launches = ids.iter().map(|id| Some(BrowserInstance::new(*id, 0))).collect();
    let mut pool = BrowserPool::new("/chrome".to_string(), ids.len(), max, &launches).unwrap();
    pool.min_instances = min;
    pool
}

fn ids(pool: &BrowserPool) -> Vec<u64> {
    pool.instances.iter().map(|i| i.id).collect()
}

#[test]
fn a_breaker_opens_with_the_last_failure_it_allows() {
    let mut breaker = CircuitBreakerState::new();
    for n in 1..=4_u128 {
        assert!(!breaker.is_open(3) || n > 3);
        breaker.record_failure(3, n * SEC);
    }
    assert!(breaker.is_open(3));
    assert_eq!(breaker.consecutive_failures, 4);
    assert_eq!(breaker.tripped_at, Some(3 * SEC));
    assert!(!breaker.should_attempt_recovery(10, 13 * SEC - 1));
    assert!(breaker.should_attempt_recovery(10, 13 * SEC));
    breaker.reset_cooldown(20 * SEC);
    assert!(!breaker.should_attempt_recovery(10, 29 * SEC));
    breaker.reset();
    assert_eq!(breaker, CircuitBreakerState::new());
    assert!(!breaker.should_attempt_recovery(0, 100 * SEC));
}

#[test]
fn a_pool_holds_the_browsers_that_were_launched() {
    let launches = vec![
        None,
        Some(BrowserInstance::new(1, 0)),
        None,
        Some(BrowserInstance::new(2, 5)),
    ];
    let pool = BrowserPool::new("/chrome".to_string(), 4, 6, &launches).unwrap();
    assert_eq!(ids(&pool), [1, 2]);
    assert_eq!(pool.chrome_path, "/chrome");
    assert_eq!((pool.min_instances, pool.max_instances), (4, 6));
    let none = BrowserPool::new("/chrome".to_string(), 1, 1, &vec![None]);
    assert_eq!(none.unwrap_err(), "Failed to create any browser instances");
}

#[test]
fn clearing_a_pool_counts_its_browsers() {
    let mut p = pool(1, 3, &[1, 2]);
    assert_eq!(p.clear(), 2);
    assert_eq!(p.clear(), 0);
}

#[test]
fn the_first_browser_that_answers_is_handed_out() {
    let mut p = pool(1, 3, &[1, 2]);
    p.circuit_breaker.record_failure(10, 0);
    assert_eq!(
        p.get_healthy_instance(AcquireInput::Begin, SEC),
        AcquireAction::Ping { attempt: 0, index: 0, id: 1 }
    );
    assert_eq!(
        p.get_healthy_instance(AcquireInput::PingAnswered { index: 0 }, 2 * SEC),
        AcquireAction::Ready { id: 1 }
    );
    assert_eq!(p.instances[0].usage_count, 1);
    assert_eq!(p.instances[0].last_used, 2 * SEC);
    assert_eq!(p.circuit_breaker, CircuitBreakerState::new());
}

#[test]
fn unhealthy_browsers_leave_and_retiring_ones_are_passed_over() {
    let mut p = pool(1, 3, &[1, 2, 3]);
    p.mark_unhealthy(1);
    p.mark_unhealthy(99);
    p.instances[1].usage_count = 31;
    assert_eq!(
        p.get_healthy_instance(AcquireInput::Begin, SEC),
        AcquireAction::Ping { attempt: 0, index: 1, id: 3 }
    );
    assert_eq!(ids(&p), [2, 3]);
}

#[test]
fn a_full_pool_is_gone_through_again_without_those_that_did_not_answer() {
    let mut p = pool(1, 2, &[1, 2]);
    p.instances[1].usage_count = 31;
    assert_eq!(
        p.get_healthy_instance(AcquireInput::Begin, SEC),
        AcquireAction::Ping { attempt: 0, index: 0, id: 1 }
    );
    // The one that failed leaves with the next attempt, and a new one fits in.
    assert_eq!(
        p.get_healthy_instance(AcquireInput::PingFailed { attempt: 0, index: 0 }, SEC),
        AcquireAction::Launch { attempt: 1 }
    );
    assert_eq!(ids(&p), [2]);
    assert_eq!(
        p.get_healthy_instance(AcquireInput::Launched { id: 9 }, 3 * SEC),
        AcquireAction::Ready { id: 9 }
    );
    assert_eq!(ids(&p), [2, 9]);
    assert_eq!(p.instances[1].usage_count, 1);
}

#[test]
fn a_pool_that_may_hold_nothing_fails() {
    let mut p = pool(0, 0, &[1]);
    p.mark_unhealthy(1);
    assert_eq!(
        p.get_healthy_instance(AcquireInput::Begin, SEC),
        AcquireAction::AllInstancesFailed
    );
}

#[test]
fn a_full_pool_of_retiring_browsers_fails() {
    let mut p = pool(1, 1, &[1]);
    p.instances[0].usage_count = 31;
    assert_eq!(
        p.get_healthy_instance(AcquireInput::Begin, SEC),
        AcquireAction::AllInstancesFailed
    );
    assert_eq!(ids(&p), [1]);
}

#[test]
fn failed_launches_are_repeated_after_growing_waits() {
    let mut p = pool(1, 2, &[1]);
    p.mark_unhealthy(1);
    let mut action = p.get_healthy_instance(AcquireInput::Begin, SEC);
    let mut waits = vec![];
    loop {
        action = match action {
            AcquireAction::Launch { attempt } => {
                p.get_healthy_instance(AcquireInput::LaunchFailed { attempt }, SEC)
            }
            AcquireAction::Wait { attempt, millis } => {
                waits.push(millis);
                p.get_healthy_instance(AcquireInput::Waited { attempt }, SEC)
            }
            AcquireAction::AllInstancesFailed => break,
            other => panic!("{:?}", other),
        }
    }
    assert_eq!(waits, [500, 1000]);
    assert_eq!(p.circuit_breaker.consecutive_failures, 3);
}

#[test]
fn maintenance_sweeps_and_refills() {
    let mut p = pool(2, 5, &[1, 2, 3, 4]);
    p.mark_unhealthy(1);
    p.instances[1].usage_count = 31;
    p.instances[2].last_used = 100 * SEC;
    // The pool is above its minimum, so the idle one goes as well.
    assert_eq!(p.maintain(MaintainInput::Begin, 301 * SEC), MaintainAction::LaunchRefill);
    assert_eq!(ids(&p), [3]);
    assert_eq!(
        p.maintain(MaintainInput::RefillLaunched { id: 8 }, 302 * SEC),
        MaintainAction::Done
    );
    assert_eq!(ids(&p), [3, 8]);
    assert_eq!(p.instances[1].usage_count, 0);
}

#[test]
fn idle_browsers_stay_in_a_pool_at_its_minimum() {
    let mut p = pool(2, 5, &[1, 2]);
    assert_eq!(p.maintain(MaintainInput::Begin, 1000 * SEC), MaintainAction::Done);
    assert_eq!(ids(&p), [1, 2]);
    assert_eq!(p.maintain(MaintainInput::Begin, 1201 * SEC), MaintainAction::LaunchRefill);
    assert_eq!(p.maintain(MaintainInput::RefillFailed, 1201 * SEC), MaintainAction::Done);
    assert_eq!(p.circuit_breaker.consecutive_failures, 1);
}

#[test]
fn an_open_breaker_stops_maintenance_until_it_has_cooled_down() {
    let mut p = pool(3, 5, &[1]);
    p.mark_unhealthy(1);
    for _ in 0..10 {
        assert_eq!(p.maintain(MaintainInput::RefillFailed, 50 * SEC), MaintainAction::Done);
    }
    assert_eq!(
        p.maintain(MaintainInput::Begin, 51 * SEC + 1),
        MaintainAction::CoolDown { remaining_secs: 119 }
    );
    assert_eq!(ids(&p), [1]);
    assert_eq!(
        p.maintain(MaintainInput::Begin, 170 * SEC - 1),
        MaintainAction::CoolDown { remaining_secs: 1 }
    );
    assert_eq!(p.maintain(MaintainInput::Begin, 170 * SEC), MaintainAction::LaunchRecovery);
    assert_eq!(
        p.maintain(MaintainInput::RecoveryLaunched { id: 5 }, 171 * SEC),
        MaintainAction::Done
    );
    assert_eq!(ids(&p), [1, 5]);
    assert_eq!(p.circuit_breaker, CircuitBreakerState::new());
}

#[test]
fn a_recovery_that_fails_ends_the_process() {
    let mut p = pool(1, 2, &[1]);
    p.circuit_breaker = CircuitBreakerState { consecutive_failures: 12, tripped_at: Some(0) };
    assert_eq!(p.maintain(MaintainInput::Begin, 120 * SEC), MaintainAction::LaunchRecovery);
    assert_eq!(
        p.maintain(MaintainInput::RecoveryFailed, 121 * SEC),
        MaintainAction::Exit { code: 1 }
    );
    assert_eq!(p.circuit_breaker.tripped_at, Some(121 * SEC));
}

#[test]
fn a_breaker_without_a_trip_time_starts_its_cooldown() {
    let mut p = pool(1, 2, &[1]);
    p.circuit_breaker = CircuitBreakerState { consecutive_failures: 10, tripped_at: None };
    assert_eq!(
        p.maintain(MaintainInput::Begin, 7 * SEC),
        MaintainAction::CoolDown { remaining_secs: 120 }
    );
    assert_eq!(p.circuit_breaker.tripped_at, Some(7 * SEC));
}

#[test]
fn a_new_pool_has_as_many_launches_as_it_keeps_browsers() {
    let mut launches = Vec::new();
    let mut asked = 0;
    while BrowserPool::launch_due(3, &launches) {
        asked += 1;
        launches.push(if asked == 2 { None } else { Some(BrowserInstance::new(asked, 0)) });
    }
    assert_eq!(asked, 3);
    let pool = BrowserPool::new("/chrome".to_string(), 3, 5, &launches).unwrap();
    assert_eq!(ids(&pool), [1, 3]);
    assert!(!BrowserPool::launch_due(0, &Vec::new()));
}

#[test]
fn an_acquisition_asks_for_three_launches_at_most() {
    let mut p = pool(1, 3, &[1]);
    p.mark_unhealthy(1);
    let mut launches = 0;
    let mut input = AcquireInput::Begin;
    loop {
        input = match p.get_healthy_instance(input, SEC) {
            AcquireAction::Launch { attempt } => {
                launches += 1;
                AcquireInput::LaunchFailed { attempt }
            }
            AcquireAction::Wait { attempt, millis } => {
                assert_eq!(millis, 500 * (attempt as u64 + 1));
                AcquireInput::Waited { attempt }
            }
            AcquireAction::AllInstancesFailed => break,
            _ => panic!("nothing to ping"),
        };
    }
    assert_eq!(launches, 3);
    assert_eq!(p.circuit_breaker.consecutive_failures, 3);
}

#[test]
fn an_acquisition_hands_out_the_first_that_answers() {
    let mut p = pool(1, 5, &[1, 2, 3, 4]);
    p.instances[1].usage_count = 31;
    let mut input = AcquireInput::Begin;
    let mut pinged = Vec::new();
    let id = loop {
        input = match p.get_healthy_instance(input, SEC) {
            AcquireAction::Ping { attempt, index, id } => {
                pinged.push(id);
                if id == 1 {
                    AcquireInput::PingFailed { attempt, index }
                } else {
                    AcquireInput::PingAnswered { index }
                }
            }
            AcquireAction::Ready { id } => break id,
            _ => panic!("a browser is left"),
        };
    };
    assert_eq!(pinged, [1, 3]);
    assert_eq!(id, 3);
}

#[test]
fn a_maintenance_run_keeps_and_launches_in_order() {
    let run = |outcomes: &[Option<u64>]| {
        let mut p = pool(4, 6, &[1, 2, 3]);
        p.mark_unhealthy(2);
        let mut next = outcomes.iter();
        let mut action = p.maintain(MaintainInput::Begin, SEC);
        while action == MaintainAction::LaunchRefill {
            let input = match next.next().unwrap() {
                Some(id) => MaintainInput::RefillLaunched { id: *id },
                None => MaintainInput::RefillFailed,
            };
            action = p.maintain(input, 2 * SEC);
        }
        assert_eq!(action, MaintainAction::Done);
        (ids(&p), p.circuit_breaker.consecutive_failures)
    };
    assert_eq!(run(&[Some(7), Some(8)]), (vec![1, 3, 7, 8], 0));
    assert_eq!(run(&[Some(7), None]), (vec![1, 3, 7], 1));
    assert_eq!(run(&[None]), (vec![1, 3], 1));
}
