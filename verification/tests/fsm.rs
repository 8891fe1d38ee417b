use std::collections::hash_map::DefaultHasher;
use std::hash::{Hash, Hasher};

use service_stack::error::{cause_chain, failure, ServiceError};
use service_stack::fsm::{advance, FsmHandler};
use service_stack::Service;

/// Adds every payload to a running total and returns the total.
#[derive(Debug, Clone, Copy)]
pub struct TotalService {
    total: u64,
}

impl Service<u64> for TotalService {
    type Resp = u64;

    fn request(&mut self, msg: u64) -> Result<Self::Resp, ServiceError> {
        if msg == 0 {
            return Err(failure("nothing to add"));
        }
        self.total += msg;
        Ok(self.total)
    }
}

fn hash_of(token: u64) -> u64 {
    let mut s = DefaultHasher::new();
    token.hash(&mut s);
    s.finish()
}

#[test]
fn advance_is_the_default_hash_of_the_token() {
    for token in [0u64, 1, 2, 42, u64::MAX] {
        assert_eq!(advance(token), hash_of(token));
    }
    assert_ne!(advance(1), 1);
    assert_ne!(advance(1), advance(2));
    assert_eq!(advance(7), advance(7));
}

#[test]
fn fsm_guard_follows_the_token_chain() {
    let t0 = 17u64;
    let t1 = hash_of(t0);
    let t2 = hash_of(t1);
    let mut guard = FsmHandler::seeded(TotalService { total: 0 }, t0);
    assert_eq!(guard.current_token(), t0);

    // In step: answered, with the next token.
    assert_eq!(guard.request((5, t0)).unwrap(), Some((5, t1)));
    assert_eq!(guard.current_token(), t1);

    // The same request again: out of step, and the guard stays where it is.
    assert_eq!(guard.request((5, t0)).unwrap(), None);
    assert_eq!(guard.current_token(), t1);

    // With the token that was handed out: in step again.
    assert_eq!(guard.request((5, t1)).unwrap(), Some((15, t2)));
    assert_eq!(guard.current_token(), t2);
}

#[test]
fn fsm_guard_calls_the_service_whatever_the_token() {
    let mut guard = FsmHandler::seeded(TotalService { total: 0 }, 1);
    assert_eq!(guard.request((5, 2)).unwrap(), None);
    // The stale request was applied all the same: the total shows it.
    assert_eq!(guard.request((1, 1)).unwrap(), Some((6, hash_of(1))));
}

#[test]
fn fsm_guard_passes_a_failure_unchanged() {
    let mut guard = FsmHandler::seeded(TotalService { total: 0 }, 1);
    let err = guard.request((0, 1)).unwrap_err();
    assert_eq!(cause_chain(&err), vec!["nothing to add".to_string()]);
    // A failure does not move the guard, with the right token or a wrong one.
    assert_eq!(guard.current_token(), 1);
    let err = guard.request((0, 9)).unwrap_err();
    assert_eq!(cause_chain(&err), vec!["nothing to add".to_string()]);
    assert_eq!(guard.current_token(), 1);
}

#[test]
fn fsm_guard_from_draws_a_token_and_tells_it() {
    let mut guard = FsmHandler::from(TotalService { total: 0 });
    let t0 = guard.current_token();
    assert_eq!(guard.request((3, t0)).unwrap(), Some((3, hash_of(t0))));
    let tokens: Vec<u64> = (0..8)
        .map(|_| FsmHandler::from(TotalService { total: 0 }).current_token())
        .collect();
    assert!(tokens.iter().any(|t| *t != tokens[0]));
}
