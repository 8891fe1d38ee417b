use service_stack::actor::{react, Action, ActorLoop, Event, Exit};
use service_stack::error::{cause_chain, failure, ServiceError};
use service_stack::stack::StackService;
use service_stack::Service;

#[derive(Debug, Clone, Copy)]
pub struct AddOneService;

impl Service<u64> for AddOneService {
    type Resp = u64;

    fn request(&mut self, msg: u64) -> Result<Self::Resp, ServiceError> {
        Ok(msg + 1)
    }
}

#[derive(Debug, Clone, Copy)]
pub struct DoubleService;

impl Service<u64> for DoubleService {
    type Resp = u64;

    fn request(&mut self, msg: u64) -> Result<Self::Resp, ServiceError> {
        Ok(msg * 2)
    }
}

/// Answers with the number of requests it has seen, and fails on zero.
#[derive(Debug, Clone, Copy)]
pub struct CountService {
    seen: u64,
}

impl Service<u64> for CountService {
    type Resp = u64;

    fn request(&mut self, msg: u64) -> Result<Self::Resp, ServiceError> {
        self.seen += 1;
        if msg == 0 {
            Err(failure("zero"))
        } else {
            Ok(self.seen)
        }
    }
}

/// Runs a loop the way a caller with two unbounded channels would: every
/// request of `inbox` is delivered in order, then the inbox closes.
fn drive<S: Service<u64, Resp = u64>>(service: S, inbox: Vec<u64>) -> (Vec<u64>, Exit) {
    let mut actor = ActorLoop::new(service);
    let mut inbox = inbox.into_iter();
    let mut outbox = Vec::new();
    let mut action = Action::Receive;
    loop {
        let event = match action {
            Action::Receive => match inbox.next() {
                Some(msg) => Event::Request(msg),
                None => Event::InboxClosed,
            },
            Action::Forward(resp) => {
                outbox.push(resp);
                Event::Delivered
            }
            Action::Halt(exit) => {
                assert!(!actor.is_running());
                return (outbox, exit);
            }
        };
        assert!(actor.is_running());
        action = actor.step(event);
    }
}

#[test]
fn actor() {
    let add_one_service = AddOneService;
    let double_service = DoubleService;

    let mut actor = ActorLoop::new(add_one_service.then_after(double_service));

    // (1 + 1) * 2
    match actor.step(Event::Request(1)) {
        Action::Forward(resp) => assert_eq!(4, resp),
        _ => panic!("the response was not forwarded"),
    }
}

#[test]
fn actor_answers_in_the_order_of_the_requests() {
    let (outbox, exit) = drive(AddOneService.then_after(DoubleService), vec![1, 2]);
    assert_eq!(outbox, vec![4, 6]);
    assert!(matches!(exit, Exit::InboxClosed));
}

#[test]
fn actor_handles_one_request_at_a_time() {
    let mut actor = ActorLoop::new(CountService { seen: 0 });
    assert!(matches!(actor.step(Event::Request(5)), Action::Forward(1)));
    // A second request before the response was taken is out of turn: the
    // loop ends and the service is not asked.
    assert!(matches!(
        actor.step(Event::Request(5)),
        Action::Halt(Exit::OutOfTurn)
    ));
    assert!(!actor.is_running());
}

#[test]
fn actor_waits_for_the_next_request_after_a_delivery() {
    let mut actor = ActorLoop::new(CountService { seen: 0 });
    assert!(matches!(actor.step(Event::Request(5)), Action::Forward(1)));
    assert!(matches!(actor.step(Event::Delivered), Action::Receive));
    assert!(matches!(actor.step(Event::Request(5)), Action::Forward(2)));
    assert!(matches!(actor.step(Event::Delivered), Action::Receive));
    assert!(actor.is_running());
}

#[test]
fn actor_ends_on_a_failure_of_its_service() {
    let (outbox, exit) = drive(CountService { seen: 0 }, vec![7, 7, 0, 7]);
    assert_eq!(outbox, vec![1, 2]);
    match exit {
        Exit::ServiceFailed(err) => assert_eq!(cause_chain(&err), vec!["zero".to_string()]),
        _ => panic!("the loop did not end on the failure"),
    }
}

#[test]
fn actor_ends_when_a_channel_closes() {
    let mut actor = ActorLoop::new(CountService { seen: 0 });
    assert!(matches!(
        actor.step(Event::InboxClosed),
        Action::Halt(Exit::InboxClosed)
    ));
    assert!(!actor.is_running());

    let mut actor = ActorLoop::new(CountService { seen: 0 });
    assert!(matches!(actor.step(Event::Request(1)), Action::Forward(1)));
    assert!(matches!(
        actor.step(Event::OutboxClosed),
        Action::Halt(Exit::OutboxClosed)
    ));
    assert!(!actor.is_running());
}

#[test]
fn actor_that_has_ended_stays_ended() {
    let mut actor = ActorLoop::new(CountService { seen: 0 });
    assert!(matches!(
        actor.step(Event::InboxClosed),
        Action::Halt(Exit::InboxClosed)
    ));
    for _ in 0..3 {
        assert!(matches!(
            actor.step(Event::Request(1)),
            Action::Halt(Exit::OutOfTurn)
        ));
        assert!(matches!(
            actor.step(Event::Delivered),
            Action::Halt(Exit::OutOfTurn)
        ));
    }
}

#[test]
fn actor_rejects_reports_it_was_not_waiting_for() {
    let mut actor = ActorLoop::new(CountService { seen: 0 });
    assert!(matches!(
        actor.step(Event::Delivered),
        Action::Halt(Exit::OutOfTurn)
    ));
    let mut actor = ActorLoop::new(CountService { seen: 0 });
    assert!(matches!(
        actor.step(Event::OutboxClosed),
        Action::Halt(Exit::OutOfTurn)
    ));
    let mut actor = ActorLoop::new(CountService { seen: 0 });
    assert!(matches!(actor.step(Event::Request(1)), Action::Forward(1)));
    assert!(matches!(
        actor.step(Event::InboxClosed),
        Action::Halt(Exit::OutOfTurn)
    ));
}

#[test]
fn react_forwards_a_response_and_halts_on_a_failure() {
    assert!(matches!(react(Ok(3u64)), Action::Forward(3)));
    match react::<u64>(Err(failure("broken"))) {
        Action::Halt(Exit::ServiceFailed(err)) => {
            assert_eq!(cause_chain(&err), vec!["broken".to_string()])
        }
        _ => panic!("a failure did not halt the loop"),
    }
}
