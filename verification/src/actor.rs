//! The loop of an actor, as the decisions it takes.
//!
//! An actor is a service that runs on its own: requests reach it through one
//! bounded channel and its responses leave through another. The loop that
//! sits between the two channels waits for a request, has the service
//! answer it, hands the response on, and starts over; it handles one request
//! at a time, so responses leave in the order in which the requests came.
//!
//! Waiting on a channel is for the caller to do. This module holds what the
//! loop decides: [`ActorLoop::step`] takes what the caller has just seen
//! happen and tells it what to do next.
use vstd::prelude::*;

use crate::error::ServiceError;
use crate::Service;

verus! {

/// How many requests, and how many responses, the channels of an actor hold
/// before a sender has to wait.
pub const DEFAULT_MSG_BUFFER_SIZE: usize = 64;

/// What the loop is waiting for.
#[derive(Clone, Copy, Debug, PartialEq, Eq, Structural)]
pub enum Phase {
    /// The next request.
    Receiving,
    /// The response it has handed out to be taken by the channel.
    Forwarding,
    /// Nothing: the loop has ended.
    Ended,
}

/// What the caller has seen happen.
#[derive(Debug)]
pub enum Event<Req> {
    /// A request came in.
    Request(Req),
    /// The channel of requests is closed and empty.
    InboxClosed,
    /// The channel of responses took the response.
    Delivered,
    /// The channel of responses is closed.
    OutboxClosed,
}

/// Why the loop has ended.
#[derive(Debug)]
pub enum Exit {
    /// No request will come any more.
    InboxClosed,
    /// Nobody is left to take a response.
    OutboxClosed,
    /// The service failed on a request.
    ServiceFailed(ServiceError),
    /// The caller reported what the loop was not waiting for.
    OutOfTurn,
}

/// What the caller is to do next.
#[derive(Debug)]
pub enum Action<Resp> {
    /// Wait for the next request and report it.
    Receive,
    /// Hand this response to the channel of responses and report how it went.
    Forward(Resp),
    /// Stop: the loop has ended.
    Halt(Exit),
}

/// What the loop does with the answer of its service: a response is
/// forwarded, a failure ends the loop.
pub open spec fn reaction<Resp>(answer: Result<Resp, ServiceError>) -> Action<Resp> {
    match answer {
        Ok(resp) => Action::Forward(resp),
        Err(cause) => Action::Halt(Exit::ServiceFailed(cause)),
    }
}

/// The phase after the service has answered.
pub open spec fn phase_after<Resp>(answer: Result<Resp, ServiceError>) -> Phase {
    if answer is Ok {
        Phase::Forwarding
    } else {
        Phase::Ended
    }
}

/// What a loop around `service` may do with the request `msg`.
pub open spec fn handles<Req, S: Service<Req>>(
    service: S,
    msg: Req,
    action: Action<S::Resp>,
    service_next: S,
    phase_next: Phase,
) -> bool {
    exists|answer: Result<S::Resp, ServiceError>|
        #[trigger] service.responds(msg, answer, &service_next) && action == reaction(answer)
            && phase_next == phase_after(answer)
}

/// What a loop in `phase` around `service` may do when the caller reports
/// `event`. The service is called on a request that the loop was waiting
/// for, and on nothing else.
pub open spec fn turns<Req, S: Service<Req>>(
    service: S,
    phase: Phase,
    event: Event<Req>,
    action: Action<S::Resp>,
    service_next: S,
    phase_next: Phase,
) -> bool {
    match event {
        Event::Request(msg) if phase == Phase::Receiving => handles(
            service,
            msg,
            action,
            service_next,
            phase_next,
        ),
        Event::InboxClosed if phase == Phase::Receiving => service_next == service && phase_next
            == Phase::Ended && action == Action::<S::Resp>::Halt(Exit::InboxClosed),
        Event::Delivered if phase == Phase::Forwarding => service_next == service && phase_next
            == Phase::Receiving && action == Action::<S::Resp>::Receive,
        Event::OutboxClosed if phase == Phase::Forwarding => service_next == service && phase_next
            == Phase::Ended && action == Action::<S::Resp>::Halt(Exit::OutboxClosed),
        _ => service_next == service && phase_next == Phase::Ended && action == Action::<
            S::Resp,
        >::Halt(Exit::OutOfTurn),
    }
}

/// What the loop does with the answer of its service.
pub fn react<Resp>(answer: Result<Resp, ServiceError>) -> (action: Action<Resp>)
    ensures
        action == reaction(answer),
{
    match answer {
        Ok(resp) => Action::Forward(resp),
        Err(cause) => Action::Halt(Exit::ServiceFailed(cause)),
    }
}

/// The loop of an actor: the service it owns and what it is waiting for.
pub struct ActorLoop<S> {
    service: S,
    phase: Phase,
}

impl<S> ActorLoop<S> {
    /// The service that the loop owns.
    pub closed spec fn service(&self) -> S {
        self.service
    }

    /// What the loop is waiting for.
    pub closed spec fn phase(&self) -> Phase {
        self.phase
    }

    /// A loop around `service` that waits for its first request.
    pub fn new(service: S) -> (actor: Self)
        ensures
            actor.service() == service,
            actor.phase() == Phase::Receiving,
    {
        ActorLoop { service, phase: Phase::Receiving }
    }

    /// Whether the loop has not ended.
    pub fn is_running(&self) -> (running: bool)
        ensures
            running == (self.phase() != Phase::Ended),
    {
        match self.phase {
            Phase::Ended => false,
            _ => true,
        }
    }

    /// Takes what the caller has seen happen and says what it is to do
    /// next.
    pub fn step<Req>(&mut self, event: Event<Req>) -> (action: Action<S::Resp>) where
        S: Service<Req>,

        ensures
            turns(
                old(self).service(),
                old(self).phase(),
                event,
                action,
                final(self).service(),
                final(self).phase(),
            ),
    {
        match self.phase {
            Phase::Receiving => match event {
                Event::Request(msg) => {
                    let answer = self.service.request(msg);
                    assert(old(self).service.responds(msg, answer, &self.service));
                    match answer {
                        Ok(_) => {
                            self.phase = Phase::Forwarding;
                        },
                        Err(_) => {
                            self.phase = Phase::Ended;
                        },
                    }
                    react(answer)
                },
                Event::InboxClosed => {
                    self.phase = Phase::Ended;
                    Action::Halt(Exit::InboxClosed)
                },
                _ => {
                    self.phase = Phase::Ended;
                    Action::Halt(Exit::OutOfTurn)
                },
            },
            Phase::Forwarding => match event {
                Event::Delivered => {
                    self.phase = Phase::Receiving;
                    Action::Receive
                },
                Event::OutboxClosed => {
                    self.phase = Phase::Ended;
                    Action::Halt(Exit::OutboxClosed)
                },
                _ => {
                    self.phase = Phase::Ended;
                    Action::Halt(Exit::OutOfTurn)
                },
            },
            Phase::Ended => Action::Halt(Exit::OutOfTurn),
        }
    }
}

/// Responses leave in the order in which the requests came.
///
/// Of a loop that waits for a request: when it forwards a response to the
/// request `one`, it waits for that response to be taken before anything
/// else; once it is taken the loop waits for a request again, with its
/// service as the first request left it; and when it then forwards a
/// response to `two`, the first response answers `one`, the second answers
/// `two`, and the service went from the one to the other.
pub proof fn lemma_answers_in_order<Req, S: Service<Req>>(
    start: S,
    one: Req,
    first: Action<S::Resp>,
    mid: S,
    mid_phase: Phase,
    two: Req,
    second: Action<S::Resp>,
    end: S,
    end_phase: Phase,
)
    requires
        turns(start, Phase::Receiving, Event::Request(one), first, mid, mid_phase),
        first is Forward,
        turns(mid, Phase::Receiving, Event::Request(two), second, end, end_phase),
        second is Forward,
    ensures
        mid_phase == Phase::Forwarding,
        turns(
            mid,
            mid_phase,
            Event::<Req>::Delivered,
            Action::<S::Resp>::Receive,
            mid,
            Phase::Receiving,
        ),
        start.responds(one, Ok(first->Forward_0), &mid),
        mid.responds(two, Ok(second->Forward_0), &end),
{
    let answer_one = choose|answer: Result<S::Resp, ServiceError>|
        #[trigger] start.responds(one, answer, &mid) && first == reaction(answer) && mid_phase
            == phase_after(answer);
    assert(answer_one == Ok::<S::Resp, ServiceError>(first->Forward_0));
    let answer_two = choose|answer: Result<S::Resp, ServiceError>|
        #[trigger] mid.responds(two, answer, &end) && second == reaction(answer) && end_phase
            == phase_after(answer);
    assert(answer_two == Ok::<S::Resp, ServiceError>(second->Forward_0));
}

} // verus!
