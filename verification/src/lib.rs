//! Request/response handlers that compose into pipelines.
//!
//! A [`Service`] answers one request at a time. Services are chained with
//! [`stack::StackService`], labelled with [`error::ErrorContext`] so that a failure
//! names the stage it came from, and guarded against stale redelivery with
//! [`fsm::FsmHandler`].
use vstd::prelude::*;

pub mod actor;
pub mod error;
pub mod stack;
pub mod fallible_io;
pub mod fsm;
pub mod task;

use crate::error::ServiceError;

verus! {

/// A handler of requests of type `Req`.
///
/// A service may keep state between calls, so `request` takes it by unique
/// reference. What a call may do is given by [`Service::responds`], a relation
/// rather than a function: a service is free to answer one request in several
/// ways.
pub trait Service<Req>: Sized {
    /// What the service answers with when it succeeds.
    type Resp;

    /// Whether a service in state `self` may answer `msg` with `res` and be
    /// left in state `next`.
    ///
    /// The default admits every answer, which is all that is known of a
    /// service that states nothing about itself.
    open spec fn responds(
        &self,
        msg: Req,
        res: Result<Self::Resp, ServiceError>,
        next: &Self,
    ) -> bool {
        true
    }

    /// Handles one request.
    fn request(&mut self, msg: Req) -> (res: Result<Self::Resp, ServiceError>)
        ensures
            old(self).responds(msg, res, final(self)),
    ;
}

/// Whether no request can make a service of type `S` fail, whatever state
/// it is in.
pub open spec fn infallible<M, S: Service<M>>() -> bool {
    forall|state: S, msg: M, res: Result<S::Resp, ServiceError>, next: S|
        #[trigger] state.responds(msg, res, &next) ==> res is Ok
}

} // verus!
