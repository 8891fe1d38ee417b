//! Deferred work as a service: the request is a future, the response the
//! handle on which its result can be awaited.
use std::future::Future;
use std::marker::PhantomData;
use vstd::prelude::*;

use crate::error::{failure, report_chain, ServiceError};
use crate::Service;

verus! {

/// `tokio::task::JoinHandle`, carried through as it is. Nothing is claimed
/// of it.
#[verifier::external_type_specification]
#[verifier::external_body]
#[verifier::reject_recursive_types(T)]
pub struct ExJoinHandle<T>(tokio::task::JoinHandle<T>);

/// `tokio::task::JoinError`, what awaiting a handle fails with. No code
/// here names it: it is declared because a `JoinHandle` is a future whose
/// output holds it, and Verus reads that impl. Nothing is claimed of it.
#[verifier::external_type_specification]
#[verifier::external_body]
pub struct ExJoinError(tokio::task::JoinError);

/// `tokio::runtime::Handle`, carried through as it is. Nothing is claimed
/// of it.
#[verifier::external_type_specification]
#[verifier::external_body]
pub struct ExHandle(tokio::runtime::Handle);

/// The text of the failure that [`TaskService`] returns where no runtime is
/// there to take the work.
pub const NO_RUNTIME: &'static str = "No runtime to spawn the task on";

/// A service that starts the future it is given and hands back the handle
/// to its completion. What the work does, and whether it fails, shows on the
/// handle and not in the answer of this service.
pub struct TaskService<F> {
    _fut: PhantomData<F>,
}

impl<F> Default for TaskService<F> {
    /// The service holds nothing, so one is as good as another.
    fn default() -> (service: Self) {
        Self { _fut: PhantomData }
    }
}

/// Calls `Handle::try_current`, which tells whether the calling thread is
/// inside a runtime. Nothing is claimed of the answer: it depends on where
/// the call is made.
#[verifier::external_body]
fn current_runtime() -> Option<tokio::runtime::Handle> {
    tokio::runtime::Handle::try_current().ok()
}

/// Calls `Handle::spawn`. Nothing is claimed of the handle it returns.
#[verifier::external_body]
fn spawn_on<F>(runtime: &tokio::runtime::Handle, work: F) -> tokio::task::JoinHandle<F::Output> where
    F: Future + Send + 'static,
    F::Output: Send + 'static,
 {
    runtime.spawn(work)
}

/// Starts `work` on `runtime`, or fails with [`NO_RUNTIME`] where there is
/// none.
pub fn submit<F>(runtime: Option<tokio::runtime::Handle>, work: F) -> (res: Result<
    tokio::task::JoinHandle<F::Output>,
    ServiceError,
>) where F: Future + Send + 'static, F::Output: Send + 'static
    ensures
        res is Ok <==> runtime is Some,
        res is Err ==> report_chain(res->Err_0) == seq![NO_RUNTIME@],
{
    match runtime {
        Some(handle) => Ok(spawn_on(&handle, work)),
        None => Err(failure(NO_RUNTIME)),
    }
}

impl<F> Service<F> for TaskService<F> where F: Future + Send + 'static, F::Output: Send + 'static {
    type Resp = tokio::task::JoinHandle<F::Output>;

    /// Submission leaves the service as it was. It fails in one way only,
    /// and only where no runtime is current.
    open spec fn responds(
        &self,
        msg: F,
        res: Result<Self::Resp, ServiceError>,
        next: &Self,
    ) -> bool {
        *next == *self && (res is Err ==> report_chain(res->Err_0) == seq![NO_RUNTIME@])
    }

    fn request(&mut self, msg: F) -> (res: Result<Self::Resp, ServiceError>) {
        submit(current_runtime(), msg)
    }
}

} // verus!
