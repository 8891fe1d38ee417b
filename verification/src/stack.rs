//! Sequential composition: one service, then another on what it returned.
use vstd::prelude::*;

use crate::error::{annotates, with_context, wraps, ServiceError};
use crate::{infallible, Service};

verus! {

/// The context that a stack puts above the failure of either of its services.
pub const STACK_CONTEXT: &'static str = "Inner stack service failed";

/// Two services in sequence. The first runs on the request; the second runs
/// on what the first returned, and only if the first succeeded.
#[derive(Clone, Debug)]
pub struct Stack<Bs, As> {
    pub before_service: Bs,
    pub after_service: As,
}

/// What a stack may answer once its first service has returned `mid`: what
/// the second service may answer `mid` with, a failure under
/// [`STACK_CONTEXT`].
pub open spec fn finishes<Mid, As: Service<Mid>>(
    after: As,
    mid: Mid,
    res: Result<As::Resp, ServiceError>,
    next: As,
) -> bool {
    exists|second: Result<As::Resp, ServiceError>|
        #[trigger] after.responds(mid, second, &next) && annotates(res, STACK_CONTEXT@, second)
}

/// What a stack may answer once its first service has answered `first`.
///
/// After a failure of the first service the second is not called and keeps
/// its state; the failure is returned under [`STACK_CONTEXT`]. After a success
/// the second service is called on the value, as [`finishes`] says.
pub open spec fn continues<Mid, As: Service<Mid>>(
    after: As,
    first: Result<Mid, ServiceError>,
    res: Result<As::Resp, ServiceError>,
    next: As,
) -> bool {
    match first {
        Err(cause) => next == after && res is Err && wraps(res->Err_0, STACK_CONTEXT@, cause),
        Ok(mid) => finishes(after, mid, res, next),
    }
}

/// What `before` followed by `after` may answer `msg` with, and the states
/// the two are left in.
pub open spec fn stacked<Req, Bs: Service<Req>, As: Service<Bs::Resp>>(
    before: Bs,
    after: As,
    msg: Req,
    res: Result<As::Resp, ServiceError>,
    before_next: Bs,
    after_next: As,
) -> bool {
    exists|first: Result<Bs::Resp, ServiceError>|
        #[trigger] before.responds(msg, first, &before_next) && continues(
            after,
            first,
            res,
            after_next,
        )
}

impl<Req, Bs: Service<Req>, As: Service<Bs::Resp>> Service<Req> for Stack<Bs, As> {
    type Resp = As::Resp;

    open spec fn responds(
        &self,
        msg: Req,
        res: Result<Self::Resp, ServiceError>,
        next: &Self,
    ) -> bool {
        stacked(
            self.before_service,
            self.after_service,
            msg,
            res,
            next.before_service,
            next.after_service,
        )
    }

    fn request(&mut self, msg: Req) -> (res: Result<Self::Resp, ServiceError>) {
        let first = self.before_service.request(msg);
        let res = match first {
            Ok(mid) => {
                let second = self.after_service.request(mid);
                let res = match second {
                    Ok(out) => Ok(out),
                    Err(cause) => Err(with_context(cause, STACK_CONTEXT)),
                };
                assert(finishes(old(self).after_service, mid, res, self.after_service)) by {
                    assert(old(self).after_service.responds(mid, second, &self.after_service));
                }
                res
            },
            Err(cause) => Err(with_context(cause, STACK_CONTEXT)),
        };
        assert(old(self).before_service.responds(msg, first, &self.before_service));
        res
    }
}

/// Composition, offered on every service.
pub trait StackService<Req>: Service<Req> {
    /// A stack that runs `before_service` first and this service on what it
    /// returns.
    fn with_before<BsReq, Bs: Service<BsReq, Resp = Req>>(self, before_service: Bs) -> (stack:
        Stack<Bs, Self>)
        ensures
            stack.before_service == before_service,
            stack.after_service == self,
    {
        Stack { before_service, after_service: self }
    }

    /// A stack that runs this service first and `after_service` on what it
    /// returns.
    fn then_after<As: Service<Self::Resp>>(self, after_service: As) -> (stack: Stack<Self, As>)
        ensures
            stack.before_service == self,
            stack.after_service == after_service,
    {
        Stack { before_service: self, after_service }
    }
}

impl<Req, T: Service<Req>> StackService<Req> for T {

}

/// A stack that succeeds has had both of its services succeed in turn.
proof fn lemma_success_parts<Req, Bs: Service<Req>, As: Service<Bs::Resp>>(
    before: Bs,
    after: As,
    msg: Req,
    out: As::Resp,
    before_next: Bs,
    after_next: As,
) -> (mid: Bs::Resp)
    requires
        stacked(before, after, msg, Ok(out), before_next, after_next),
    ensures
        before.responds(msg, Ok(mid), &before_next),
        after.responds(mid, Ok(out), &after_next),
{
    let res = Ok::<As::Resp, ServiceError>(out);
    let first = choose|first: Result<Bs::Resp, ServiceError>|
        #[trigger] before.responds(msg, first, &before_next) && continues(
            after,
            first,
            res,
            after_next,
        );
    let mid = first->Ok_0;
    let second = choose|second: Result<As::Resp, ServiceError>|
        #[trigger] after.responds(mid, second, &after_next) && annotates(
            res,
            STACK_CONTEXT@,
            second,
        );
    assert(first == Ok::<Bs::Resp, ServiceError>(mid));
    assert(second == res);
    mid
}

/// Two services that succeed in turn make a stack that succeeds.
proof fn lemma_parts_success<Req, Bs: Service<Req>, As: Service<Bs::Resp>>(
    before: Bs,
    after: As,
    msg: Req,
    mid: Bs::Resp,
    out: As::Resp,
    before_next: Bs,
    after_next: As,
)
    requires
        before.responds(msg, Ok(mid), &before_next),
        after.responds(mid, Ok(out), &after_next),
    ensures
        stacked(before, after, msg, Ok(out), before_next, after_next),
{
    let res = Ok::<As::Resp, ServiceError>(out);
    assert(finishes(after, mid, res, after_next)) by {
        assert(after.responds(mid, res, &after_next) && annotates(res, STACK_CONTEXT@, res));
    }
    assert(continues(after, Ok::<Bs::Resp, ServiceError>(mid), res, after_next));
}

/// Grouping does not matter to a request that succeeds: of three services in
/// sequence, `(a then b) then c` may answer `msg` with `out` and leave the
/// three in the states `a_next`, `b_next`, `c_next` exactly when
/// `a then (b then c)` may.
pub proof fn lemma_stack_associative<Req, A: Service<Req>, B: Service<A::Resp>, C: Service<B::Resp>>(
    a: A,
    b: B,
    c: C,
    msg: Req,
    out: C::Resp,
    a_next: A,
    b_next: B,
    c_next: C,
)
    ensures
        (Stack { before_service: Stack { before_service: a, after_service: b }, after_service: c })
            .responds(
            msg,
            Ok(out),
            &(Stack {
                before_service: Stack { before_service: a_next, after_service: b_next },
                after_service: c_next,
            }),
        ) <==> (Stack { before_service: a, after_service: Stack { before_service: b, after_service: c } })
            .responds(
            msg,
            Ok(out),
            &(Stack {
                before_service: a_next,
                after_service: Stack { before_service: b_next, after_service: c_next },
            }),
        ),
{
    let ab = Stack { before_service: a, after_service: b };
    let ab_next = Stack { before_service: a_next, after_service: b_next };
    let bc = Stack { before_service: b, after_service: c };
    let bc_next = Stack { before_service: b_next, after_service: c_next };

    if stacked(ab, c, msg, Ok(out), ab_next, c_next) {
        let mid_b = lemma_success_parts(ab, c, msg, out, ab_next, c_next);
        let mid_a = lemma_success_parts(a, b, msg, mid_b, a_next, b_next);
        lemma_parts_success(b, c, mid_a, mid_b, out, b_next, c_next);
        lemma_parts_success(a, bc, msg, mid_a, out, a_next, bc_next);
    }
    if stacked(a, bc, msg, Ok(out), a_next, bc_next) {
        let mid_a = lemma_success_parts(a, bc, msg, out, a_next, bc_next);
        let mid_b = lemma_success_parts(b, c, mid_a, out, b_next, c_next);
        lemma_parts_success(a, b, msg, mid_a, mid_b, a_next, b_next);
        lemma_parts_success(ab, c, msg, mid_b, out, ab_next, c_next);
    }
}

/// Two services that cannot fail make a stack that cannot fail.
pub proof fn lemma_stack_infallible<Req, Bs: Service<Req>, As: Service<Bs::Resp>>()
    requires
        infallible::<Req, Bs>(),
        infallible::<Bs::Resp, As>(),
    ensures
        infallible::<Req, Stack<Bs, As>>(),
{
    assert forall|
        state: Stack<Bs, As>,
        msg: Req,
        res: Result<As::Resp, ServiceError>,
        next: Stack<Bs, As>,
    | #[trigger] state.responds(msg, res, &next) implies res is Ok by {
        let first = choose|first: Result<Bs::Resp, ServiceError>|
            #[trigger] state.before_service.responds(msg, first, &next.before_service)
                && continues(state.after_service, first, res, next.after_service);
        assert(first is Ok);
        let mid = first->Ok_0;
        let second = choose|second: Result<As::Resp, ServiceError>|
            #[trigger] state.after_service.responds(mid, second, &next.after_service) && annotates(
                res,
                STACK_CONTEXT@,
                second,
            );
        assert(second is Ok);
    }
}

} // verus!
