//! A guard for services that are driven over a channel which may repeat or
//! lose messages.
//!
//! The guard holds a token and the caller presents one with every request.
//! A request whose token is the guard's own is fresh: the guard moves on to
//! the next token of the chain and hands it back with the response. Any other
//! token marks a request that is out of step, a repeat most likely, and the
//! guard answers `None` and stays where it is.
use std::collections::hash_map::DefaultHasher;
use std::hash::{Hash, Hasher};
use vstd::prelude::*;
use vstd::std_specs::hash::DefaultHasherAdditionalSpecFns;

use crate::error::ServiceError;
use crate::{infallible, Service};

verus! {

/// What a hasher has been fed once `token` is hashed into one that had been
/// fed `state`.
pub uninterp spec fn hasher_fed(state: Seq<Seq<u8>>, token: u64) -> Seq<Seq<u8>>;

/// The token that follows `token` in the chain: the hash of `token` by a
/// hasher that has been fed nothing else.
pub open spec fn next_token(token: u64) -> u64 {
    DefaultHasher::spec_finish(hasher_fed(Seq::<Seq<u8>>::empty(), token))
}

/// What the guard answers, given the token it holds, the token presented and
/// the answer of the inner service. A failure passes unchanged. A success is
/// handed on with the next token where the two tokens agree, and withheld
/// where they do not.
pub open spec fn guard_reply<Resp>(
    stored: u64,
    presented: u64,
    answer: Result<Resp, ServiceError>,
) -> Result<Option<(Resp, u64)>, ServiceError> {
    match answer {
        Err(cause) => Err(cause),
        Ok(resp) => if stored == presented {
            Ok(Some((resp, next_token(presented))))
        } else {
            Ok(None)
        },
    }
}

/// The token the guard holds after a call: the next of the chain after a
/// success with the right token, the same as before after anything else.
pub open spec fn guard_token<Resp>(
    stored: u64,
    presented: u64,
    answer: Result<Resp, ServiceError>,
) -> u64 {
    if answer is Ok && stored == presented {
        next_token(stored)
    } else {
        stored
    }
}

/// What a guard that holds `stored` over `inner` may answer, and what it is
/// left with. The inner service is called on the payload whatever the token.
pub open spec fn guarded<Req, S: Service<Req>>(
    inner: S,
    stored: u64,
    payload: Req,
    presented: u64,
    res: Result<Option<(S::Resp, u64)>, ServiceError>,
    inner_next: S,
    stored_next: u64,
) -> bool {
    exists|answer: Result<S::Resp, ServiceError>|
        #[trigger] inner.responds(payload, answer, &inner_next) && res == guard_reply(
            stored,
            presented,
            answer,
        ) && stored_next == guard_token(stored, presented, answer)
}

/// Calls `Hash::hash` of `u64` on a `DefaultHasher`. Claims only that what
/// the hasher has been fed afterwards depends on nothing but what it had been
/// fed before and on the token.
#[verifier::external_body]
fn feed_token(state: &mut DefaultHasher, token: u64)
    ensures
        final(state)@ == hasher_fed(old(state)@, token),
{
    token.hash(state)
}

/// Calls `rand::random`. Nothing is claimed of the number.
#[verifier::external_body]
fn random_token() -> u64 {
    rand::random()
}

/// The token that follows `token`.
pub fn advance(token: u64) -> (next: u64)
    ensures
        next == next_token(token),
{
    let mut hasher = DefaultHasher::new();
    feed_token(&mut hasher, token);
    hasher.finish()
}

/// A service behind a token chain.
#[derive(Clone, Debug)]
pub struct FsmHandler<S> {
    inner: S,
    hash: u64,
}

impl<S> FsmHandler<S> {
    /// The service behind the guard.
    pub closed spec fn inner(&self) -> S {
        self.inner
    }

    /// The token that the next fresh request has to present.
    pub closed spec fn token(&self) -> u64 {
        self.hash
    }

    /// A guard over `inner` that expects `token` first.
    pub fn seeded(inner: S, token: u64) -> (guard: Self)
        ensures
            guard.inner() == inner,
            guard.token() == token,
    {
        FsmHandler { inner, hash: token }
    }

    /// A guard over `value` that expects first a token drawn at random; ask
    /// for it with [`FsmHandler::current_token`].
    pub fn from(value: S) -> (guard: Self)
        ensures
            guard.inner() == value,
    {
        FsmHandler::seeded(value, random_token())
    }

    /// The token that the next fresh request has to present.
    pub fn current_token(&self) -> (token: u64)
        ensures
            token == self.token(),
    {
        self.hash
    }

    /// Settles a call once the inner service has answered: decides what is
    /// returned and whether the guard moves on.
    pub fn settle<Resp>(&mut self, presented: u64, answer: Result<Resp, ServiceError>) -> (res:
        Result<Option<(Resp, u64)>, ServiceError>)
        ensures
            res == guard_reply(old(self).token(), presented, answer),
            final(self).token() == guard_token(old(self).token(), presented, answer),
            final(self).inner() == old(self).inner(),
    {
        match answer {
            Ok(resp) => {
                if self.hash == presented {
                    let new_hash = advance(presented);
                    self.hash = new_hash;
                    Ok(Some((resp, new_hash)))
                } else {
                    Ok(None)
                }
            },
            Err(cause) => Err(cause),
        }
    }
}

impl<Req, S: Service<Req>> Service<(Req, u64)> for FsmHandler<S> {
    type Resp = Option<(S::Resp, u64)>;

    open spec fn responds(
        &self,
        msg: (Req, u64),
        res: Result<Self::Resp, ServiceError>,
        next: &Self,
    ) -> bool {
        guarded(self.inner(), self.token(), msg.0, msg.1, res, next.inner(), next.token())
    }

    fn request(&mut self, msg: (Req, u64)) -> (res: Result<Self::Resp, ServiceError>) {
        let answer = self.inner.request(msg.0);
        assert(old(self).inner.responds(msg.0, answer, &self.inner));
        self.settle(msg.1, answer)
    }
}

/// A caller that keeps the token it was last given stays in step, and a
/// repeat of a request that was already applied is told apart.
///
/// Of a guard that holds `first`: a request with `first` is answered with
/// the next token; the same request again, still with `first`, is answered
/// `None` and leaves the guard where it was; a request with the token that
/// was handed out is answered with the token after that. This needs the
/// chain to move at `first`: a token that is its own successor cannot tell a
/// repeat from a fresh request.
pub proof fn lemma_token_chain<Resp>(first: u64, one: Resp, two: Resp, three: Resp)
    requires
        next_token(first) != first,
    ensures
        guard_reply(first, first, Ok::<Resp, ServiceError>(one)) == Ok::<
            Option<(Resp, u64)>,
            ServiceError,
        >(Some((one, next_token(first)))),
        guard_token(first, first, Ok::<Resp, ServiceError>(one)) == next_token(first),
        guard_reply(next_token(first), first, Ok::<Resp, ServiceError>(two)) == Ok::<
            Option<(Resp, u64)>,
            ServiceError,
        >(None),
        guard_token(next_token(first), first, Ok::<Resp, ServiceError>(two)) == next_token(first),
        guard_reply(next_token(first), next_token(first), Ok::<Resp, ServiceError>(three)) == Ok::<
            Option<(Resp, u64)>,
            ServiceError,
        >(Some((three, next_token(next_token(first))))),
        guard_token(next_token(first), next_token(first), Ok::<Resp, ServiceError>(three))
            == next_token(next_token(first)),
{
}

/// A guard fails only where the service behind it fails, and then with the
/// same failure.
pub proof fn lemma_guard_failure<Resp>(stored: u64, presented: u64, answer: Result<Resp, ServiceError>)
    ensures
        guard_reply(stored, presented, answer) is Err <==> answer is Err,
        answer is Err ==> guard_reply(stored, presented, answer)->Err_0 == answer->Err_0,
{
}

/// A guard over a service that cannot fail cannot fail: out of step or in
/// step, every request is answered.
pub proof fn lemma_guard_infallible<Req, S: Service<Req>>()
    requires
        infallible::<Req, S>(),
    ensures
        infallible::<(Req, u64), FsmHandler<S>>(),
{
    assert forall|
        state: FsmHandler<S>,
        msg: (Req, u64),
        res: Result<Option<(S::Resp, u64)>, ServiceError>,
        next: FsmHandler<S>,
    | #[trigger] state.responds(msg, res, &next) implies res is Ok by {
        let answer = choose|answer: Result<S::Resp, ServiceError>|
            #[trigger] state.inner().responds(msg.0, answer, &next.inner()) && res == guard_reply(
                state.token(),
                msg.1,
                answer,
            ) && next.token() == guard_token(state.token(), msg.1, answer);
        assert(answer is Ok);
    }
}

} // verus!
