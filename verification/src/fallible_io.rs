//! A harness that replays every way in which a channel may lose messages.
//!
//! Given the messages that a caller would send in order, a lossy channel
//! delivers some of them, still in order. The harness builds every such
//! selection and feeds each to a fresh copy of a service; the service passes
//! if none of the replays makes it fail.
use vstd::arithmetic::div_mod::{lemma_basic_div, lemma_div_plus_one, lemma_hoist_over_denominator};
use vstd::arithmetic::power2::{
    lemma2_to64, lemma_pow2_adds, lemma_pow2_pos, lemma_pow2_strictly_increases, lemma_pow2_unfold,
    pow2,
};
use vstd::bits::lemma_usize_shr_is_div;
use vstd::prelude::*;

use crate::error::ServiceError;
use crate::{infallible, Service};

verus! {

/// Whether `mask` marks the message at `place`: whether bit `place` of
/// `mask` is set.
pub open spec fn marked(mask: nat, place: nat) -> bool {
    (mask / pow2(place)) % 2 == 1
}

/// The messages among the first `upto` of `messages` that `mask` marks, in
/// the order in which they stand.
pub open spec fn chosen<M>(messages: Seq<M>, mask: nat, upto: nat) -> Seq<M>
    decreases upto,
{
    if upto == 0 {
        Seq::empty()
    } else {
        let before = chosen(messages, mask, (upto - 1) as nat);
        if marked(mask, (upto - 1) as nat) {
            before.push(messages[upto - 1])
        } else {
            before
        }
    }
}

/// The selection of `messages` that `mask` stands for.
pub open spec fn selection<M>(messages: Seq<M>, mask: nat) -> Seq<M> {
    chosen(messages, mask, messages.len())
}

/// The messages among the first `upto` of `messages` that `keep` keeps, in
/// the order in which they stand: what a channel delivers that loses the
/// message at each place where `keep` is false.
pub open spec fn kept<M>(messages: Seq<M>, keep: Seq<bool>, upto: nat) -> Seq<M>
    decreases upto,
{
    if upto == 0 {
        Seq::empty()
    } else {
        let before = kept(messages, keep, (upto - 1) as nat);
        if keep[upto - 1] {
            before.push(messages[upto - 1])
        } else {
            before
        }
    }
}

/// The mask that marks the places that `keep` keeps.
pub open spec fn mask_of(keep: Seq<bool>) -> nat
    decreases keep.len(),
{
    if keep.len() == 0 {
        0
    } else {
        mask_of(keep.drop_last()) + if keep.last() {
            pow2((keep.len() - 1) as nat)
        } else {
            0
        }
    }
}

/// Setting or leaving bit `top` of a mask below two to the `top` decides
/// that bit and no bit below it.
proof fn lemma_top_bit(low: nat, bit: bool, top: nat, place: nat)
    requires
        low < pow2(top),
        place <= top,
    ensures
        low + (if bit { pow2(top) } else { 0 }) < pow2(top + 1),
        place < top ==> marked(low + (if bit { pow2(top) } else { 0 }), place) == marked(low, place),
        place == top ==> marked(low + (if bit { pow2(top) } else { 0 }), place) == bit,
{
    lemma_pow2_unfold(top + 1);
    lemma_pow2_pos(place);
    let unit = pow2(place) as int;
    if place == top {
        lemma_basic_div(low as int, unit);
        if bit {
            lemma_div_plus_one(low as int, unit);
        }
    } else if bit {
        let above = (top - place) as nat;
        lemma_pow2_adds(place, above);
        lemma_pow2_unfold(above);
        lemma_hoist_over_denominator(low as int, pow2(above) as int, pow2(place));
        assert(pow2(above) * pow2(place) == pow2(top)) by (nonlinear_arith)
            requires
                pow2(top) == pow2(place) * pow2(above),
        ;
    }
}

/// The mask of a selection is below two to the number of places.
proof fn lemma_mask_bound(keep: Seq<bool>)
    ensures
        mask_of(keep) < pow2(keep.len()),
    decreases keep.len(),
{
    if keep.len() == 0 {
        lemma2_to64();
    } else {
        lemma_mask_bound(keep.drop_last());
        lemma_top_bit(mask_of(keep.drop_last()), keep.last(), (keep.len() - 1) as nat, 0);
    }
}

/// The mask of a selection marks the places that the selection keeps.
proof fn lemma_mask_marks(keep: Seq<bool>, place: nat)
    requires
        place < keep.len(),
    ensures
        marked(mask_of(keep), place) == keep[place as int],
    decreases keep.len(),
{
    let top = (keep.len() - 1) as nat;
    lemma_mask_bound(keep.drop_last());
    lemma_top_bit(mask_of(keep.drop_last()), keep.last(), top, place);
    if place < top {
        lemma_mask_marks(keep.drop_last(), place);
    }
}

/// A mask picks what the selection it stands for keeps.
proof fn lemma_mask_chooses<M>(messages: Seq<M>, keep: Seq<bool>, upto: nat)
    requires
        upto <= keep.len(),
    ensures
        chosen(messages, mask_of(keep), upto) == kept(messages, keep, upto),
    decreases upto,
{
    if upto > 0 {
        lemma_mask_chooses(messages, keep, (upto - 1) as nat);
        lemma_mask_marks(keep, (upto - 1) as nat);
    }
}

/// Every way of losing messages is among the selections: whatever places
/// `keep` keeps, there is a mask below two to the number of messages whose
/// selection is what `keep` leaves.
pub proof fn lemma_every_loss_is_selected<M>(messages: Seq<M>, keep: Seq<bool>)
    requires
        keep.len() == messages.len(),
    ensures
        mask_of(keep) < pow2(messages.len()),
        selection(messages, mask_of(keep)) == kept(messages, keep, messages.len()),
{
    lemma_mask_bound(keep);
    lemma_mask_chooses(messages, keep, messages.len());
}

/// Whether `copy` holds a clone of each item of `source`, in the same order.
pub open spec fn clones<M: Clone>(source: Seq<M>, copy: Seq<M>) -> bool {
    copy.len() == source.len() && forall|k: int|
        0 <= k < source.len() ==> cloned(source[k], #[trigger] copy[k])
}

/// Fewer places than the machine word has bits leave the number of
/// selections within the machine word.
proof fn lemma_selections_fit(count: nat)
    requires
        count < usize::BITS,
    ensures
        pow2(count) <= usize::MAX,
{
    lemma2_to64();
    if count + 1 < usize::BITS {
        lemma_pow2_strictly_increases(count, (usize::BITS - 1) as nat);
    }
    lemma_pow2_unfold(usize::BITS as nat);
}

/// A mask has no bit at or beyond the width of the machine word.
proof fn lemma_unmarked_beyond_word(mask: usize, place: nat)
    requires
        place >= usize::BITS,
    ensures
        !marked(mask as nat, place),
{
    lemma2_to64();
    if place > usize::BITS {
        lemma_pow2_strictly_increases(usize::BITS as nat, place);
    }
    lemma_basic_div(mask as int, pow2(place) as int);
}

/// The number of selections of `count` messages.
fn selections_of(count: usize) -> (total: usize)
    requires
        count < usize::BITS,
    ensures
        total == pow2(count as nat),
{
    let mut total: usize = 1;
    let mut done: usize = 0;
    proof {
        lemma2_to64();
        lemma_selections_fit(count as nat);
    }
    while done < count
        invariant
            done <= count,
            total == pow2(done as nat),
            pow2(count as nat) <= usize::MAX,
        decreases count - done,
    {
        proof {
            lemma_pow2_unfold((done + 1) as nat);
            if done + 1 < count {
                lemma_pow2_strictly_increases((done + 1) as nat, count as nat);
            }
        }
        total = total * 2;
        done = done + 1;
    }
    total
}

/// Clones of the messages that `mask` marks.
pub fn select<M: Clone>(messages: &[M], mask: usize) -> (picked: Vec<M>)
    ensures
        clones(selection(messages@, mask as nat), picked@),
{
    let mut picked: Vec<M> = Vec::new();
    let mut place: usize = 0;
    while place < messages.len()
        invariant
            place <= messages@.len(),
            clones(chosen(messages@, mask as nat, place as nat), picked@),
        decreases messages@.len() - place,
    {
        proof {
            if place < usize::BITS {
                lemma_usize_shr_is_div(mask, place);
            } else {
                lemma_unmarked_beyond_word(mask, place as nat);
            }
        }
        if place < usize::BITS as usize && (mask >> place) % 2 == 1 {
            let ghost before = picked@;
            let copy = messages[place].clone();
            picked.push(copy);
            assert forall|k: int|
                0 <= k < picked@.len() implies cloned(
                chosen(messages@, mask as nat, (place + 1) as nat)[k],
                #[trigger] picked@[k],
            ) by {
                if k < before.len() {
                    assert(picked@[k] == before[k]);
                }
            }
        }
        place = place + 1;
    }
    picked
}

/// Whether a service in state `state` may answer `msg` with a success and be
/// left in state `next`.
pub open spec fn succeeds<M, S: Service<M>>(state: S, msg: M, next: S) -> bool {
    exists|res: Result<S::Resp, ServiceError>|
        #[trigger] state.responds(msg, res, &next) && res is Ok
}

/// Whether a service in state `state` may answer `msg` with a failure and be
/// left in state `next`.
pub open spec fn fails<M, S: Service<M>>(state: S, msg: M, next: S) -> bool {
    exists|res: Result<S::Resp, ServiceError>|
        #[trigger] state.responds(msg, res, &next) && res is Err
}

/// Whether a service that starts in `start` may take all of `messages` in
/// order, each with success, and end in `end`.
pub open spec fn replays<M, S: Service<M>>(start: S, messages: Seq<M>, end: S) -> bool
    decreases messages.len(),
{
    if messages.len() == 0 {
        end == start
    } else {
        exists|mid: S|
            replays(start, messages.drop_last(), mid) && #[trigger] succeeds(
                mid,
                messages.last(),
                end,
            )
    }
}

/// Whether a service that starts in `start` may fail on one of `messages`
/// after it has taken those before it with success, and be left in `end` by
/// the request that failed.
pub open spec fn breaks<M, S: Service<M>>(start: S, messages: Seq<M>, end: S) -> bool {
    exists|done: int, state: S|
        0 <= done < messages.len() && replays(start, messages.take(done), state) && #[trigger] fails(
            state,
            messages[done],
            end,
        )
}

/// Whether a fresh clone of `service` may take all of `messages` with
/// success.
pub open spec fn passes<M, S: Service<M> + Clone>(service: S, messages: Seq<M>) -> bool {
    exists|fresh: S, end: S| cloned(service, fresh) && #[trigger] replays(fresh, messages, end)
}

/// Whether a fresh clone of `service` may fail on one of `messages`.
pub open spec fn trips<M, S: Service<M> + Clone>(service: S, messages: Seq<M>) -> bool {
    exists|fresh: S, end: S| cloned(service, fresh) && #[trigger] breaks(fresh, messages, end)
}

/// Feeds `messages` in order to `service` and stops at the first that it
/// fails on.
pub fn replay<M, S: Service<M>>(service: &mut S, messages: Vec<M>) -> (res: Result<(), ()>)
    ensures
        res is Ok ==> replays(*old(service), messages@, *final(service)),
        res is Err ==> breaks(*old(service), messages@, *final(service)),
        infallible::<M, S>() ==> res is Ok,
{
    assert(messages@.take(0) =~= Seq::<M>::empty());
    for message in it: messages
        invariant
            it.seq() == messages@,
            replays(*old(service), messages@.take(it.index() as int), *service),
    {
        let ghost before = *service;
        let ghost done = it.index() as int;
        let answer = service.request(message);
        assert(before.responds(message, answer, service));
        match answer {
            Ok(_) => {
                let ghost taken = messages@.take(done + 1);
                assert(succeeds(before, message, *service));
                assert(taken.drop_last() =~= messages@.take(done));
                assert(taken.last() == message);
                assert(replays(*old(service), taken.drop_last(), before) && succeeds(
                    before,
                    taken.last(),
                    *service,
                ));
            },
            Err(_) => {
                assert(fails(before, message, *service));
                assert(replays(*old(service), messages@.take(done), before) && fails(
                    before,
                    messages@[done],
                    *service,
                ));
                return Err(());
            },
        }
    }
    assert(messages@.take(messages@.len() as int) =~= messages@);
    Ok(())
}

/// Whether the selection at `at` is the first of `states` on which a fresh
/// clone of `service` may fail, those before it having passed.
pub open spec fn first_trip<M, S: Service<M> + Clone>(
    service: S,
    states: Seq<Seq<M>>,
    at: int,
) -> bool {
    0 <= at < states.len() && trips(service, states[at]) && forall|i: int|
        0 <= i < at ==> passes(service, #[trigger] states[i])
}

/// A service together with every selection of the messages it is to be
/// tried on.
pub struct FallibleIo<M, S> {
    service: S,
    all_possible_message_states: Vec<Vec<M>>,
}

impl<M: Clone, S: Service<M> + Clone> FallibleIo<M, S> {
    /// The service under test.
    pub closed spec fn service(&self) -> S {
        self.service
    }

    /// The selections that will be replayed, in the order of their masks.
    pub closed spec fn states(&self) -> Seq<Seq<M>> {
        Seq::new(
            self.all_possible_message_states@.len(),
            |i: int| self.all_possible_message_states@[i]@,
        )
    }

    /// A harness for `service` that holds every selection of `messages`:
    /// one for each mask below two to the number of messages. That number
    /// has to fit the machine word, so there are fewer messages than the
    /// word has bits.
    pub fn init(service: S, messages: &[M]) -> (harness: Self)
        requires
            messages@.len() < usize::BITS,
        ensures
            harness.service() == service,
            harness.states().len() == pow2(messages@.len()),
            forall|mask: int|
                0 <= mask < harness.states().len() ==> clones(
                    selection(messages@, mask as nat),
                    #[trigger] harness.states()[mask],
                ),
    {
        let total = selections_of(messages.len());
        let mut all_possible_message_states: Vec<Vec<M>> = Vec::new();
        let mut mask: usize = 0;
        while mask < total
            invariant
                mask <= total,
                all_possible_message_states@.len() == mask,
                forall|m: int|
                    0 <= m < mask ==> clones(
                        selection(messages@, m as nat),
                        (#[trigger] all_possible_message_states@[m])@,
                    ),
            decreases total - mask,
        {
            let picked = select(messages, mask);
            all_possible_message_states.push(picked);
            mask = mask + 1;
        }
        FallibleIo { service, all_possible_message_states }
    }

    /// Replays each selection on a fresh clone of the service and fails at
    /// the first failure of a replay.
    pub fn test(self) -> (res: Result<(), ()>)
        ensures
            res is Ok ==> forall|i: int|
                0 <= i < self.states().len() ==> passes(self.service(), #[trigger] self.states()[i]),
            res is Err ==> exists|at: int| first_trip(self.service(), self.states(), at),
            infallible::<M, S>() ==> res is Ok,
    {
        let ghost states = self.states();
        let FallibleIo { service, all_possible_message_states } = self;
        for messages in it: all_possible_message_states
            invariant
                it.seq() == all_possible_message_states@,
                service == self.service(),
                states == self.states(),
                states.len() == all_possible_message_states@.len(),
                forall|i: int|
                    0 <= i < states.len() ==> #[trigger] states[i] == all_possible_message_states@[i]@,
                forall|i: int| 0 <= i < it.index() ==> passes(service, #[trigger] states[i]),
        {
            let ghost at = it.index() as int;
            let mut s = service.clone();
            let ghost fresh = s;
            match replay(&mut s, messages) {
                Ok(_) => {
                    assert(cloned(service, fresh) && replays(fresh, states[at], s));
                },
                Err(_) => {
                    assert(cloned(service, fresh) && breaks(fresh, states[at], s));
                    assert(trips(service, states[at]));
                    assert(first_trip(service, states, at));
                    return Err(());
                },
            }
        }
        Ok(())
    }
}

} // verus!
