//! Signed orders, the predicates that select them, and Permit2 nonce
//! bitmaps.
use vstd::prelude::*;
use crate::primitives::{address_eq, nat_bit, Address, U256};

verus! {

/// A token and the amount of it that a permit allows to be transferred.
#[derive(Clone, Copy, Debug, PartialEq, Eq)]
pub struct TokenPermissions {
    /// The token.
    pub token: Address,
    /// The amount.
    pub amount: U256,
}

/// An output of an order: what the filler must pay, to whom, on which
/// chain.
#[derive(Clone, Copy, Debug, PartialEq, Eq)]
pub struct Output {
    /// The token to pay.
    pub token: Address,
    /// The amount to pay.
    pub amount: U256,
    /// The recipient.
    pub recipient: Address,
    /// The chain on which to pay.
    pub chain_id: u32,
}

/// A Permit2 batch transfer: the permitted inputs, the nonce and the
/// deadline.
#[derive(Clone, Debug, PartialEq, Eq)]
pub struct PermitBatchTransferFrom {
    /// The permitted inputs.
    pub permitted: Vec<TokenPermissions>,
    /// The Permit2 nonce.
    pub nonce: U256,
    /// The deadline, in seconds since the unix epoch.
    pub deadline: U256,
}

/// A signed Permit2 batch: the transfer, its owner and the signature.
#[derive(Clone, Debug, PartialEq, Eq)]
pub struct Permit2Batch {
    /// The transfer.
    pub permit: PermitBatchTransferFrom,
    /// The owner of the permitted tokens.
    pub owner: Address,
    /// The owner's signature.
    pub signature: Vec<u8>,
}

/// A signed order: a Permit2 batch and the outputs it pays for.
#[derive(Clone, Debug, PartialEq, Eq)]
pub struct SignedOrder {
    permit: Permit2Batch,
    outputs: Vec<Output>,
}

impl SignedOrder {
    /// The Permit2 batch.
    pub closed spec fn spec_permit(self) -> Permit2Batch {
        self.permit
    }

    /// The outputs.
    pub closed spec fn spec_outputs(self) -> Seq<Output> {
        self.outputs@
    }

    /// The deadline, saturated to a `u64`.
    pub open spec fn spec_deadline_u64(self) -> nat {
        let d = self.spec_permit().permit.deadline.value();
        if d > u64::MAX { u64::MAX as nat } else { d }
    }

    /// True if the order has expired at `cutoff`: its deadline, saturated to
    /// a `u64`, lies before the cutoff.
    pub open spec fn spec_is_expired_at(self, cutoff: u64) -> bool {
        self.spec_deadline_u64() < cutoff
    }

    /// Create a signed order.
    pub fn new(permit: Permit2Batch, outputs: Vec<Output>) -> (r: Self)
        ensures
            r.spec_permit() == permit,
            r.spec_outputs() == outputs@,
    {
        SignedOrder { permit, outputs }
    }

    /// The Permit2 batch.
    pub fn permit(&self) -> (r: &Permit2Batch)
        ensures
            *r == self.spec_permit(),
    {
        &self.permit
    }

    /// The outputs.
    pub fn outputs(&self) -> (r: &Vec<Output>)
        ensures
            r@ == self.spec_outputs(),
    {
        &self.outputs
    }

    /// True if the order has expired at `cutoff`. A deadline equal to the
    /// cutoff is still valid.
    pub fn is_expired_at(&self, cutoff: u64) -> (r: bool)
        ensures
            r == self.spec_is_expired_at(cutoff),
    {
        self.permit.permit.deadline.saturating_to_u64() < cutoff
    }
}

/// True if the order is not yet expired at `cutoff`: its deadline is at or
/// after the cutoff.
pub fn not_expired_at(cutoff: u64, order: &SignedOrder) -> (r: bool)
    ensures
        r == !order.spec_is_expired_at(cutoff),
{
    !order.is_expired_at(cutoff)
}

/// True if some output of the order targets `chain_id`.
pub fn has_output_chain(chain_id: u32, order: &SignedOrder) -> (r: bool)
    ensures
        r == exists|i: int|
            0 <= i < order.spec_outputs().len() && #[trigger] order.spec_outputs()[i].chain_id
                == chain_id,
{
    let outputs = order.outputs();
    let mut i: usize = 0;
    while i < outputs.len()
        invariant
            outputs@ == order.spec_outputs(),
            0 <= i <= outputs@.len(),
            forall|j: int| 0 <= j < i ==> outputs@[j].chain_id != chain_id,
        decreases outputs@.len() - i,
    {
        if outputs[i].chain_id == chain_id {
            return true;
        }
        i = i + 1;
    }
    false
}

/// True if some output of the order pays `token` on `chain_id`. The chain
/// is part of the match, since one address can name different tokens on
/// different chains.
pub fn has_output_token(chain_id: u32, token: Address, order: &SignedOrder) -> (r: bool)
    ensures
        r == exists|i: int|
            0 <= i < order.spec_outputs().len() && #[trigger] order.spec_outputs()[i].chain_id
                == chain_id && order.spec_outputs()[i].token == token,
{
    let outputs = order.outputs();
    let mut i: usize = 0;
    while i < outputs.len()
        invariant
            outputs@ == order.spec_outputs(),
            0 <= i <= outputs@.len(),
            forall|j: int|
                0 <= j < i ==> !(outputs@[j].chain_id == chain_id && outputs@[j].token == token),
        decreases outputs@.len() - i,
    {
        if outputs[i].chain_id == chain_id && address_eq(&outputs[i].token, &token) {
            return true;
        }
        i = i + 1;
    }
    false
}

/// True if some output of the order goes to `recipient`.
pub fn has_output_recipient(recipient: Address, order: &SignedOrder) -> (r: bool)
    ensures
        r == exists|i: int|
            0 <= i < order.spec_outputs().len() && #[trigger] order.spec_outputs()[i].recipient
                == recipient,
{
    let outputs = order.outputs();
    let mut i: usize = 0;
    while i < outputs.len()
        invariant
            outputs@ == order.spec_outputs(),
            0 <= i <= outputs@.len(),
            forall|j: int| 0 <= j < i ==> outputs@[j].recipient != recipient,
        decreases outputs@.len() - i,
    {
        if address_eq(&outputs[i].recipient, &recipient) {
            return true;
        }
        i = i + 1;
    }
    false
}

/// True if the order's Permit2 batch permits `token` as an input.
pub fn has_input_token(token: Address, order: &SignedOrder) -> (r: bool)
    ensures
        r == exists|i: int|
            0 <= i < order.spec_permit().permit.permitted.len()
                && #[trigger] order.spec_permit().permit.permitted@[i].token == token,
{
    let permitted = &order.permit().permit.permitted;
    let mut i: usize = 0;
    while i < permitted.len()
        invariant
            permitted@ == order.spec_permit().permit.permitted@,
            0 <= i <= permitted@.len(),
            forall|j: int| 0 <= j < i ==> permitted@[j].token != token,
        decreases permitted@.len() - i,
    {
        if address_eq(&permitted[i].token, &token) {
            return true;
        }
        i = i + 1;
    }
    false
}

/// True if the order's Permit2 batch is owned by `owner`.
pub fn with_owner(owner: Address, order: &SignedOrder) -> (r: bool)
    ensures
        r == (order.spec_permit().owner == owner),
{
    address_eq(&order.permit().owner, &owner)
}

/// The items of `items` that `filter_orders` keeps, given the predicate's
/// answer for each: every error, and every order the predicate accepted.
pub open spec fn kept_items<E>(items: Seq<Result<SignedOrder, E>>, keep: Seq<bool>) -> Seq<
    Result<SignedOrder, E>,
>
    decreases items.len(),
{
    if items.len() == 0 {
        Seq::empty()
    } else {
        let rest = kept_items(items.drop_last(), keep.drop_last());
        if items.last() is Err || keep.last() {
            rest.push(items.last())
        } else {
            rest
        }
    }
}

/// Whether a filter keeps an item of an order stream, given the
/// predicate's answer on it: `None` for an error, which is kept and on
/// which the predicate is not asked, else the answer on the order.
pub fn keep_item(order_accepted: Option<bool>) -> (r: bool)
    ensures
        r == match order_accepted {
            None => true,
            Some(b) => b,
        },
{
    match order_accepted {
        None => true,
        Some(b) => b,
    }
}

/// Filters a sequence of order results by `predicate`. Errors pass through
/// unchanged and the predicate is not asked about them; an order stays if
/// the predicate accepts it. Order is kept.
pub fn filter_orders<E, F: Fn(&SignedOrder) -> bool>(
    items: Vec<Result<SignedOrder, E>>,
    predicate: F,
) -> (r: Vec<Result<SignedOrder, E>>)
    requires
        forall|o: &SignedOrder| call_requires(predicate, (o,)),
    ensures
        exists|keep: Seq<bool>|
            {
                &&& keep.len() == items@.len()
                &&& forall|i: int|
                    0 <= i < items@.len() && #[trigger] items@[i] is Ok ==> call_ensures(
                        predicate,
                        (&items@[i]->Ok_0,),
                        keep[i],
                    )
                &&& r@ == kept_items(items@, keep)
            },
{
    let ghost all_items = items@;
    let mut out: Vec<Result<SignedOrder, E>> = Vec::new();
    let ghost mut keep: Seq<bool> = Seq::empty();
    let mut rest = items;
    let n = rest.len();
    let mut i: usize = 0;
    while i < n
        invariant
            n == all_items.len(),
            0 <= i <= n,
            rest@ == all_items.subrange(i as int, n as int),
            keep.len() == i,
            forall|j: int|
                0 <= j < i && #[trigger] all_items[j] is Ok ==> call_ensures(
                    predicate,
                    (&all_items[j]->Ok_0,),
                    keep[j],
                ),
            out@ == kept_items(all_items.subrange(0, i as int), keep),
            forall|o: &SignedOrder| call_requires(predicate, (o,)),
        decreases n - i,
    {
        let item = rest.remove(0);
        assert(item == all_items[i as int]);
        let k = match &item {
            Ok(order) => predicate(order),
            Err(_) => true,
        };
        let ghost prev_keep = keep;
        proof {
            keep = keep.push(k);
            assert(all_items.subrange(0, i + 1).drop_last() =~= all_items.subrange(0, i as int));
            assert(keep.drop_last() =~= prev_keep);
            assert(all_items.subrange(0, i + 1).last() == item);
        }
        if k {
            out.push(item);
        }
        assert(rest@ =~= all_items.subrange(i + 1, n as int));
        i = i + 1;
    }
    assert(all_items.subrange(0, n as int) =~= all_items);
    out
}

/// The Permit2 bitmap position of a nonce: the word (the nonce shifted
/// right by eight bits) and the bit within it (the low eight bits).
pub fn nonce_to_bitmap_position(nonce: U256) -> (r: (U256, u8))
    ensures
        r.0.value() == nonce.value() / 256,
        r.1 == nonce.value() % 256,
{
    let word_pos = nonce.shr8();
    let bit_pos = nonce.low_byte();
    (word_pos, bit_pos)
}

/// The canonical Permit2 contract address (the same on all EVM chains).
pub const PERMIT2: Address = [
    0x00, 0x00, 0x00, 0x00, 0x00, 0x22, 0xd4, 0x73, 0x03, 0x0f, 0x11, 0x6d, 0xde, 0xe9, 0xf6, 0xb4, 0x3a,
    0xc7, 0x8b, 0xa3,
];

/// Errors returned by Permit2 nonce queries.
#[derive(Debug, Clone, PartialEq, Eq)]
#[non_exhaustive]
pub enum Permit2Error {
    /// The Permit2 `nonceBitmap` call failed; the cause's message.
    ContractCall(String),
}

impl Permit2Error {
    /// The error's message.
    pub fn to_string(&self) -> (r: String)
        ensures
            r@ == "Permit2 nonceBitmap call failed"@,
    {
        String::from_str("Permit2 nonceBitmap call failed")
    }
}

/// True if `nonce` is consumed according to its Permit2 bitmap word: the
/// bit selected by the nonce's low eight bits is set.
pub fn is_nonce_consumed(bitmap: U256, nonce: U256) -> (r: bool)
    ensures
        r == nat_bit(bitmap.value(), nonce.value() % 256),
{
    let bit_pos = nonce.low_byte();
    bitmap.bit(bit_pos)
}

/// A deadline beyond `u64::MAX` saturates, so such an order is alive at
/// every `u64` cutoff.
pub proof fn law_saturated_deadline_never_expires(order: SignedOrder, cutoff: u64)
    requires
        order.spec_permit().permit.deadline.value() > u64::MAX,
    ensures
        !order.spec_is_expired_at(cutoff),
{
}

/// The expiry boundary: an order is alive exactly up to and including its
/// (saturated) deadline.
pub proof fn law_expiry_boundary(order: SignedOrder, cutoff: u64)
    ensures
        !order.spec_is_expired_at(cutoff) <==> cutoff <= order.spec_deadline_u64(),
{
}

/// A predicate that accepts every order keeps every item.
pub proof fn law_filter_accepting_keeps_all<E>(items: Seq<Result<SignedOrder, E>>, keep: Seq<bool>)
    requires
        keep.len() == items.len(),
        forall|i: int| 0 <= i < keep.len() ==> #[trigger] keep[i],
    ensures
        kept_items(items, keep) == items,
    decreases items.len(),
{
    if items.len() > 0 {
        law_filter_accepting_keeps_all(items.drop_last(), keep.drop_last());
        assert(items.drop_last().push(items.last()) =~= items);
        assert(keep.last() == keep[keep.len() - 1]);
    }
}

/// A predicate that rejects every order keeps exactly the errors, in order.
pub proof fn law_filter_rejecting_keeps_errors<E>(items: Seq<Result<SignedOrder, E>>, keep: Seq<bool>)
    requires
        keep.len() == items.len(),
        forall|i: int| 0 <= i < keep.len() ==> !#[trigger] keep[i],
    ensures
        kept_items(items, keep) == items.filter(|x: Result<SignedOrder, E>| x is Err),
    decreases items.len(),
{
    reveal_with_fuel(Seq::<_>::filter, 1);
    if items.len() > 0 {
        law_filter_rejecting_keeps_errors(items.drop_last(), keep.drop_last());
        assert(keep.last() == keep[keep.len() - 1]);
    }
}

/// The items that a filter with the pure predicate `p` keeps: every error,
/// and every order `p` accepts.
pub open spec fn passes<E>(p: spec_fn(SignedOrder) -> bool) -> spec_fn(Result<SignedOrder, E>) -> bool {
    |x: Result<SignedOrder, E>| x is Err || p(x->Ok_0)
}

/// A predicate whose answer on each order is `p` of it (a pure predicate)
/// keeps exactly the errors and the orders `p` accepts, in order.
pub proof fn law_filter_by_pure_predicate<E>(
    items: Seq<Result<SignedOrder, E>>,
    keep: Seq<bool>,
    p: spec_fn(SignedOrder) -> bool,
)
    requires
        keep.len() == items.len(),
        forall|i: int| 0 <= i < items.len() && #[trigger] items[i] is Ok ==> keep[i] == p(items[i]->Ok_0),
    ensures
        kept_items(items, keep) == items.filter(passes::<E>(p)),
    decreases items.len(),
{
    reveal_with_fuel(Seq::<_>::filter, 1);
    if items.len() > 0 {
        let n = items.len() - 1;
        assert forall|i: int| 0 <= i < items.drop_last().len() && #[trigger] items.drop_last()[i] is Ok implies keep.drop_last()[i]
            == p(items.drop_last()[i]->Ok_0) by {
            assert(items.drop_last()[i] == items[i]);
        }
        law_filter_by_pure_predicate(items.drop_last(), keep.drop_last(), p);
        assert(items.last() == items[n]);
        assert(keep.last() == keep[n]);
    }
}

/// Filtering by `p` and then by `q` keeps the same items as filtering once
/// by "`p` and `q`", for pure predicates.
pub proof fn law_filters_compose<E>(
    items: Seq<Result<SignedOrder, E>>,
    p: spec_fn(SignedOrder) -> bool,
    q: spec_fn(SignedOrder) -> bool,
)
    ensures
        items.filter(passes::<E>(p)).filter(passes::<E>(q)) == items.filter(
            passes::<E>(|o: SignedOrder| p(o) && q(o)),
        ),
    decreases items.len(),
{
    reveal_with_fuel(Seq::<_>::filter, 1);
    let pq = |o: SignedOrder| p(o) && q(o);
    if items.len() > 0 {
        law_filters_compose(items.drop_last(), p, q);
        let x = items.last();
        let t = items.drop_last().filter(passes::<E>(p));
        if passes::<E>(p)(x) {
            assert(t.push(x).drop_last() =~= t);
            assert(t.push(x).last() == x);
        }
        assert(passes::<E>(pq)(x) == (passes::<E>(p)(x) && passes::<E>(q)(x)));
    }
}

/// The Permit2 bitmap position recombines to the nonce: the word times 256
/// plus the bit is the nonce, and the bit is below 256.
pub proof fn law_bitmap_position_recombines(nonce: U256, word_pos: U256, bit_pos: u8)
    requires
        word_pos.value() == nonce.value() / 256,
        bit_pos == nonce.value() % 256,
    ensures
        word_pos.value() * 256 + bit_pos == nonce.value(),
{
    vstd::arithmetic::div_mod::lemma_fundamental_div_mod(nonce.value() as int, 256);
}

} // verus!
