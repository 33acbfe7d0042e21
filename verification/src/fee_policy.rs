//! Decisions of the fee-policy fill submitter: which transactions a bundle
//! carries, in which order, and for which block.
use vstd::prelude::*;
use crate::extract::SystemConstants;
use crate::filler::OrdersAndFills;
use crate::orders::SignedOrder;

verus! {

broadcast use vstd::std_specs::hash::group_hash_axioms;

/// The state of a transaction request that a provider's fillers could not
/// complete: either properties are missing (by filler, the names of the
/// missing properties), or the fillers report they are done or ready.
#[derive(Debug, Clone, PartialEq, Eq)]
pub enum FillerControlFlow {
    /// Properties missing, by filler.
    Missing(Vec<(&'static str, Vec<&'static str>)>),
    /// The fillers are done.
    Finished,
    /// The fillers are ready.
    Ready,
}

/// Errors returned by the fee-policy submitter.
#[derive(Debug, Clone, PartialEq, Eq)]
#[non_exhaustive]
pub enum FeePolicyError {
    /// No fills provided for submission.
    NoFills,
    /// RPC call failed, with its message.
    Rpc(String),
    /// Transaction is incomplete (missing required properties).
    IncompleteTransaction(Vec<(&'static str, Vec<&'static str>)>),
    /// Bundle submission failed, with its message.
    Submission(String),
}

impl FeePolicyError {
    /// The error for a request whose fillers stopped at `flow`.
    pub fn from_control_flow(flow: FillerControlFlow) -> (r: Self)
        ensures
            match flow {
                FillerControlFlow::Missing(missing) => r == FeePolicyError::IncompleteTransaction(
                    missing,
                ),
                _ => r matches FeePolicyError::IncompleteTransaction(m) && m@.len() == 0,
            },
    {
        match flow {
            FillerControlFlow::Missing(missing) => FeePolicyError::IncompleteTransaction(missing),
            FillerControlFlow::Finished => FeePolicyError::IncompleteTransaction(Vec::new()),
            FillerControlFlow::Ready => FeePolicyError::IncompleteTransaction(Vec::new()),
        }
    }

    /// The error's message.
    pub open spec fn spec_message(self) -> Seq<char> {
        match self {
            FeePolicyError::NoFills => "no fills provided for submission"@,
            FeePolicyError::Rpc(m) => "RPC error: "@ + m@,
            FeePolicyError::IncompleteTransaction(missing) => "transaction missing required properties: "@
                + missing_debug_text(missing_view(missing@)),
            FeePolicyError::Submission(m) => "failed to submit bundle: "@ + m@,
        }
    }

    /// The error's message.
    pub fn to_string(&self) -> (r: String)
        ensures
            r@ == self.spec_message(),
    {
        match self {
            FeePolicyError::NoFills => String::from_str("no fills provided for submission"),
            FeePolicyError::Rpc(m) => String::from_str("RPC error: ").concat(m.as_str()),
            FeePolicyError::IncompleteTransaction(missing) => {
                let text = debug_missing(missing);
                String::from_str("transaction missing required properties: ").concat(text.as_str())
            },
            FeePolicyError::Submission(m) => String::from_str("failed to submit bundle: ").concat(
                m.as_str(),
            ),
        }
    }
}

/// The missing properties, by filler, as plain text values.
pub open spec fn missing_view(missing: Seq<(&'static str, Vec<&'static str>)>) -> Seq<(Seq<char>, Seq<Seq<char>>)> {
    missing.map_values(|e: (&'static str, Vec<&'static str>)| (e.0@, e.1@.map_values(|p: &'static str| p@)))
}

/// The text that std's `Debug` formatting gives for a list of missing
/// properties by filler.
pub uninterp spec fn missing_debug_text(missing: Seq<(Seq<char>, Seq<Seq<char>>)>) -> Seq<char>;

/// Formats the missing properties with std's `Debug` (`{:?}`). The contract
/// claims only that the text is a function of the list (it is named, not
/// restated).
#[verifier::external_body]
fn debug_missing(missing: &Vec<(&'static str, Vec<&'static str>)>) -> (r: String)
    ensures
        r@ == missing_debug_text(missing_view(missing@)),
{
    format!("{:?}", missing)
}

/// A transaction that a bundle's rollup part carries: the fill for the
/// rollup chain, or the initiation of an order.
#[derive(Debug)]
pub enum RollupTx<'a, F> {
    /// The rollup fill.
    Fill(&'a F),
    /// The initiation of an order.
    Initiate(&'a SignedOrder),
}

/// What a bundle carries: the rollup transactions, in order, and the host
/// fill, if any.
#[derive(Debug)]
pub struct BundlePlan<'a, F> {
    /// The rollup transactions: the rollup fill (if present) first, then one
    /// initiation per order, in the orders' order.
    pub rollup: Vec<RollupTx<'a, F>>,
    /// The host fill, if present.
    pub host: Option<&'a F>,
}

/// The rollup transactions of a bundle: the fill for `ru_chain_id` first,
/// if there is one, then an initiation per order.
pub open spec fn spec_rollup_txs<'a, F>(
    fills: Map<u64, F>,
    orders: Seq<SignedOrder>,
    ru_chain_id: u64,
) -> Seq<RollupTx<'a, F>> {
    let fill_part: Seq<RollupTx<'a, F>> = if fills.contains_key(ru_chain_id) {
        seq![RollupTx::Fill(&fills[ru_chain_id])]
    } else {
        Seq::empty()
    };
    fill_part + orders.map(|i: int, o: SignedOrder| RollupTx::Initiate(&o))
}

/// Plans the bundle for `orders_and_fills`: no fills is an error; otherwise
/// the rollup part is the rollup fill (if present) then one initiation per
/// order, and the host part is the host fill (if present).
pub fn plan_bundle<'a, F>(
    orders_and_fills: &'a OrdersAndFills<F>,
    ru_chain_id: u64,
    host_chain_id: u64,
) -> (r: Result<BundlePlan<'a, F>, FeePolicyError>)
    ensures
        orders_and_fills.spec_fills().len() == 0 <==> r == Err::<BundlePlan<'a, F>, FeePolicyError>(
            FeePolicyError::NoFills,
        ),
        r is Ok ==> {
            let plan = r->Ok_0;
            let fills = orders_and_fills.spec_fills();
            &&& plan.rollup@ == spec_rollup_txs(fills, orders_and_fills.spec_orders(), ru_chain_id)
            &&& plan.host == (if fills.contains_key(host_chain_id) {
                Some(&fills[host_chain_id])
            } else {
                None
            })
        },
        orders_and_fills.spec_fills().len() > 0 ==> r is Ok,
{
    let fills = orders_and_fills.fills();
    if fills.is_empty() {
        proof {
            assert(fills@.len() == 0) by {
                assert(fills@ =~= Map::<u64, F>::empty());
            }
        }
        return Err(FeePolicyError::NoFills);
    }
    proof {
        assert(fills@.dom().finite());
        if fills@.len() == 0 {
            vstd::set_lib::lemma_set_empty_equivalency_len(fills@.dom());
            assert(fills@ =~= Map::<u64, F>::empty());
        }
    }
    let mut rollup: Vec<RollupTx<'a, F>> = Vec::new();
    match fills.get(&ru_chain_id) {
        Some(fill) => rollup.push(RollupTx::Fill(fill)),
        None => {},
    }
    let ghost fill_part = rollup@;
    let orders = orders_and_fills.orders();
    let mut i: usize = 0;
    while i < orders.len()
        invariant
            orders@ == orders_and_fills.spec_orders(),
            0 <= i <= orders@.len(),
            rollup@ == fill_part + orders@.subrange(0, i as int).map(
                |k: int, o: SignedOrder| RollupTx::<'a, F>::Initiate(&o),
            ),
        decreases orders@.len() - i,
    {
        rollup.push(RollupTx::Initiate(&orders[i]));
        proof {
            assert(orders@.subrange(0, i + 1).map(|k: int, o: SignedOrder| RollupTx::<'a, F>::Initiate(&o))
                =~= orders@.subrange(0, i as int).map(|k: int, o: SignedOrder| RollupTx::<'a, F>::Initiate(&o)).push(
                RollupTx::Initiate(&orders@[i as int])));
        }
        i = i + 1;
    }
    proof {
        assert(orders@.subrange(0, orders@.len() as int) =~= orders@);
        assert(rollup@ =~= spec_rollup_txs(fills@, orders_and_fills.spec_orders(), ru_chain_id));
    }
    let host = fills.get(&host_chain_id);
    Ok(BundlePlan { rollup, host })
}

/// The block a bundle targets: the one after the rollup's current block.
pub fn target_block(current_block: u64) -> (r: u64)
    requires
        current_block < u64::MAX,
    ensures
        r == current_block + 1,
{
    current_block + 1
}

/// Submits fills as bundles, paying fees through the rollup and host
/// providers.
#[derive(Debug, Clone)]
pub struct FeePolicySubmitter<RuP, HostP, B> {
    ru_provider: RuP,
    host_provider: HostP,
    submitter: B,
    constants: SystemConstants,
}

impl<RuP, HostP, B> FeePolicySubmitter<RuP, HostP, B> {
    /// The rollup provider.
    pub closed spec fn spec_ru_provider(self) -> RuP {
        self.ru_provider
    }

    /// The host provider.
    pub closed spec fn spec_host_provider(self) -> HostP {
        self.host_provider
    }

    /// The bundle submitter.
    pub closed spec fn spec_submitter(self) -> B {
        self.submitter
    }

    /// The system constants.
    pub closed spec fn spec_constants(self) -> SystemConstants {
        self.constants
    }

    /// Create a new submitter.
    pub fn new(ru_provider: RuP, host_provider: HostP, submitter: B, constants: SystemConstants) -> (r: Self)
        ensures
            r.spec_ru_provider() == ru_provider,
            r.spec_host_provider() == host_provider,
            r.spec_submitter() == submitter,
            r.spec_constants() == constants,
    {
        FeePolicySubmitter { ru_provider, host_provider, submitter, constants }
    }

    /// The rollup provider.
    pub fn ru_provider(&self) -> (r: &RuP)
        ensures
            *r == self.spec_ru_provider(),
    {
        &self.ru_provider
    }

    /// The host provider.
    pub fn host_provider(&self) -> (r: &HostP)
        ensures
            *r == self.spec_host_provider(),
    {
        &self.host_provider
    }

    /// The bundle submitter.
    pub fn submitter(&self) -> (r: &B)
        ensures
            *r == self.spec_submitter(),
    {
        &self.submitter
    }

    /// The system constants.
    pub fn constants(&self) -> (r: &SystemConstants)
        ensures
            *r == self.spec_constants(),
    {
        &self.constants
    }
}

/// What a provider's fillers made of a transaction request: a signed
/// envelope, or a request they could not complete, with their status.
#[derive(Debug, Clone, PartialEq, Eq)]
pub enum FilledRequest<E> {
    /// The signed envelope.
    Envelope(E),
    /// An incomplete request, with the fillers' status.
    Builder(FillerControlFlow),
}

/// The envelope to encode, or the error for a request the fillers could not
/// complete.
pub fn filled_envelope<E>(filled: FilledRequest<E>) -> (r: Result<E, FeePolicyError>)
    ensures
        match filled {
            FilledRequest::Envelope(e) => r == Ok::<E, FeePolicyError>(e),
            FilledRequest::Builder(FillerControlFlow::Missing(m)) => r == Err::<E, FeePolicyError>(
                FeePolicyError::IncompleteTransaction(m),
            ),
            FilledRequest::Builder(_) => r matches Err(FeePolicyError::IncompleteTransaction(m))
                && m@.len() == 0,
        },
{
    match filled {
        FilledRequest::Envelope(e) => Ok(e),
        FilledRequest::Builder(flow) => Err(FeePolicyError::from_control_flow(flow)),
    }
}

} // verus!
