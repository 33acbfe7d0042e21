//! Options and decisions of the order filler.
use vstd::prelude::*;
use std::collections::HashMap;
use crate::extract::SystemConstants;
use crate::orders::SignedOrder;
use crate::primitives::Address;

verus! {

/// Options for configuring the filler.
#[derive(Debug, Clone, Copy, PartialEq, Eq, Structural)]
pub struct FillerOptions {
    /// Optional deadline offset in seconds for fills.
    pub deadline_offset: Option<u64>,
    /// Optional nonce to use for permit2 signatures.
    pub nonce: Option<u64>,
}

impl FillerOptions {
    /// Create a new `FillerOptions` with no deadline offset and no nonce.
    pub fn new() -> (r: Self)
        ensures
            r.deadline_offset is None,
            r.nonce is None,
    {
        FillerOptions { deadline_offset: None, nonce: None }
    }

    /// Set the deadline offset.
    pub fn with_deadline_offset(self, offset: u64) -> (r: Self)
        ensures
            r.deadline_offset == Some(offset),
            r.nonce == self.nonce,
    {
        let mut s = self;
        s.deadline_offset = Some(offset);
        s
    }

    /// Set the nonce.
    pub fn with_nonce(self, nonce: u64) -> (r: Self)
        ensures
            r.nonce == Some(nonce),
            r.deadline_offset == self.deadline_offset,
    {
        let mut s = self;
        s.nonce = Some(nonce);
        s
    }

    /// The deadline of fills signed at time `now` (seconds since the unix
    /// epoch): `now` plus the offset, if an offset is set.
    pub fn fill_deadline(&self, now: u64) -> (r: Option<u64>)
        requires
            self.deadline_offset matches Some(o) ==> now + o <= u64::MAX,
        ensures
            match self.deadline_offset {
                Some(o) => r == Some((now + o) as u64),
                None => r is None,
            },
    {
        match self.deadline_offset {
            Some(o) => Some(now + o),
            None => None,
        }
    }
}

impl Default for FillerOptions {
    fn default() -> (r: Self)
        ensures
            r.deadline_offset is None,
            r.nonce is None,
    {
        FillerOptions::new()
    }
}

/// Errors returned by the filler.
#[derive(Debug, Clone, PartialEq, Eq)]
#[non_exhaustive]
pub enum FillerError {
    /// Order source error, with its message.
    Source(String),
    /// No orders to fill.
    NoOrders,
    /// Failed to sign fills for orders, with the signer's message.
    Signing(String),
    /// Fill submission failed, with the submitter's message.
    Submission(String),
}

impl FillerError {
    /// The error's message.
    pub open spec fn spec_message(self) -> Seq<char> {
        match self {
            FillerError::Source(m) => "failed to get orders: "@ + m@,
            FillerError::NoOrders => "no orders to fill"@,
            FillerError::Signing(m) => "failed to sign fills: "@ + m@,
            FillerError::Submission(m) => "failed to submit fills: "@ + m@,
        }
    }

    /// The error's message.
    pub fn to_string(&self) -> (r: String)
        ensures
            r@ == self.spec_message(),
    {
        match self {
            FillerError::Source(m) => String::from_str("failed to get orders: ").concat(m.as_str()),
            FillerError::NoOrders => String::from_str("no orders to fill"),
            FillerError::Signing(m) => String::from_str("failed to sign fills: ").concat(m.as_str()),
            FillerError::Submission(m) => String::from_str("failed to submit fills: ").concat(
                m.as_str(),
            ),
        }
    }
}

/// Checks that there is something to fill: no orders is an error.
pub fn check_orders_to_fill(orders: &Vec<SignedOrder>) -> (r: Result<(), FillerError>)
    ensures
        orders@.len() == 0 <==> r == Err::<(), FillerError>(FillerError::NoOrders),
        orders@.len() > 0 <==> r is Ok,
{
    if orders.len() == 0 {
        return Err(FillerError::NoOrders);
    }
    Ok(())
}

/// The orders being filled, paired with the fills signed for them (by
/// target chain id) and the signer's address.
#[derive(Debug, Clone)]
pub struct OrdersAndFills<F> {
    pub(crate) orders: Vec<SignedOrder>,
    pub(crate) fills: HashMap<u64, F>,
    pub(crate) signer_address: Address,
}

impl<F> OrdersAndFills<F> {
    /// The orders.
    pub closed spec fn spec_orders(self) -> Seq<SignedOrder> {
        self.orders@
    }

    /// The fills, by target chain id.
    pub closed spec fn spec_fills(self) -> Map<u64, F> {
        self.fills@
    }

    /// The signer's address.
    pub closed spec fn spec_signer_address(self) -> Address {
        self.signer_address
    }

    /// Pair orders with their fills and the signer's address.
    pub fn new(orders: Vec<SignedOrder>, fills: HashMap<u64, F>, signer_address: Address) -> (r:
        Self)
        ensures
            r.spec_orders() == orders@,
            r.spec_fills() == fills@,
            r.spec_signer_address() == signer_address,
    {
        OrdersAndFills { orders, fills, signer_address }
    }

    /// Get the orders.
    pub fn orders(&self) -> (r: &[SignedOrder])
        ensures
            r@ == self.spec_orders(),
    {
        self.orders.as_slice()
    }

    /// Get the fills.
    pub fn fills(&self) -> (r: &HashMap<u64, F>)
        ensures
            r@ == self.spec_fills(),
    {
        &self.fills
    }

    /// Get the signer address.
    pub fn signer_address(&self) -> (r: Address)
        ensures
            r == self.spec_signer_address(),
    {
        self.signer_address
    }
}

/// Setting the deadline offset and the nonce commute: either order of the
/// two setters gives the same options.
pub proof fn law_filler_options_setters_commute(o: FillerOptions, offset: u64, nonce: u64, a: FillerOptions, b: FillerOptions, c: FillerOptions, d: FillerOptions)
    requires
        a.deadline_offset == Some(offset) && a.nonce == o.nonce,
        b.nonce == Some(nonce) && b.deadline_offset == a.deadline_offset,
        c.nonce == Some(nonce) && c.deadline_offset == o.deadline_offset,
        d.deadline_offset == Some(offset) && d.nonce == c.nonce,
    ensures
        b == d,
{
}

/// Fills orders: gets them from a source, signs fills for them and submits
/// them.
#[derive(Debug, Clone)]
pub struct Filler<Sign, Source, Submit> {
    signer: Sign,
    order_source: Source,
    submitter: Submit,
    constants: SystemConstants,
    options: FillerOptions,
}

impl<Sign, Source, Submit> Filler<Sign, Source, Submit> {
    /// The signer.
    pub closed spec fn spec_signer(self) -> Sign {
        self.signer
    }

    /// The order source.
    pub closed spec fn spec_order_source(self) -> Source {
        self.order_source
    }

    /// The fill submitter.
    pub closed spec fn spec_submitter(self) -> Submit {
        self.submitter
    }

    /// The system constants.
    pub closed spec fn spec_constants(self) -> SystemConstants {
        self.constants
    }

    /// The options.
    pub closed spec fn spec_options(self) -> FillerOptions {
        self.options
    }

    /// Create a new filler.
    pub fn new(signer: Sign, order_source: Source, submitter: Submit, constants: SystemConstants, options: FillerOptions) -> (r: Self)
        ensures
            r.spec_signer() == signer,
            r.spec_order_source() == order_source,
            r.spec_submitter() == submitter,
            r.spec_constants() == constants,
            r.spec_options() == options,
    {
        Filler { signer, order_source, submitter, constants, options }
    }

    /// The signer.
    pub fn signer(&self) -> (r: &Sign)
        ensures
            *r == self.spec_signer(),
    {
        &self.signer
    }

    /// The order source.
    pub fn order_source(&self) -> (r: &Source)
        ensures
            *r == self.spec_order_source(),
    {
        &self.order_source
    }

    /// The fill submitter.
    pub fn submitter(&self) -> (r: &Submit)
        ensures
            *r == self.spec_submitter(),
    {
        &self.submitter
    }

    /// The system constants.
    pub fn constants(&self) -> (r: &SystemConstants)
        ensures
            *r == self.spec_constants(),
    {
        &self.constants
    }

    /// The options.
    pub fn options(&self) -> (r: &FillerOptions)
        ensures
            *r == self.spec_options(),
    {
        &self.options
    }
}

/// Errors returned by the order sender.
#[derive(Debug, Clone, PartialEq, Eq)]
#[non_exhaustive]
pub enum OrderSenderError {
    /// The order could not be signed; the signer's message.
    Signing(String),
    /// The order could not be submitted; the submitter's message.
    Submission(String),
}

impl OrderSenderError {
    /// The error's message.
    pub open spec fn spec_message(self) -> Seq<char> {
        match self {
            OrderSenderError::Signing(m) => "order signing error: "@ + m@,
            OrderSenderError::Submission(m) => "order submission error: "@ + m@,
        }
    }

    /// The error's message.
    pub fn to_string(&self) -> (r: String)
        ensures
            r@ == self.spec_message(),
    {
        match self {
            OrderSenderError::Signing(m) => String::from_str("order signing error: ").concat(m.as_str()),
            OrderSenderError::Submission(m) => String::from_str("order submission error: ").concat(m.as_str()),
        }
    }
}

/// Signs orders and sends them to a submitter.
#[derive(Debug, Clone)]
pub struct OrderSender<Sign, Submit> {
    signer: Sign,
    submitter: Submit,
    constants: SystemConstants,
}

impl<Sign, Submit> OrderSender<Sign, Submit> {
    /// The signer.
    pub closed spec fn spec_signer(self) -> Sign {
        self.signer
    }

    /// The order submitter.
    pub closed spec fn spec_submitter(self) -> Submit {
        self.submitter
    }

    /// The system constants.
    pub closed spec fn spec_constants(self) -> SystemConstants {
        self.constants
    }

    /// Create a new order sender.
    pub fn new(signer: Sign, submitter: Submit, constants: SystemConstants) -> (r: Self)
        ensures
            r.spec_signer() == signer,
            r.spec_submitter() == submitter,
            r.spec_constants() == constants,
    {
        OrderSender { signer, submitter, constants }
    }

    /// The signer.
    pub fn signer(&self) -> (r: &Sign)
        ensures
            *r == self.spec_signer(),
    {
        &self.signer
    }

    /// The order submitter.
    pub fn submitter(&self) -> (r: &Submit)
        ensures
            *r == self.spec_submitter(),
    {
        &self.submitter
    }

    /// The system constants.
    pub fn constants(&self) -> (r: &SystemConstants)
        ensures
            *r == self.spec_constants(),
    {
        &self.constants
    }
}

} // verus!
