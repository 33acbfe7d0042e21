//! What the transaction cache is sent and answers: the endpoint of each
//! kind of object, and the shapes of its responses.
use vstd::prelude::*;
use crate::primitives::B256;

verus! {

/// The kinds of object the transaction cache takes and serves.
#[derive(Debug, Clone, Copy, PartialEq, Eq, Structural)]
pub enum CacheEndpoint {
    /// Raw transactions.
    Transactions,
    /// Bundles.
    Bundles,
    /// Signed orders.
    Orders,
}

impl CacheEndpoint {
    /// The path of the endpoint, relative to the cache's URL.
    pub open spec fn spec_path(self) -> Seq<char> {
        match self {
            CacheEndpoint::Transactions => "transactions"@,
            CacheEndpoint::Bundles => "bundles"@,
            CacheEndpoint::Orders => "orders"@,
        }
    }

    /// The path of the endpoint, relative to the cache's URL.
    pub fn path(self) -> (r: String)
        ensures
            r@ == self.spec_path(),
    {
        match self {
            CacheEndpoint::Transactions => String::from_str("transactions"),
            CacheEndpoint::Bundles => String::from_str("bundles"),
            CacheEndpoint::Orders => String::from_str("orders"),
        }
    }
}

/// A bundle held by the transaction cache, with the id it was given (a
/// UUID, as its 128-bit value).
#[derive(Debug, Clone, PartialEq, Eq)]
pub struct SignetEthBundleResponse<B> {
    /// The bundle's id.
    pub id: u128,
    /// The bundle.
    pub bundle: B,
}

impl<B> SignetEthBundleResponse<B> {
    /// Pair a bundle with its id.
    pub fn from_bundle_and_id(bundle: B, id: u128) -> (r: Self)
        ensures
            r.bundle == bundle,
            r.id == id,
    {
        SignetEthBundleResponse { id, bundle }
    }

    /// The bundle.
    pub fn into_bundle(self) -> (r: B)
        ensures
            r == self.bundle,
    {
        self.bundle
    }

    /// The bundle's id.
    pub fn id(&self) -> (r: u128)
        ensures
            r == self.id,
    {
        self.id
    }

    /// The bundle.
    pub fn bundle(&self) -> (r: &B)
        ensures
            *r == self.bundle,
    {
        &self.bundle
    }
}

/// The cache's answer with one bundle.
#[derive(Debug, Clone, PartialEq, Eq)]
pub struct TxCacheBundleResponse<B> {
    /// The bundle.
    pub bundle: SignetEthBundleResponse<B>,
}

impl<B> TxCacheBundleResponse<B> {
    /// Wrap a bundle.
    pub fn from_bundle(bundle: SignetEthBundleResponse<B>) -> (r: Self)
        ensures
            r.bundle == bundle,
    {
        TxCacheBundleResponse { bundle }
    }

    /// The bundle.
    pub fn into_bundle(self) -> (r: SignetEthBundleResponse<B>)
        ensures
            r == self.bundle,
    {
        self.bundle
    }
}

/// The cache's answer with its bundles.
#[derive(Debug, Clone, PartialEq, Eq)]
pub struct TxCacheBundlesResponse<B> {
    /// The bundles.
    pub bundles: Vec<SignetEthBundleResponse<B>>,
}

impl<B> TxCacheBundlesResponse<B> {
    /// Wrap bundles.
    pub fn from_bundles(bundles: Vec<SignetEthBundleResponse<B>>) -> (r: Self)
        ensures
            r.bundles == bundles,
    {
        TxCacheBundlesResponse { bundles }
    }

    /// The bundles.
    pub fn into_bundles(self) -> (r: Vec<SignetEthBundleResponse<B>>)
        ensures
            r == self.bundles,
    {
        self.bundles
    }
}

/// The cache's answer with its transactions.
#[derive(Debug, Clone, PartialEq, Eq)]
pub struct TxCacheTransactionsResponse<T> {
    transactions: Vec<T>,
}

impl<T> TxCacheTransactionsResponse<T> {
    /// The transactions.
    pub closed spec fn spec_transactions(self) -> Seq<T> {
        self.transactions@
    }

    /// Wrap transactions.
    pub fn from_transactions(transactions: Vec<T>) -> (r: Self)
        ensures
            r.spec_transactions() == transactions@,
    {
        TxCacheTransactionsResponse { transactions }
    }

    /// The transactions.
    pub fn into_transactions(self) -> (r: Vec<T>)
        ensures
            r@ == self.spec_transactions(),
    {
        self.transactions
    }
}

/// The cache's answer to a forwarded transaction: its hash.
#[derive(Debug, Clone, Copy, PartialEq, Eq)]
pub struct TxCacheTransactionResponse {
    tx_hash: B256,
}

impl TxCacheTransactionResponse {
    /// The transaction hash.
    pub closed spec fn spec_tx_hash(self) -> B256 {
        self.tx_hash
    }

    /// Wrap a transaction hash.
    pub fn from_tx_hash(tx_hash: B256) -> (r: Self)
        ensures
            r.spec_tx_hash() == tx_hash,
    {
        TxCacheTransactionResponse { tx_hash }
    }

    /// The transaction hash.
    pub fn into_tx_hash(self) -> (r: B256)
        ensures
            r == self.spec_tx_hash(),
    {
        self.tx_hash
    }
}

/// The cache's answer with its orders.
#[derive(Debug, Clone, PartialEq, Eq)]
pub struct TxCacheOrdersResponse<O> {
    orders: Vec<O>,
}

impl<O> TxCacheOrdersResponse<O> {
    /// The orders.
    pub closed spec fn spec_orders(self) -> Seq<O> {
        self.orders@
    }

    /// Wrap orders.
    pub fn from_orders(orders: Vec<O>) -> (r: Self)
        ensures
            r.spec_orders() == orders@,
    {
        TxCacheOrdersResponse { orders }
    }

    /// The orders.
    pub fn into_orders(self) -> (r: Vec<O>)
        ensures
            r@ == self.spec_orders(),
    {
        self.orders
    }
}

} // verus!
