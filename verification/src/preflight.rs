//! Preflight checks for orders: token balances, Permit2 allowances and
//! Permit2 nonces. The chain is queried elsewhere; these functions say what
//! to query and judge the answers.
use vstd::prelude::*;
use crate::orders::{is_nonce_consumed, nonce_to_bitmap_position, SignedOrder, TokenPermissions};
use crate::primitives::{decimal, nat_bit, Address, U256};

verus! {

/// Errors that can occur during preflight validation.
#[derive(Debug, Clone, PartialEq, Eq)]
#[non_exhaustive]
pub enum PreflightError {
    /// A provider error occurred while checking conditions, with its
    /// message.
    Provider(String),
    /// Insufficient token balance for the order.
    InsufficientBalance {
        /// Current balance.
        have: U256,
        /// Required balance.
        need: U256,
    },
    /// Insufficient ERC20 allowance for Permit2.
    InsufficientAllowance {
        /// Current allowance.
        have: U256,
        /// Required allowance.
        need: U256,
    },
    /// Permit2 nonce has already been consumed.
    NonceConsumed {
        /// Word position in the nonce bitmap.
        word_pos: U256,
        /// Bit position in the word.
        bit_pos: u8,
    },
}

impl PreflightError {
    /// The error's message.
    pub open spec fn spec_message(self) -> Seq<char> {
        match self {
            PreflightError::Provider(m) => "provider error: "@ + m@,
            PreflightError::InsufficientBalance { have, need } => "insufficient balance: have "@
                + decimal(have.value()) + ", need "@ + decimal(need.value()),
            PreflightError::InsufficientAllowance { have, need } => "insufficient allowance: have "@
                + decimal(have.value()) + ", need "@ + decimal(need.value()),
            PreflightError::NonceConsumed { word_pos, bit_pos } => "nonce already consumed: word_pos="@
                + decimal(word_pos.value()) + ", bit_pos="@ + decimal(bit_pos as nat),
        }
    }

    /// The error's message.
    pub fn to_string(&self) -> (r: String)
        ensures
            r@ == self.spec_message(),
    {
        match self {
            PreflightError::Provider(m) => String::from_str("provider error: ").concat(m.as_str()),
            PreflightError::InsufficientBalance { have, need } => {
                let h = have.to_string();
                let n = need.to_string();
                String::from_str("insufficient balance: have ").concat(h.as_str()).concat(", need ").concat(n.as_str())
            },
            PreflightError::InsufficientAllowance { have, need } => {
                let h = have.to_string();
                let n = need.to_string();
                String::from_str("insufficient allowance: have ").concat(h.as_str()).concat(", need ").concat(n.as_str())
            },
            PreflightError::NonceConsumed { word_pos, bit_pos } => {
                let w = word_pos.to_string();
                let b = U256::from_u64(*bit_pos as u64).to_string();
                String::from_str("nonce already consumed: word_pos=").concat(w.as_str()).concat(", bit_pos=").concat(b.as_str())
            },
        }
    }
}

/// Judges a balance query: `balance` of the token must cover `amount`.
pub fn sufficient_balance(balance: U256, amount: U256) -> (r: Result<(), PreflightError>)
    ensures
        balance.value() < amount.value() ==> r == Err::<(), PreflightError>(
            PreflightError::InsufficientBalance { have: balance, need: amount },
        ),
        balance.value() >= amount.value() ==> r is Ok,
{
    if balance.lt(&amount) {
        return Err(PreflightError::InsufficientBalance { have: balance, need: amount });
    }
    Ok(())
}

/// Judges an allowance query: the `allowance` granted to Permit2 must cover
/// `amount`.
pub fn token_approved(allowance: U256, amount: U256) -> (r: Result<(), PreflightError>)
    ensures
        allowance.value() < amount.value() ==> r == Err::<(), PreflightError>(
            PreflightError::InsufficientAllowance { have: allowance, need: amount },
        ),
        allowance.value() >= amount.value() ==> r is Ok,
{
    if allowance.lt(&amount) {
        return Err(PreflightError::InsufficientAllowance { have: allowance, need: amount });
    }
    Ok(())
}

/// Judges a nonce-bitmap query: `bitmap` is the Permit2 bitmap word that
/// holds `nonce`; the nonce is available unless its bit is set.
pub fn nonce_available(bitmap: U256, nonce: U256) -> (r: Result<(), PreflightError>)
    ensures
        nat_bit(bitmap.value(), nonce.value() % 256) ==> (r matches Err(
            PreflightError::NonceConsumed { word_pos, bit_pos },
        ) && word_pos.value() == nonce.value() / 256 && bit_pos == nonce.value() % 256),
        !nat_bit(bitmap.value(), nonce.value() % 256) ==> r is Ok,
{
    let (word_pos, bit_pos) = nonce_to_bitmap_position(nonce);
    if bitmap.bit(bit_pos) {
        return Err(PreflightError::NonceConsumed { word_pos, bit_pos });
    }
    Ok(())
}

/// A token amount to check for a user: a balance check and an allowance
/// check are made for each.
#[derive(Debug, Clone, Copy, PartialEq, Eq)]
pub struct TokenCheck {
    /// The token.
    pub token: Address,
    /// The user holding it.
    pub user: Address,
    /// The amount the user must hold and have approved.
    pub amount: U256,
}

/// The token checks for a signed order: one per permitted input, for the
/// permit's owner and the permitted amount.
pub fn signed_order_token_checks(order: &SignedOrder) -> (r: Vec<TokenCheck>)
    ensures
        r@.len() == order.spec_permit().permit.permitted@.len(),
        forall|i: int|
            0 <= i < r@.len() ==> #[trigger] r@[i] == (TokenCheck {
                token: order.spec_permit().permit.permitted@[i].token,
                user: order.spec_permit().owner,
                amount: order.spec_permit().permit.permitted@[i].amount,
            }),
{
    let permit = order.permit();
    let owner = permit.owner;
    let permitted = &permit.permit.permitted;
    let mut out: Vec<TokenCheck> = Vec::new();
    let mut i: usize = 0;
    while i < permitted.len()
        invariant
            *permit == order.spec_permit(),
            owner == permit.owner,
            permitted@ == permit.permit.permitted@,
            0 <= i <= permitted@.len(),
            out@.len() == i,
            forall|j: int|
                0 <= j < i ==> #[trigger] out@[j] == (TokenCheck {
                    token: permitted@[j].token,
                    user: owner,
                    amount: permitted@[j].amount,
                }),
        decreases permitted@.len() - i,
    {
        out.push(TokenCheck { token: permitted[i].token, user: owner, amount: permitted[i].amount });
        i = i + 1;
    }
    out
}

/// Where to look up a signed order's Permit2 nonce: the permit's owner and
/// the bitmap word that holds the nonce.
pub fn order_nonce_word(order: &SignedOrder) -> (r: (Address, U256))
    ensures
        r.0 == order.spec_permit().owner,
        r.1.value() == order.spec_permit().permit.nonce.value() / 256,
{
    let owner = order.permit().owner;
    let nonce = order.permit().permit.nonce;
    (owner, nonce.shr8())
}

/// Judges a signed order's nonce from the bitmap word read at
/// [`order_nonce_word`]: true if the order's nonce is consumed (the order
/// was filled or cancelled).
pub fn order_nonce_consumed(order: &SignedOrder, bitmap: U256) -> (r: bool)
    ensures
        r == nat_bit(bitmap.value(), order.spec_permit().permit.nonce.value() % 256),
{
    is_nonce_consumed(bitmap, order.permit().permit.nonce)
}

/// The preflight nonce check and the Permit2 fill-status check agree: a
/// nonce is available exactly when it is not consumed.
pub proof fn law_nonce_available_iff_not_consumed(bitmap: U256, nonce: U256, consumed: bool, available: Result<(), PreflightError>)
    requires
        consumed == nat_bit(bitmap.value(), nonce.value() % 256),
        nat_bit(bitmap.value(), nonce.value() % 256) ==> available is Err,
        !nat_bit(bitmap.value(), nonce.value() % 256) ==> available is Ok,
    ensures
        (available is Ok) == !consumed,
{
}

/// The outcome of the balance checks of `checks`, given the balances read
/// for them: the first insufficient balance, in order, if any.
pub open spec fn spec_balance_checks(checks: Seq<TokenCheck>, balances: Seq<U256>) -> Result<(), PreflightError>
    decreases checks.len(),
{
    if checks.len() == 0 || balances.len() < checks.len() {
        Ok(())
    } else {
        let n = checks.len() - 1;
        match spec_balance_checks(checks.drop_last(), balances.take(n)) {
            Err(e) => Err(e),
            Ok(_) => if balances[n].value() < checks[n].amount.value() {
                Err(PreflightError::InsufficientBalance { have: balances[n], need: checks[n].amount })
            } else {
                Ok(())
            },
        }
    }
}

/// The outcome of the allowance checks of `checks`, given the Permit2
/// allowances read for them: the first insufficient one, in order, if any.
pub open spec fn spec_allowance_checks(checks: Seq<TokenCheck>, allowances: Seq<U256>) -> Result<(), PreflightError>
    decreases checks.len(),
{
    if checks.len() == 0 || allowances.len() < checks.len() {
        Ok(())
    } else {
        let n = checks.len() - 1;
        match spec_allowance_checks(checks.drop_last(), allowances.take(n)) {
            Err(e) => Err(e),
            Ok(_) => if allowances[n].value() < checks[n].amount.value() {
                Err(PreflightError::InsufficientAllowance { have: allowances[n], need: checks[n].amount })
            } else {
                Ok(())
            },
        }
    }
}

/// Judges the balance checks of `checks`, given the balance read for each.
pub fn check_balances(checks: &Vec<TokenCheck>, balances: &Vec<U256>) -> (r: Result<(), PreflightError>)
    requires
        balances@.len() == checks@.len(),
    ensures
        r == spec_balance_checks(checks@, balances@),
        r is Ok <==> forall|i: int| 0 <= i < checks@.len() ==> balances@[i].value() >= checks@[i].amount.value(),
{
    let mut i: usize = 0;
    while i < checks.len()
        invariant
            balances@.len() == checks@.len(),
            0 <= i <= checks@.len(),
            spec_balance_checks(checks@.take(i as int), balances@.take(i as int)) is Ok,
            forall|k: int| 0 <= k < i ==> balances@[k].value() >= checks@[k].amount.value(),
        decreases checks@.len() - i,
    {
        proof {
            assert(checks@.take(i + 1).drop_last() =~= checks@.take(i as int));
            assert(balances@.take(i + 1).take(i as int) =~= balances@.take(i as int));
        }
        let r = sufficient_balance(balances[i], checks[i].amount);
        if r.is_err() {
            proof {
                lemma_balance_prefix_fails(checks@, balances@, i as int);
            }
            return r;
        }
        i = i + 1;
    }
    proof {
        assert(checks@.take(i as int) =~= checks@);
        assert(balances@.take(i as int) =~= balances@);
    }
    Ok(())
}

/// A failing balance check at `i`, after `i` passing ones, decides the
/// outcome of the whole run.
proof fn lemma_balance_prefix_fails(checks: Seq<TokenCheck>, balances: Seq<U256>, i: int)
    requires
        balances.len() == checks.len(),
        0 <= i < checks.len(),
        spec_balance_checks(checks.take(i), balances.take(i)) is Ok,
        balances[i].value() < checks[i].amount.value(),
    ensures
        spec_balance_checks(checks, balances) == Err::<(), PreflightError>(
            PreflightError::InsufficientBalance { have: balances[i], need: checks[i].amount },
        ),
    decreases checks.len() - i,
{
    lemma_balance_prefix_fails_at(checks, balances, i, checks.len() as int);
    assert(checks.take(checks.len() as int) =~= checks);
    assert(balances.take(checks.len() as int) =~= balances);
}

/// The same, for every prefix of length `j` past `i`.
proof fn lemma_balance_prefix_fails_at(checks: Seq<TokenCheck>, balances: Seq<U256>, i: int, j: int)
    requires
        balances.len() == checks.len(),
        0 <= i < j <= checks.len(),
        spec_balance_checks(checks.take(i), balances.take(i)) is Ok,
        balances[i].value() < checks[i].amount.value(),
    ensures
        spec_balance_checks(checks.take(j), balances.take(j)) == Err::<(), PreflightError>(
            PreflightError::InsufficientBalance { have: balances[i], need: checks[i].amount },
        ),
    decreases j - i,
{
    assert(checks.take(j).drop_last() =~= checks.take(j - 1));
    assert(balances.take(j).take(j - 1) =~= balances.take(j - 1));
    if j > i + 1 {
        lemma_balance_prefix_fails_at(checks, balances, i, j - 1);
    }
}

/// Judges the allowance checks of `checks`, given the Permit2 allowance
/// read for each.
pub fn check_allowances(checks: &Vec<TokenCheck>, allowances: &Vec<U256>) -> (r: Result<(), PreflightError>)
    requires
        allowances@.len() == checks@.len(),
    ensures
        r == spec_allowance_checks(checks@, allowances@),
        r is Ok <==> forall|i: int| 0 <= i < checks@.len() ==> allowances@[i].value() >= checks@[i].amount.value(),
{
    let mut i: usize = 0;
    while i < checks.len()
        invariant
            allowances@.len() == checks@.len(),
            0 <= i <= checks@.len(),
            spec_allowance_checks(checks@.take(i as int), allowances@.take(i as int)) is Ok,
            forall|k: int| 0 <= k < i ==> allowances@[k].value() >= checks@[k].amount.value(),
        decreases checks@.len() - i,
    {
        proof {
            assert(checks@.take(i + 1).drop_last() =~= checks@.take(i as int));
            assert(allowances@.take(i + 1).take(i as int) =~= allowances@.take(i as int));
        }
        let r = token_approved(allowances[i], checks[i].amount);
        if r.is_err() {
            proof {
                lemma_allowance_prefix_fails_at(checks@, allowances@, i as int, checks@.len() as int);
                assert(checks@.take(checks@.len() as int) =~= checks@);
                assert(allowances@.take(checks@.len() as int) =~= allowances@);
            }
            return r;
        }
        i = i + 1;
    }
    proof {
        assert(checks@.take(i as int) =~= checks@);
        assert(allowances@.take(i as int) =~= allowances@);
    }
    Ok(())
}

/// A failing allowance check at `i`, after `i` passing ones, decides every
/// longer prefix.
proof fn lemma_allowance_prefix_fails_at(checks: Seq<TokenCheck>, allowances: Seq<U256>, i: int, j: int)
    requires
        allowances.len() == checks.len(),
        0 <= i < j <= checks.len(),
        spec_allowance_checks(checks.take(i), allowances.take(i)) is Ok,
        allowances[i].value() < checks[i].amount.value(),
    ensures
        spec_allowance_checks(checks.take(j), allowances.take(j)) == Err::<(), PreflightError>(
            PreflightError::InsufficientAllowance { have: allowances[i], need: checks[i].amount },
        ),
    decreases j - i,
{
    assert(checks.take(j).drop_last() =~= checks.take(j - 1));
    assert(allowances.take(j).take(j - 1) =~= allowances.take(j - 1));
    if j > i + 1 {
        lemma_allowance_prefix_fails_at(checks, allowances, i, j - 1);
    }
}

/// The token checks for an unsigned order's inputs, for `user`.
pub fn unsigned_order_token_checks(inputs: &Vec<TokenPermissions>, user: Address) -> (r: Vec<TokenCheck>)
    ensures
        r@.len() == inputs@.len(),
        forall|i: int|
            0 <= i < r@.len() ==> #[trigger] r@[i] == (TokenCheck {
                token: inputs@[i].token,
                user,
                amount: inputs@[i].amount,
            }),
{
    let mut out: Vec<TokenCheck> = Vec::new();
    let mut i: usize = 0;
    while i < inputs.len()
        invariant
            0 <= i <= inputs@.len(),
            out@.len() == i,
            forall|j: int|
                0 <= j < i ==> #[trigger] out@[j] == (TokenCheck {
                    token: inputs@[j].token,
                    user,
                    amount: inputs@[j].amount,
                }),
        decreases inputs@.len() - i,
    {
        out.push(TokenCheck { token: inputs[i].token, user, amount: inputs[i].amount });
        i = i + 1;
    }
    out
}

/// Judges a signed order from what the chain answered: the balance and the
/// Permit2 allowance of the owner for each permitted input (in the order of
/// [`signed_order_token_checks`]) and the bitmap word at
/// [`order_nonce_word`]. The order passes when every balance and allowance
/// covers its amount and the nonce is unused; otherwise the first failing
/// balance check, else the first failing allowance check, else the nonce
/// check is reported.
pub fn check_signed_order(order: &SignedOrder, balances: &Vec<U256>, allowances: &Vec<U256>, bitmap: U256) -> (r:
    Result<(), PreflightError>)
    requires
        balances@.len() == order.spec_permit().permit.permitted@.len(),
        allowances@.len() == order.spec_permit().permit.permitted@.len(),
    ensures
        ({
            let permitted = order.spec_permit().permit.permitted@;
            let owner = order.spec_permit().owner;
            let checks = permitted.map_values(|p: TokenPermissions| TokenCheck { token: p.token, user: owner, amount: p.amount });
            let nonce = order.spec_permit().permit.nonce;
            &&& spec_balance_checks(checks, balances@) is Err ==> r == spec_balance_checks(checks, balances@)
            &&& spec_balance_checks(checks, balances@) is Ok && spec_allowance_checks(checks, allowances@) is Err
                ==> r == spec_allowance_checks(checks, allowances@)
            &&& spec_balance_checks(checks, balances@) is Ok && spec_allowance_checks(checks, allowances@) is Ok
                ==> (nat_bit(bitmap.value(), nonce.value() % 256) ==> (r matches Err(
                    PreflightError::NonceConsumed { word_pos, bit_pos },
                ) && word_pos.value() == nonce.value() / 256 && bit_pos == nonce.value() % 256))
                && (!nat_bit(bitmap.value(), nonce.value() % 256) ==> r is Ok)
            &&& r is Ok <==> (forall|i: int| 0 <= i < permitted.len() ==> balances@[i].value() >= permitted[i].amount.value()
                && allowances@[i].value() >= permitted[i].amount.value())
                && !nat_bit(bitmap.value(), nonce.value() % 256)
        }),
{
    let checks = signed_order_token_checks(order);
    proof {
        let owner = order.spec_permit().owner;
        assert(checks@ =~= order.spec_permit().permit.permitted@.map_values(
            |p: TokenPermissions| TokenCheck { token: p.token, user: owner, amount: p.amount },
        ));
    }
    let b = check_balances(&checks, balances);
    if b.is_err() {
        return b;
    }
    let a = check_allowances(&checks, allowances);
    if a.is_err() {
        return a;
    }
    nonce_available(bitmap, order.permit().permit.nonce)
}

/// Judges an unsigned order's inputs for `user` from the balance and the
/// Permit2 allowance read for each input: the first failing balance check,
/// else the first failing allowance check, else success.
pub fn check_unsigned_order(inputs: &Vec<TokenPermissions>, user: Address, balances: &Vec<U256>, allowances: &Vec<U256>) -> (r:
    Result<(), PreflightError>)
    requires
        balances@.len() == inputs@.len(),
        allowances@.len() == inputs@.len(),
    ensures
        ({
            let checks = inputs@.map_values(|p: TokenPermissions| TokenCheck { token: p.token, user, amount: p.amount });
            &&& spec_balance_checks(checks, balances@) is Err ==> r == spec_balance_checks(checks, balances@)
            &&& spec_balance_checks(checks, balances@) is Ok ==> r == spec_allowance_checks(checks, allowances@)
        }),
        r is Ok <==> forall|i: int| 0 <= i < inputs@.len() ==> balances@[i].value() >= inputs@[i].amount.value()
            && allowances@[i].value() >= inputs@[i].amount.value(),
{
    let checks = unsigned_order_token_checks(inputs, user);
    proof {
        assert(checks@ =~= inputs@.map_values(|p: TokenPermissions| TokenCheck { token: p.token, user, amount: p.amount }));
    }
    let b = check_balances(&checks, balances);
    if b.is_err() {
        return b;
    }
    check_allowances(&checks, allowances)
}

} // verus!
