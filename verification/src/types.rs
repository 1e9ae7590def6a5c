//! Plain values that the pool reads and produces: token identifiers,
//! addresses, payments, the transfers and calls it asks the chain to make,
//! and the reasons for which it refuses a request.
use vstd::prelude::*;

verus! {

/// Byte-for-byte equality of two byte strings.
pub fn bytes_equal(a: &Vec<u8>, b: &Vec<u8>) -> (res: bool)
    ensures
        res == (a@ == b@),
{
    if a.len() != b.len() {
        return false;
    }
    let n = a.len();
    let mut i: usize = 0;
    while i < n
        invariant
            n == a.len(),
            n == b.len(),
            i <= n,
            forall|j: int| 0 <= j < i ==> a@[j] == b@[j],
        decreases n - i,
    {
        if a[i] != b[i] {
            return false;
        }
        i = i + 1;
    }
    assert(a@ =~= b@);
    true
}

/// A copy of a byte string.
pub fn bytes_copy(a: &Vec<u8>) -> (res: Vec<u8>)
    ensures
        res@ == a@,
{
    let mut out: Vec<u8> = Vec::new();
    let mut i: usize = 0;
    while i < a.len()
        invariant
            i <= a.len(),
            out@ =~= a@.subrange(0, i as int),
        decreases a.len() - i,
    {
        out.push(a[i]);
        i = i + 1;
    }
    out
}

/// A token identifier, as the bytes that the chain stores for it. An unset
/// identifier is the empty byte string.
#[derive(PartialEq, Eq, Debug, Clone)]
pub struct TokenId {
    pub bytes: Vec<u8>,
}

impl View for TokenId {
    type V = Seq<u8>;

    open spec fn view(&self) -> Seq<u8> {
        self.bytes@
    }
}

impl TokenId {
    pub fn new(bytes: Vec<u8>) -> (res: TokenId)
        ensures
            res@ == bytes@,
    {
        TokenId { bytes }
    }

    /// The identifier of no token: what an empty storage slot holds.
    pub fn empty() -> (res: TokenId)
        ensures
            res@ == Seq::<u8>::empty(),
    {
        TokenId { bytes: Vec::new() }
    }

    pub fn is_empty(&self) -> (res: bool)
        ensures
            res == (self@.len() == 0),
    {
        self.bytes.len() == 0
    }

    pub fn same_as(&self, other: &TokenId) -> (res: bool)
        ensures
            res == (self@ == other@),
    {
        bytes_equal(&self.bytes, &other.bytes)
    }

    pub fn copy(&self) -> (res: TokenId)
        ensures
            res@ == self@,
    {
        TokenId { bytes: bytes_copy(&self.bytes) }
    }
}

/// An account or contract address, as its bytes.
#[derive(PartialEq, Eq, Debug, Clone)]
pub struct Address {
    pub bytes: Vec<u8>,
}

impl View for Address {
    type V = Seq<u8>;

    open spec fn view(&self) -> Seq<u8> {
        self.bytes@
    }
}

impl Address {
    pub fn new(bytes: Vec<u8>) -> (res: Address)
        ensures
            res@ == bytes@,
    {
        Address { bytes }
    }

    pub fn copy(&self) -> (res: Address)
        ensures
            res@ == self@,
    {
        Address { bytes: bytes_copy(&self.bytes) }
    }
}

/// An ESDT payment: token, nonce and amount.
#[derive(PartialEq, Eq, Debug, Clone)]
pub struct EsdtTokenPayment {
    pub token_identifier: TokenId,
    pub token_nonce: u64,
    pub amount: u128,
}

/// The token a call carried: EGLD, or an ESDT token.
#[derive(PartialEq, Eq, Debug, Clone)]
pub enum EgldOrEsdt {
    Egld,
    Esdt(TokenId),
}

/// What may be done with an issued token.
#[derive(PartialEq, Eq, Structural, Clone, Copy, Debug)]
pub struct TokenProperties {
    pub can_freeze: bool,
    pub can_wipe: bool,
    pub can_pause: bool,
    pub can_mint: bool,
    pub can_burn: bool,
    pub can_change_owner: bool,
    pub can_upgrade: bool,
    pub can_add_special_roles: bool,
}

/// What the pool asks the chain to do once a request is accepted, in order.
#[derive(PartialEq, Eq, Debug, Clone)]
pub enum Action {
    /// Transfer `amount` of ESDT `token` (with `nonce`) to `to`.
    SendEsdt { to: Address, token: TokenId, nonce: u64, amount: u128 },
    /// Transfer `amount` of EGLD to `to`.
    SendEgld { to: Address, amount: u128 },
    /// Mint `amount` of the LP token into the pool's own balance.
    MintLp { token: TokenId, amount: u128 },
    /// Burn `amount` of the LP token from the pool's own balance.
    BurnLp { token: TokenId, amount: u128 },
    /// Ask the system contract to issue the LP token, paying `egld_value`;
    /// its answer comes back to `lp_token_issue_callback` with `caller`.
    IssueLpToken {
        egld_value: u128,
        display_name: Vec<u8>,
        ticker: Vec<u8>,
        initial_supply: u128,
        num_decimals: u32,
        properties: TokenProperties,
        caller: Address,
    },
    /// Ask the system contract to give `address` the mint and burn roles for `token`.
    SetMintBurnRoles { address: Address, token: TokenId },
}

/// An action as plain values.
pub enum ActionView {
    SendEsdt { to: Seq<u8>, token: Seq<u8>, nonce: u64, amount: nat },
    SendEgld { to: Seq<u8>, amount: nat },
    MintLp { token: Seq<u8>, amount: nat },
    BurnLp { token: Seq<u8>, amount: nat },
    IssueLpToken {
        egld_value: nat,
        display_name: Seq<u8>,
        ticker: Seq<u8>,
        initial_supply: nat,
        num_decimals: nat,
        properties: TokenProperties,
        caller: Seq<u8>,
    },
    SetMintBurnRoles { address: Seq<u8>, token: Seq<u8> },
}

impl View for Action {
    type V = ActionView;

    open spec fn view(&self) -> ActionView {
        match self {
            Action::SendEsdt { to, token, nonce, amount } => ActionView::SendEsdt {
                to: to@,
                token: token@,
                nonce: *nonce,
                amount: *amount as nat,
            },
            Action::SendEgld { to, amount } => ActionView::SendEgld { to: to@, amount: *amount as nat },
            Action::MintLp { token, amount } => ActionView::MintLp {
                token: token@,
                amount: *amount as nat,
            },
            Action::BurnLp { token, amount } => ActionView::BurnLp {
                token: token@,
                amount: *amount as nat,
            },
            Action::IssueLpToken {
                egld_value,
                display_name,
                ticker,
                initial_supply,
                num_decimals,
                properties,
                caller,
            } => ActionView::IssueLpToken {
                egld_value: *egld_value as nat,
                display_name: display_name@,
                ticker: ticker@,
                initial_supply: *initial_supply as nat,
                num_decimals: *num_decimals as nat,
                properties: *properties,
                caller: caller@,
            },
            Action::SetMintBurnRoles { address, token } => ActionView::SetMintBurnRoles {
                address: address@,
                token: token@,
            },
        }
    }
}

/// The actions of a list, as plain values.
pub open spec fn actions_view(v: Seq<Action>) -> Seq<ActionView> {
    v.map_values(|a: Action| a@)
}

/// Why a request is refused. The whole request is then undone.
#[derive(PartialEq, Eq, Structural, Clone, Copy, Debug)]
pub enum PairError {
    /// "Paused"
    Paused,
    /// "LP token already issued"
    LpTokenAlreadyIssued,
    /// "LP token not issued"
    LpTokenNotIssued,
    /// "Invalid payment for first token"
    InvalidPaymentFirstToken,
    /// "Invalid payment for second token"
    InvalidPaymentSecondToken,
    /// "Invalid payment token"
    InvalidPaymentToken,
    /// "Invalid out token"
    InvalidOutToken,
    /// "Invalid LP token"
    InvalidLpToken,
    /// "Liquidity already added"
    LiquidityAlreadyAdded,
    /// "Not enough liquidity for first token"
    NotEnoughLiquidityFirstToken,
    /// "Not enough liquidity for second token"
    NotEnoughLiquiditySecondToken,
    /// "Not enough liquidity"
    NotEnoughLiquidity,
    /// "Not enough second tokens"
    NotEnoughSecondTokens,
    /// "Max slippage exceeded"
    MaxSlippageExceeded,
    /// "Max slippage exceeded for first token"
    MaxSlippageExceededFirstToken,
    /// "Max slippage exceeded for second token"
    MaxSlippageExceededSecondToken,
    /// "Cannot remove that much liquidity"
    CannotRemoveThatMuchLiquidity,
    /// "ESDT expected": an EGLD identifier where an ESDT one was required.
    EsdtExpected,
    /// A stored address could not be read: the slot is empty.
    StorageDecodeError,
    /// An amount was divided by zero.
    DivisionByZero,
    /// An amount subtraction would go below zero.
    NegativeSubtraction,
    /// An amount does not fit in 128 bits.
    AmountOverflow,
}

} // verus!
