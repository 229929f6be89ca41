use crate::error::DexError;
use crate::fp32::{
    fp32_div, fp32_div_spec, fp32_mul, fp32_mul_spec, lemma_fp32_div_at_least_one,
    lemma_fp32_mul_below_one, FP_32_ONE,
};
use solana_program_pack::Pack;
use vstd::prelude::*;

verus! {

/// A discount tier derived from a discount-token balance, ordered by
/// increasing discount. It is a pure value, derived on demand and never
/// persisted.
#[derive(Clone, Copy, Debug, PartialEq, Eq, Structural)]
pub enum FeeTier {
    Base,
    Srm2,
    Srm3,
    Srm4,
    Srm5,
    Srm6,
    MSrm,
}

/// The position of a tier in the discount order: `Base` is lowest, `MSrm`
/// highest.
pub open spec fn tier_rank(t: FeeTier) -> int {
    match t {
        FeeTier::Base => 0,
        FeeTier::Srm2 => 1,
        FeeTier::Srm3 => 2,
        FeeTier::Srm4 => 3,
        FeeTier::Srm5 => 4,
        FeeTier::Srm6 => 5,
        FeeTier::MSrm => 6,
    }
}

/// The tier granted for the given discount-token balances, thresholds
/// evaluated from the highest discount downward. Balances are in the tokens'
/// smallest denomination; 10^6 units are one whole token of the lesser mint.
pub open spec fn resolve_spec(srm_held: u64, msrm_held: u64) -> FeeTier {
    if msrm_held >= 1 {
        FeeTier::MSrm
    } else if srm_held >= 1_000_000 * 1_000_000 {
        FeeTier::Srm6
    } else if srm_held >= 1_000_000 * 100_000 {
        FeeTier::Srm5
    } else if srm_held >= 1_000_000 * 10_000 {
        FeeTier::Srm4
    } else if srm_held >= 1_000_000 * 1_000 {
        FeeTier::Srm3
    } else if srm_held >= 1_000_000 * 100 {
        FeeTier::Srm2
    } else {
        FeeTier::Base
    }
}

/// A fee rate of `bp` basis points in 32.32 fixed point.
pub open spec fn rate_of_bp(bp: int) -> int {
    bp * (FP_32_ONE as int) / 10_000
}

/// The taker fee rate of each tier, in 32.32 fixed point.
pub open spec fn taker_rate_spec(t: FeeTier) -> int {
    match t {
        FeeTier::Base => rate_of_bp(22),
        FeeTier::Srm2 => rate_of_bp(20),
        FeeTier::Srm3 => rate_of_bp(18),
        FeeTier::Srm4 => rate_of_bp(16),
        FeeTier::Srm5 => rate_of_bp(14),
        FeeTier::Srm6 => rate_of_bp(12),
        FeeTier::MSrm => rate_of_bp(10),
    }
}

/// The maker rebate rate of each tier, in 32.32 fixed point: 5 basis points
/// for `MSrm`, 3 for every other tier.
pub open spec fn maker_rate_spec(t: FeeTier) -> int {
    if t == FeeTier::MSrm {
        rate_of_bp(5)
    } else {
        rate_of_bp(3)
    }
}

/// The fee-tier decision on the plain contents of a discount-token account:
/// the account must belong to `expected_owner`, its mint must be one of the
/// two recognized discount mints (the greater mint checked first), and the
/// balance then resolves the tier under that mint's denomination.
pub open spec fn from_token_account_spec(
    mint: Seq<u8>,
    owner: Seq<u8>,
    amount: u64,
    expected_owner: Seq<u8>,
    srm_mint: Seq<u8>,
    msrm_mint: Seq<u8>,
) -> Result<FeeTier, DexError> {
    if owner != expected_owner {
        Err(DexError::OwnerMismatch)
    } else if mint == msrm_mint {
        Ok(resolve_spec(0, amount))
    } else if mint == srm_mint {
        Ok(resolve_spec(amount, 0))
    } else {
        Err(DexError::UnrecognizedMint)
    }
}

/// The result of resolving a tier straight from a token-account buffer: a
/// buffer that does not parse as an initialized token account is corrupt, and
/// a parsed one is judged by `from_token_account_spec`.
pub open spec fn get_spec(
    parsed: Option<(Seq<u8>, Seq<u8>, u64)>,
    expected_owner: Seq<u8>,
    srm_mint: Seq<u8>,
    msrm_mint: Seq<u8>,
) -> Result<FeeTier, DexError> {
    match parsed {
        Option::None => Err(DexError::InvalidAccountData),
        Option::Some(t) => from_token_account_spec(
            t.0,
            t.1,
            t.2,
            expected_owner,
            srm_mint,
            msrm_mint,
        ),
    }
}

/// What a token-custody account buffer holds, read out as plain values: mint
/// identity, owner identity, and balance. `None` when the buffer is not a
/// well-formed, initialized token account.
pub uninterp spec fn spl_token_account_of(data: Seq<u8>) -> Option<(Seq<u8>, Seq<u8>, u64)>;

/// The plain contents of a parsed token-custody account.
pub struct TokenAccountFacts {
    /// The account's mint identity.
    pub mint: [u8; 32],
    /// The account's owner wallet identity.
    pub owner: [u8; 32],
    /// The raw token balance, in the mint's smallest denomination.
    pub amount: u64,
}

/// Relies on `spl_token::state::Account::unpack` (through
/// `solana_program_pack::Pack`): a pure parse of the 165-byte token-account
/// layout that depends on the bytes alone, rejecting buffers of the wrong
/// length, malformed encodings, and uninitialized accounts. Every parse
/// failure is reported as corrupt data.
#[verifier::external_body]
fn unpack_token_account(data: &Vec<u8>) -> (r: Result<TokenAccountFacts, DexError>)
    ensures
        match r {
            Ok(t) => spl_token_account_of(data@) == Some((t.mint@, t.owner@, t.amount)),
            Err(e) => spl_token_account_of(data@) is None && e == DexError::InvalidAccountData,
        },
{
    match spl_token::state::Account::unpack(data.as_slice()) {
        Ok(a) => Ok(TokenAccountFacts {
            mint: a.mint.to_bytes(),
            owner: a.owner.to_bytes(),
            amount: a.amount,
        }),
        Err(_) => Err(DexError::InvalidAccountData),
    }
}

/// Byte-for-byte equality of two 32-byte identities.
pub fn bytes32_eq(a: &[u8; 32], b: &[u8; 32]) -> (r: bool)
    ensures
        r == (a@ == b@),
{
    let mut i: usize = 0;
    while i < 32
        invariant
            0 <= i <= 32,
            forall|j: int| 0 <= j < i ==> a@[j] == b@[j],
        decreases 32 - i,
    {
        if a[i] != b[i] {
            return false;
        }
        i += 1;
    }
    proof {
        assert(a@ =~= b@);
    }
    true
}

impl FeeTier {
    /// The tier granted for the given discount-token balances: one unit of
    /// the greater mint dominates, else the lesser mint's balance is measured
    /// against thresholds of 100 to 1,000,000 whole tokens.
    pub fn from_srm_and_msrm_balances(srm_held: u64, msrm_held: u64) -> (r: FeeTier)
        ensures
            r == resolve_spec(srm_held, msrm_held),
    {
        let one_srm: u64 = 1_000_000;
        if msrm_held >= 1 {
            FeeTier::MSrm
        } else if srm_held >= one_srm * 1_000_000 {
            FeeTier::Srm6
        } else if srm_held >= one_srm * 100_000 {
            FeeTier::Srm5
        } else if srm_held >= one_srm * 10_000 {
            FeeTier::Srm4
        } else if srm_held >= one_srm * 1_000 {
            FeeTier::Srm3
        } else if srm_held >= one_srm * 100 {
            FeeTier::Srm2
        } else {
            FeeTier::Base
        }
    }

    /// Resolves the tier from the plain contents of a discount-token
    /// account, enforcing the owner and mint checks.
    pub fn from_token_account(
        mint: &[u8; 32],
        owner: &[u8; 32],
        amount: u64,
        expected_owner: &[u8; 32],
        srm_mint: &[u8; 32],
        msrm_mint: &[u8; 32],
    ) -> (r: Result<FeeTier, DexError>)
        ensures
            r == from_token_account_spec(
                mint@,
                owner@,
                amount,
                expected_owner@,
                srm_mint@,
                msrm_mint@,
            ),
    {
        if !bytes32_eq(owner, expected_owner) {
            Err(DexError::OwnerMismatch)
        } else if bytes32_eq(mint, msrm_mint) {
            Ok(Self::from_srm_and_msrm_balances(0, amount))
        } else if bytes32_eq(mint, srm_mint) {
            Ok(Self::from_srm_and_msrm_balances(amount, 0))
        } else {
            Err(DexError::UnrecognizedMint)
        }
    }

    /// Resolves the tier from a token-custody account buffer: the buffer is
    /// parsed as a token account, its owner must equal `expected_owner`, and
    /// its mint must be one of the two recognized discount mints.
    pub fn get(
        account_data: &Vec<u8>,
        expected_owner: &[u8; 32],
        srm_mint: &[u8; 32],
        msrm_mint: &[u8; 32],
    ) -> (r: Result<FeeTier, DexError>)
        ensures
            r == get_spec(
                spl_token_account_of(account_data@),
                expected_owner@,
                srm_mint@,
                msrm_mint@,
            ),
    {
        let parsed = match unpack_token_account(account_data) {
            Ok(t) => t,
            Err(e) => {
                return Err(e);
            },
        };
        Self::from_token_account(
            &parsed.mint,
            &parsed.owner,
            parsed.amount,
            expected_owner,
            srm_mint,
            msrm_mint,
        )
    }

    /// The taker fee rate of this tier in 32.32 fixed point, from 22 basis
    /// points at `Base` down to 10 at `MSrm`. Every rate is far below one
    /// unit, so scaling by it never enlarges an amount.
    pub fn taker_rate(self) -> (r: u64)
        ensures
            r == taker_rate_spec(self),
            0 < r < FP_32_ONE,
    {
        proof {
            assert((22u64 << 32) == 22 * 0x1_0000_0000) by (bit_vector);
            assert((20u64 << 32) == 20 * 0x1_0000_0000) by (bit_vector);
            assert((18u64 << 32) == 18 * 0x1_0000_0000) by (bit_vector);
            assert((16u64 << 32) == 16 * 0x1_0000_0000) by (bit_vector);
            assert((14u64 << 32) == 14 * 0x1_0000_0000) by (bit_vector);
            assert((12u64 << 32) == 12 * 0x1_0000_0000) by (bit_vector);
            assert((10u64 << 32) == 10 * 0x1_0000_0000) by (bit_vector);
        }
        match self {
            FeeTier::Base => (22u64 << 32) / 10_000,
            FeeTier::Srm2 => (20u64 << 32) / 10_000,
            FeeTier::Srm3 => (18u64 << 32) / 10_000,
            FeeTier::Srm4 => (16u64 << 32) / 10_000,
            FeeTier::Srm5 => (14u64 << 32) / 10_000,
            FeeTier::Srm6 => (12u64 << 32) / 10_000,
            FeeTier::MSrm => (10u64 << 32) / 10_000,
        }
    }

    /// The maker rebate owed on a quote quantity: the tier's maker rate
    /// applied in fixed point, rounding down.
    pub fn maker_rebate(self, quote_qty: u64) -> (r: u64)
        ensures
            r == fp32_mul_spec(quote_qty as int, maker_rate_spec(self)),
    {
        proof {
            assert((5u64 << 32) == 5 * 0x1_0000_0000) by (bit_vector);
            assert((3u64 << 32) == 3 * 0x1_0000_0000) by (bit_vector);
        }
        let rate: u64 = match self {
            FeeTier::MSrm => (5u64 << 32) / 10_000,
            _ => (3u64 << 32) / 10_000,
        };
        proof {
            lemma_fp32_mul_below_one(quote_qty, rate);
        }
        fp32_mul(quote_qty, rate)
    }

    /// Inverts a fee-inclusive quote quantity back to the pre-fee principal:
    /// division by one-plus-taker-rate in fixed point, rounding down.
    pub fn remove_taker_fee(self, quote_qty: u64) -> (r: u64)
        ensures
            r == fp32_div_spec(quote_qty as int, FP_32_ONE as int + taker_rate_spec(self)),
    {
        let rate = self.taker_rate();
        proof {
            lemma_fp32_div_at_least_one(quote_qty, (FP_32_ONE + rate) as u64);
        }
        fp32_div(quote_qty, FP_32_ONE + rate)
    }

    /// The taker fee charged on a quote quantity: the tier's taker rate
    /// applied in fixed point, rounding down.
    pub fn taker_fee(self, quote_qty: u64) -> (r: u64)
        ensures
            r == fp32_mul_spec(quote_qty as int, taker_rate_spec(self)),
    {
        let rate = self.taker_rate();
        proof {
            lemma_fp32_mul_below_one(quote_qty, rate);
        }
        fp32_mul(quote_qty, rate)
    }
}

/// With no holding of the greater mint, a larger balance of the lesser mint
/// never resolves to a lower tier.
pub proof fn lemma_resolve_monotonic(b1: u64, b2: u64)
    requires
        b1 <= b2,
    ensures
        tier_rank(resolve_spec(b1, 0)) <= tier_rank(resolve_spec(b2, 0)),
{
}

/// Holding at least one unit of the greater mint grants the highest tier
/// regardless of the lesser mint's balance.
pub proof fn lemma_msrm_dominates(srm_held: u64, msrm_held: u64)
    requires
        msrm_held >= 1,
    ensures
        resolve_spec(srm_held, msrm_held) == FeeTier::MSrm,
{
}

} // verus!
