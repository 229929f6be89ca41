use crate::error::DexError;
use crate::fees::FeeTier;
use vstd::bytes::{
    lemma_auto_spec_u128_to_from_le_bytes, lemma_auto_spec_u32_to_from_le_bytes,
    lemma_auto_spec_u64_to_from_le_bytes, spec_u128_from_le_bytes, spec_u128_to_le_bytes,
    spec_u32_from_le_bytes, spec_u32_to_le_bytes, spec_u64_from_le_bytes, spec_u64_to_le_bytes,
    u128_from_le_bytes, u128_to_le_bytes, u32_from_le_bytes, u32_to_le_bytes, u64_from_le_bytes,
    u64_to_le_bytes,
};
use vstd::arithmetic::div_mod::{lemma_fundamental_div_mod, lemma_mod_bound};
use vstd::prelude::*;
use vstd::slice::slice_subrange;

verus! {

/// Serialized length of a user account header.
pub const HEADER_LEN: usize = 109;

/// Serialized length of one order reference in the trailing slab.
pub const ORDER_LEN: usize = 16;

/// Discriminant stored as the first byte of every record; a record whose tag
/// does not match the shape being parsed is rejected.
#[derive(Clone, Copy, Debug, PartialEq, Eq, Structural)]
pub enum AccountTag {
    Uninitialized,
    DexState,
    UserAccount,
}

/// The side of an order.
#[derive(Clone, Copy, Debug, PartialEq, Eq, Structural)]
pub enum Side {
    Bid,
    Ask,
}

/// How a self-match is resolved, chosen by the caller per order placement.
#[derive(Clone, Copy, Debug, PartialEq, Eq, Structural)]
pub enum SelfTradeBehavior {
    /// Both the maker and taker sides of the matched orders are decremented,
    /// as in a normal match but with no fees applied.
    DecrementTake,
    /// Cancels the maker side of the order.
    CancelProvide,
    /// Cancels the whole transaction as soon as a self-match is encountered.
    AbortTransaction,
}

/// The byte that encodes a tag.
pub open spec fn tag_to_byte(t: AccountTag) -> u8 {
    match t {
        AccountTag::Uninitialized => 0,
        AccountTag::DexState => 1,
        AccountTag::UserAccount => 2,
    }
}

/// The tag encoded by a byte, if any.
pub open spec fn tag_from_byte(b: u8) -> Option<AccountTag> {
    if b == 0 {
        Some(AccountTag::Uninitialized)
    } else if b == 1 {
        Some(AccountTag::DexState)
    } else if b == 2 {
        Some(AccountTag::UserAccount)
    } else {
        None
    }
}

/// Encodes a tag as its record byte.
pub fn tag_byte(t: AccountTag) -> (r: u8)
    ensures
        r == tag_to_byte(t),
{
    match t {
        AccountTag::Uninitialized => 0,
        AccountTag::DexState => 1,
        AccountTag::UserAccount => 2,
    }
}

/// Decodes a record byte back into a tag.
pub fn parse_tag(b: u8) -> (r: Option<AccountTag>)
    ensures
        r == tag_from_byte(b),
{
    if b == 0 {
        Some(AccountTag::Uninitialized)
    } else if b == 1 {
        Some(AccountTag::DexState)
    } else if b == 2 {
        Some(AccountTag::UserAccount)
    } else {
        None
    }
}

/// The primary market state record, one per market.
pub struct DexState {
    /// Verifies and versions the market record.
    pub tag: AccountTag,
    /// Lets the market act as a token-transfer signing entity.
    pub signer_nonce: u8,
    /// The mint identity of the base token.
    pub base_mint: [u8; 32],
    /// The mint identity of the quote token.
    pub quote_mint: [u8; 32],
    /// The custody vault holding the market's base tokens.
    pub base_vault: [u8; 32],
    /// The custody vault holding the market's quote tokens.
    pub quote_vault: [u8; 32],
    /// The order book's address.
    pub orderbook: [u8; 32],
    /// The program owning the order book.
    pub aaob_program: [u8; 32],
    /// The market admin, who can recuperate accumulated fees.
    pub admin: [u8; 32],
    /// The market's creation timestamp.
    pub creation_timestamp: i64,
    /// Total historical volume in base token.
    pub base_volume: u64,
    /// Total historical volume in quote token.
    pub quote_volume: u64,
    /// Fees available for extraction by the market admin.
    pub accumulated_fees: u64,
    /// The minimum allowed order size in base token amount.
    pub min_base_order_size: u64,
}

impl DexState {
    /// Validates the record's tag: a market operation on a record of any
    /// other shape is type confusion and is rejected as corrupt data.
    pub fn check(self) -> (r: Result<DexState, DexError>)
        ensures
            r == (if self.tag == AccountTag::DexState {
                Ok::<DexState, DexError>(self)
            } else {
                Err::<DexState, DexError>(DexError::InvalidAccountData)
            }),
    {
        if self.tag == AccountTag::DexState {
            Ok(self)
        } else {
            Err(DexError::InvalidAccountData)
        }
    }
}

/// The fixed-size prefix of a per-user record.
#[derive(Clone, Copy, Debug, PartialEq)]
pub struct UserAccountHeader {
    /// Verifies and versions the user record.
    pub tag: AccountTag,
    /// The market this user account belongs to.
    pub market: [u8; 32],
    /// The owner's wallet identity.
    pub owner: [u8; 32],
    /// Base token amount available for settlement.
    pub base_token_free: u64,
    /// Base token amount currently locked in the order book.
    pub base_token_locked: u64,
    /// Quote token amount available for settlement.
    pub quote_token_free: u64,
    /// Quote token amount currently locked in the order book.
    pub quote_token_locked: u64,
    /// All-time rebates accumulated by this account; a metric only.
    pub accumulated_rebates: u64,
    /// The number of active order references in the trailing slab.
    pub number_of_orders: u32,
}

/// The mathematical contents of a user account header, with identities as
/// byte sequences.
pub struct UserAccountHeaderView {
    /// Record tag.
    pub tag: AccountTag,
    /// Market identity.
    pub market: Seq<u8>,
    /// Owner wallet identity.
    pub owner: Seq<u8>,
    /// Base token amount available for settlement.
    pub base_token_free: u64,
    /// Base token amount locked in the order book.
    pub base_token_locked: u64,
    /// Quote token amount available for settlement.
    pub quote_token_free: u64,
    /// Quote token amount locked in the order book.
    pub quote_token_locked: u64,
    /// All-time accumulated rebates.
    pub accumulated_rebates: u64,
    /// Number of active order references.
    pub number_of_orders: u32,
}

impl UserAccountHeaderView {
    /// A syntactically valid header: both identities are 32 bytes wide.
    pub open spec fn wf(self) -> bool {
        &&& self.market.len() == 32
        &&& self.owner.len() == 32
    }
}

impl View for UserAccountHeader {
    type V = UserAccountHeaderView;

    open spec fn view(&self) -> UserAccountHeaderView {
        UserAccountHeaderView {
            tag: self.tag,
            market: self.market@,
            owner: self.owner@,
            base_token_free: self.base_token_free,
            base_token_locked: self.base_token_locked,
            quote_token_free: self.quote_token_free,
            quote_token_locked: self.quote_token_locked,
            accumulated_rebates: self.accumulated_rebates,
            number_of_orders: self.number_of_orders,
        }
    }
}

/// The 109-byte little-endian serialization of a header: tag byte, market,
/// owner, the five 64-bit amounts, then the 32-bit order count.
pub open spec fn spec_pack_header(h: UserAccountHeaderView) -> Seq<u8> {
    seq![tag_to_byte(h.tag)] + h.market + h.owner + spec_u64_to_le_bytes(h.base_token_free)
        + spec_u64_to_le_bytes(h.base_token_locked) + spec_u64_to_le_bytes(h.quote_token_free)
        + spec_u64_to_le_bytes(h.quote_token_locked) + spec_u64_to_le_bytes(h.accumulated_rebates)
        + spec_u32_to_le_bytes(h.number_of_orders)
}

/// The header encoded in the leading bytes of a buffer, or `None` when the
/// buffer is too short to hold one or its tag byte is meaningless.
pub open spec fn spec_unpack_header(s: Seq<u8>) -> Option<UserAccountHeaderView> {
    if s.len() < HEADER_LEN {
        None
    } else {
        match tag_from_byte(s[0]) {
            None => None,
            Some(tag) => Some(
                UserAccountHeaderView {
                    tag,
                    market: s.subrange(1, 33),
                    owner: s.subrange(33, 65),
                    base_token_free: spec_u64_from_le_bytes(s.subrange(65, 73)),
                    base_token_locked: spec_u64_from_le_bytes(s.subrange(73, 81)),
                    quote_token_free: spec_u64_from_le_bytes(s.subrange(81, 89)),
                    quote_token_locked: spec_u64_from_le_bytes(s.subrange(89, 97)),
                    accumulated_rebates: spec_u64_from_le_bytes(s.subrange(97, 105)),
                    number_of_orders: spec_u32_from_le_bytes(s.subrange(105, 109)),
                },
            ),
        }
    }
}

/// Packing a syntactically valid header always yields 109 bytes that unpack
/// to a header equal in all fields to the original.
pub proof fn lemma_header_round_trip(h: UserAccountHeaderView)
    requires
        h.wf(),
    ensures
        spec_pack_header(h).len() == HEADER_LEN,
        spec_unpack_header(spec_pack_header(h)) == Some(h),
{
    lemma_auto_spec_u64_to_from_le_bytes();
    lemma_auto_spec_u32_to_from_le_bytes();
    let s = spec_pack_header(h);
    assert(s.len() == 109);
    assert(s[0] == tag_to_byte(h.tag));
    assert(tag_from_byte(tag_to_byte(h.tag)) == Some(h.tag));
    assert(s.subrange(1, 33) =~= h.market);
    assert(s.subrange(33, 65) =~= h.owner);
    assert(s.subrange(65, 73) =~= spec_u64_to_le_bytes(h.base_token_free));
    assert(s.subrange(73, 81) =~= spec_u64_to_le_bytes(h.base_token_locked));
    assert(s.subrange(81, 89) =~= spec_u64_to_le_bytes(h.quote_token_free));
    assert(s.subrange(89, 97) =~= spec_u64_to_le_bytes(h.quote_token_locked));
    assert(s.subrange(97, 105) =~= spec_u64_to_le_bytes(h.accumulated_rebates));
    assert(s.subrange(105, 109) =~= spec_u32_to_le_bytes(h.number_of_orders));
}

/// Reads 32 bytes at `offset` into an identity array.
fn read_bytes32(src: &Vec<u8>, offset: usize) -> (r: [u8; 32])
    requires
        offset + 32 <= src@.len(),
    ensures
        r@ == src@.subrange(offset as int, offset as int + 32),
{
    let mut out: [u8; 32] = [0u8; 32];
    let mut j: usize = 0;
    while j < 32
        invariant
            0 <= j <= 32,
            offset + 32 <= src@.len(),
            out@.len() == 32,
            forall|i: int| 0 <= i < j ==> out@[i] == src@[offset + i],
        decreases 32 - j,
    {
        proof {
            assert(src@.len() == src.len());
        }
        out[j] = src[offset + j];
        j += 1;
    }
    proof {
        assert(out@ =~= src@.subrange(offset as int, offset as int + 32));
    }
    out
}

/// Writes the 32 bytes of an identity array at `offset`.
fn write_bytes32(dst: &mut Vec<u8>, offset: usize, src: &[u8; 32])
    requires
        offset + 32 <= old(dst)@.len(),
    ensures
        final(dst)@.len() == old(dst)@.len(),
        final(dst)@.subrange(offset as int, offset as int + 32) == src@,
        forall|i: int|
            0 <= i < final(dst)@.len() && !(offset <= i < offset + 32) ==> final(dst)@[i]
                == old(dst)@[i],
{
    let mut j: usize = 0;
    while j < 32
        invariant
            0 <= j <= 32,
            offset + 32 <= dst@.len(),
            dst@.len() == old(dst)@.len(),
            forall|i: int| 0 <= i < j ==> dst@[offset + i] == src@[i],
            forall|i: int|
                0 <= i < dst@.len() && !(offset <= i < offset + 32) ==> dst@[i] == old(dst)@[i],
        decreases 32 - j,
    {
        proof {
            assert(dst@.len() == dst.len());
        }
        dst[offset + j] = src[j];
        j += 1;
    }
    proof {
        assert(dst@.subrange(offset as int, offset as int + 32) =~= src@);
    }
}

/// Reads a little-endian 64-bit amount at `offset`.
fn read_u64_le(src: &Vec<u8>, offset: usize) -> (r: u64)
    requires
        offset + 8 <= src@.len(),
    ensures
        r == spec_u64_from_le_bytes(src@.subrange(offset as int, offset as int + 8)),
{
    proof {
        assert(src@.len() == src.len());
    }
    let s = slice_subrange(src.as_slice(), offset, offset + 8);
    u64_from_le_bytes(s)
}

/// Writes a 64-bit amount at `offset` in little-endian form.
fn write_u64_le(dst: &mut Vec<u8>, offset: usize, v: u64)
    requires
        offset + 8 <= old(dst)@.len(),
    ensures
        final(dst)@.len() == old(dst)@.len(),
        final(dst)@.subrange(offset as int, offset as int + 8) == spec_u64_to_le_bytes(v),
        forall|i: int|
            0 <= i < final(dst)@.len() && !(offset <= i < offset + 8) ==> final(dst)@[i]
                == old(dst)@[i],
{
    proof {
        lemma_auto_spec_u64_to_from_le_bytes();
    }
    let bytes = u64_to_le_bytes(v);
    let mut j: usize = 0;
    while j < 8
        invariant
            0 <= j <= 8,
            offset + 8 <= dst@.len(),
            bytes@ == spec_u64_to_le_bytes(v),
            bytes@.len() == 8,
            dst@.len() == old(dst)@.len(),
            forall|i: int| 0 <= i < j ==> dst@[offset + i] == bytes@[i],
            forall|i: int|
                0 <= i < dst@.len() && !(offset <= i < offset + 8) ==> dst@[i] == old(dst)@[i],
        decreases 8 - j,
    {
        proof {
            assert(dst@.len() == dst.len());
        }
        dst[offset + j] = bytes[j];
        j += 1;
    }
    proof {
        assert(dst@.subrange(offset as int, offset as int + 8) =~= bytes@);
    }
}

/// Reads the little-endian 32-bit order count at `offset`.
fn read_u32_le(src: &Vec<u8>, offset: usize) -> (r: u32)
    requires
        offset + 4 <= src@.len(),
    ensures
        r == spec_u32_from_le_bytes(src@.subrange(offset as int, offset as int + 4)),
{
    proof {
        assert(src@.len() == src.len());
    }
    let s = slice_subrange(src.as_slice(), offset, offset + 4);
    u32_from_le_bytes(s)
}

/// Writes the 32-bit order count at `offset` in little-endian form.
fn write_u32_le(dst: &mut Vec<u8>, offset: usize, v: u32)
    requires
        offset + 4 <= old(dst)@.len(),
    ensures
        final(dst)@.len() == old(dst)@.len(),
        final(dst)@.subrange(offset as int, offset as int + 4) == spec_u32_to_le_bytes(v),
        forall|i: int|
            0 <= i < final(dst)@.len() && !(offset <= i < offset + 4) ==> final(dst)@[i]
                == old(dst)@[i],
{
    proof {
        lemma_auto_spec_u32_to_from_le_bytes();
    }
    let bytes = u32_to_le_bytes(v);
    let mut j: usize = 0;
    while j < 4
        invariant
            0 <= j <= 4,
            offset + 4 <= dst@.len(),
            bytes@ == spec_u32_to_le_bytes(v),
            bytes@.len() == 4,
            dst@.len() == old(dst)@.len(),
            forall|i: int| 0 <= i < j ==> dst@[offset + i] == bytes@[i],
            forall|i: int|
                0 <= i < dst@.len() && !(offset <= i < offset + 4) ==> dst@[i] == old(dst)@[i],
        decreases 4 - j,
    {
        proof {
            assert(dst@.len() == dst.len());
        }
        dst[offset + j] = bytes[j];
        j += 1;
    }
    proof {
        assert(dst@.subrange(offset as int, offset as int + 4) =~= bytes@);
    }
}

/// Reads the little-endian 128-bit order reference at `offset`.
fn read_u128_le(src: &Vec<u8>, offset: usize) -> (r: u128)
    requires
        offset + 16 <= src@.len(),
    ensures
        r == spec_u128_from_le_bytes(src@.subrange(offset as int, offset as int + 16)),
{
    proof {
        assert(src@.len() == src.len());
    }
    let s = slice_subrange(src.as_slice(), offset, offset + 16);
    u128_from_le_bytes(s)
}

/// Writes a 128-bit order reference at `offset` in little-endian form.
fn write_u128_le(dst: &mut Vec<u8>, offset: usize, v: u128)
    requires
        offset + 16 <= old(dst)@.len(),
    ensures
        final(dst)@.len() == old(dst)@.len(),
        final(dst)@.subrange(offset as int, offset as int + 16) == spec_u128_to_le_bytes(v),
        forall|i: int|
            0 <= i < final(dst)@.len() && !(offset <= i < offset + 16) ==> final(dst)@[i]
                == old(dst)@[i],
{
    proof {
        lemma_auto_spec_u128_to_from_le_bytes();
    }
    let bytes = u128_to_le_bytes(v);
    let mut j: usize = 0;
    while j < 16
        invariant
            0 <= j <= 16,
            offset + 16 <= dst@.len(),
            bytes@ == spec_u128_to_le_bytes(v),
            bytes@.len() == 16,
            dst@.len() == old(dst)@.len(),
            forall|i: int| 0 <= i < j ==> dst@[offset + i] == bytes@[i],
            forall|i: int|
                0 <= i < dst@.len() && !(offset <= i < offset + 16) ==> dst@[i] == old(dst)@[i],
        decreases 16 - j,
    {
        proof {
            assert(dst@.len() == dst.len());
        }
        dst[offset + j] = bytes[j];
        j += 1;
    }
    proof {
        assert(dst@.subrange(offset as int, offset as int + 16) =~= bytes@);
    }
}

impl UserAccountHeader {
    /// Whether this header describes an initialized user account.
    pub fn is_initialized(&self) -> (r: bool)
        ensures
            r == (self.tag == AccountTag::UserAccount),
    {
        self.tag == AccountTag::UserAccount
    }

    /// Serializes this header into the leading 109 bytes of `dst`, leaving
    /// the rest of the buffer untouched.
    pub fn pack_into_slice(&self, dst: &mut Vec<u8>)
        requires
            old(dst)@.len() >= HEADER_LEN,
        ensures
            final(dst)@.len() == old(dst)@.len(),
            final(dst)@.subrange(0, HEADER_LEN as int) == spec_pack_header(self@),
            final(dst)@.skip(HEADER_LEN as int) == old(dst)@.skip(HEADER_LEN as int),
    {
        let tag = tag_byte(self.tag);
        dst[0] = tag;
        write_bytes32(dst, 1, &self.market);
        write_bytes32(dst, 33, &self.owner);
        write_u64_le(dst, 65, self.base_token_free);
        write_u64_le(dst, 73, self.base_token_locked);
        write_u64_le(dst, 81, self.quote_token_free);
        write_u64_le(dst, 89, self.quote_token_locked);
        write_u64_le(dst, 97, self.accumulated_rebates);
        write_u32_le(dst, 105, self.number_of_orders);
        proof {
            lemma_auto_spec_u64_to_from_le_bytes();
            lemma_auto_spec_u32_to_from_le_bytes();
            assert(dst@.subrange(0, HEADER_LEN as int) =~= spec_pack_header(self@));
            assert(dst@.skip(HEADER_LEN as int) =~= old(dst)@.skip(HEADER_LEN as int));
        }
    }

    /// Parses a header from the leading 109 bytes of `src`, rejecting a
    /// buffer too short to hold one or whose tag byte is meaningless.
    pub fn unpack_from_slice(src: &Vec<u8>) -> (r: Result<UserAccountHeader, DexError>)
        ensures
            match r {
                Ok(h) => spec_unpack_header(src@) == Some(h@),
                Err(e) => {
                    &&& spec_unpack_header(src@) is None
                    &&& e == DexError::InvalidAccountData
                },
            },
    {
        if src.len() < HEADER_LEN {
            return Err(DexError::InvalidAccountData);
        }
        let tag = match parse_tag(src[0]) {
            Some(t) => t,
            None => {
                return Err(DexError::InvalidAccountData);
            },
        };
        let h = UserAccountHeader {
            tag,
            market: read_bytes32(src, 1),
            owner: read_bytes32(src, 33),
            base_token_free: read_u64_le(src, 65),
            base_token_locked: read_u64_le(src, 73),
            quote_token_free: read_u64_le(src, 81),
            quote_token_locked: read_u64_le(src, 89),
            accumulated_rebates: read_u64_le(src, 97),
            number_of_orders: read_u32_le(src, 105),
        };
        Ok(h)
    }
}

/// A user account handle: the in-memory header bound to the backing buffer
/// that holds the serialized header and the trailing order slab. Mutations
/// touch the slab directly but only the in-memory header, which diverges
/// from the buffer until `write` re-serializes it.
pub struct UserAccount {
    /// The parsed header.
    pub header: UserAccountHeader,
    /// The backing buffer: 109 header bytes, then the order slab.
    pub data: Vec<u8>,
}

impl UserAccount {
    /// The order reference stored in slab slot `i`.
    pub open spec fn spec_order_at(self, i: int) -> u128 {
        spec_u128_from_le_bytes(
            self.data@.subrange(
                HEADER_LEN + ORDER_LEN * i,
                HEADER_LEN + ORDER_LEN * i + ORDER_LEN,
            ),
        )
    }

    /// The dense list of active order references, read from the slab.
    pub open spec fn orders(self) -> Seq<u128> {
        Seq::new(self.header.number_of_orders as nat, |i: int| self.spec_order_at(i))
    }

    /// How many orders the buffer can hold, fixed when it was allocated.
    pub open spec fn capacity(self) -> int {
        (self.data@.len() - HEADER_LEN) / (ORDER_LEN as int)
    }

    /// A well-formed handle: the buffer holds the header and the whole dense
    /// prefix of `number_of_orders` order references.
    pub open spec fn wf(self) -> bool {
        &&& self.data@.len() >= HEADER_LEN
        &&& HEADER_LEN + ORDER_LEN * (self.header.number_of_orders as int) <= self.data@.len()
    }

    /// Binds a header to its backing buffer.
    pub fn new(data: Vec<u8>, header: UserAccountHeader) -> (r: UserAccount)
        requires
            HEADER_LEN + ORDER_LEN * (header.number_of_orders as int) <= data@.len(),
        ensures
            r.header == header,
            r.data@ == data@,
            r.wf(),
    {
        UserAccount { header, data }
    }

    /// Parses the leading header out of an account buffer. The buffer is
    /// rejected as corrupt when no header parses, when the record is not a
    /// user account, or when the header claims more orders than the buffer
    /// can hold.
    pub fn parse(data: Vec<u8>) -> (r: Result<UserAccount, DexError>)
        ensures
            match r {
                Ok(ua) => {
                    &&& spec_parse_ok(data@)
                    &&& ua.data@ == data@
                    &&& ua.header@ == spec_unpack_header(data@).unwrap()
                    &&& ua.wf()
                },
                Err(e) => {
                    &&& !spec_parse_ok(data@)
                    &&& e == DexError::InvalidAccountData
                },
            },
    {
        let header = match UserAccountHeader::unpack_from_slice(&data) {
            Ok(h) => h,
            Err(e) => {
                return Err(e);
            },
        };
        if !header.is_initialized() {
            return Err(DexError::InvalidAccountData);
        }
        let len = data.len();
        let n = header.number_of_orders;
        if (n as usize) > (len - HEADER_LEN) / ORDER_LEN {
            proof {
                lemma_mul_div_bounds(n as int, (len - HEADER_LEN) as int);
            }
            return Err(DexError::InvalidAccountData);
        }
        proof {
            lemma_mul_div_bounds(n as int, (len - HEADER_LEN) as int);
        }
        Ok(UserAccount { header, data })
    }

    /// Re-serializes the in-memory header into the buffer's leading bytes.
    /// Required after any mutation of the header for the on-buffer state to
    /// match; the order slab is left untouched.
    pub fn write(&mut self)
        requires
            old(self).wf(),
        ensures
            final(self).header == old(self).header,
            final(self).wf(),
            final(self).data@.len() == old(self).data@.len(),
            final(self).data@.subrange(0, HEADER_LEN as int) == spec_pack_header(
                old(self).header@,
            ),
            final(self).data@.skip(HEADER_LEN as int) == old(self).data@.skip(HEADER_LEN as int),
            final(self).orders() == old(self).orders(),
    {
        let header = self.header;
        header.pack_into_slice(&mut self.data);
        proof {
            let n = self.header.number_of_orders as int;
            assert forall|i: int| 0 <= i < n implies self.spec_order_at(i) == old(
                self,
            ).spec_order_at(i) by {
                let lo = HEADER_LEN + ORDER_LEN * i;
                assert forall|k: int| lo <= k < lo + ORDER_LEN implies self.data@[k] == old(
                    self,
                ).data@[k] by {
                    assert(self.data@.skip(HEADER_LEN as int)[k - HEADER_LEN] == old(
                        self,
                    ).data@.skip(HEADER_LEN as int)[k - HEADER_LEN]);
                }
                assert(self.data@.subrange(lo, lo + ORDER_LEN) =~= old(self).data@.subrange(
                    lo,
                    lo + ORDER_LEN,
                ));
            }
            assert(self.orders() =~= old(self).orders());
        }
    }

    /// Reads the order reference in slot `order_index`, rejecting an index
    /// at or beyond the number of active orders.
    pub fn read_order(&self, order_index: usize) -> (r: Result<u128, DexError>)
        requires
            self.wf(),
        ensures
            match r {
                Ok(v) => {
                    &&& order_index < self.orders().len()
                    &&& v == self.orders()[order_index as int]
                },
                Err(e) => {
                    &&& order_index >= self.orders().len()
                    &&& e == DexError::InvalidOrderIndex
                },
            },
    {
        if order_index >= self.header.number_of_orders as usize {
            return Err(DexError::InvalidOrderIndex);
        }
        proof {
            assert(self.data@.len() == self.data.len());
        }
        let offset = HEADER_LEN + order_index * ORDER_LEN;
        let v = read_u128_le(&self.data, offset);
        Ok(v)
    }

    /// Appends an order reference in the first free slot and increments the
    /// order count. When the buffer has no room for one more slot the
    /// account is full: the error is reported and nothing is mutated.
    pub fn add_order(&mut self, order: u128) -> (r: Result<(), DexError>)
        requires
            old(self).wf(),
        ensures
            final(self).wf(),
            final(self).data@.len() == old(self).data@.len(),
            match r {
                Ok(_) => {
                    &&& old(self).orders().len() < old(self).capacity()
                    &&& old(self).header.number_of_orders < u32::MAX
                    &&& final(self).header == (UserAccountHeader {
                        number_of_orders: (old(self).header.number_of_orders + 1) as u32,
                        ..old(self).header
                    })
                    &&& final(self).orders() == old(self).orders().push(order)
                    &&& final(self).data@.subrange(0, HEADER_LEN as int) == old(
                        self,
                    ).data@.subrange(0, HEADER_LEN as int)
                },
                Err(e) => {
                    &&& e == DexError::UserAccountFull
                    &&& (old(self).orders().len() >= old(self).capacity() || old(
                        self,
                    ).header.number_of_orders == u32::MAX)
                    &&& final(self).header == old(self).header
                    &&& final(self).data@ == old(self).data@
                },
            },
    {
        let n = self.header.number_of_orders;
        proof {
            assert(self.data@.len() == self.data.len());
        }
        let len = self.data.len();
        let cap = (len - HEADER_LEN) / ORDER_LEN;
        proof {
            lemma_mul_div_bounds(n as int, (len - HEADER_LEN) as int);
        }
        if (n as usize) < cap && n < u32::MAX {
            proof {
                lemma_mul_div_bounds(n as int + 1, (len - HEADER_LEN) as int);
            }
            let offset = HEADER_LEN + (n as usize) * ORDER_LEN;
            write_u128_le(&mut self.data, offset, order);
            self.header.number_of_orders = n + 1;
            proof {
                lemma_auto_spec_u128_to_from_le_bytes();
                let g_old = old(self);
                let nn = n as int;
                assert forall|i: int| 0 <= i < nn implies self.spec_order_at(i)
                    == g_old.spec_order_at(i) by {
                    let lo = HEADER_LEN + ORDER_LEN * i;
                    assert(self.data@.subrange(lo, lo + ORDER_LEN) =~= g_old.data@.subrange(
                        lo,
                        lo + ORDER_LEN,
                    ));
                }
                assert(self.data@.subrange(
                    HEADER_LEN + ORDER_LEN * nn,
                    HEADER_LEN + ORDER_LEN * nn + ORDER_LEN,
                ) == spec_u128_to_le_bytes(order));
                assert(spec_u128_to_le_bytes(order).len() == 16);
                assert(self.spec_order_at(nn) == order);
                assert(self.orders() =~= g_old.orders().push(order));
                assert(self.data@.subrange(0, HEADER_LEN as int) =~= g_old.data@.subrange(
                    0,
                    HEADER_LEN as int,
                ));
            }
            Ok(())
        } else {
            Err(DexError::UserAccountFull)
        }
    }

    /// Removes the order reference in slot `order_index` by swap-removal:
    /// unless that slot is the last occupied one, the last order is copied
    /// into it; the count then decrements. The slab stays dense, at the cost
    /// of not preserving insertion order. An index at or beyond the count is
    /// rejected and nothing is mutated.
    pub fn remove_order(&mut self, order_index: usize) -> (r: Result<(), DexError>)
        requires
            old(self).wf(),
        ensures
            final(self).wf(),
            final(self).data@.len() == old(self).data@.len(),
            match r {
                Ok(_) => {
                    &&& order_index < old(self).orders().len()
                    &&& final(self).header == (UserAccountHeader {
                        number_of_orders: (old(self).header.number_of_orders - 1) as u32,
                        ..old(self).header
                    })
                    &&& final(self).orders() == spec_swap_remove(
                        old(self).orders(),
                        order_index as int,
                    )
                    &&& final(self).data@.subrange(0, HEADER_LEN as int) == old(
                        self,
                    ).data@.subrange(0, HEADER_LEN as int)
                },
                Err(e) => {
                    &&& e == DexError::InvalidOrderIndex
                    &&& order_index >= old(self).orders().len()
                    &&& final(self).header == old(self).header
                    &&& final(self).data@ == old(self).data@
                },
            },
    {
        let n = self.header.number_of_orders;
        if order_index >= n as usize {
            return Err(DexError::InvalidOrderIndex);
        }
        proof {
            assert(self.data@.len() == self.data.len());
        }
        if n as usize - order_index != 1 {
            let last_offset = HEADER_LEN + (n as usize - 1) * ORDER_LEN;
            let last = read_u128_le(&self.data, last_offset);
            let offset = HEADER_LEN + order_index * ORDER_LEN;
            write_u128_le(&mut self.data, offset, last);
            proof {
                lemma_auto_spec_u128_to_from_le_bytes();
                let g_old = old(self);
                let nn = n as int;
                let oi = order_index as int;
                assert(last == g_old.spec_order_at(nn - 1));
                assert forall|i: int| 0 <= i < nn && i != oi implies self.spec_order_at(i)
                    == g_old.spec_order_at(i) by {
                    let lo = HEADER_LEN + ORDER_LEN * i;
                    assert(self.data@.subrange(lo, lo + ORDER_LEN) =~= g_old.data@.subrange(
                        lo,
                        lo + ORDER_LEN,
                    ));
                }
                assert(self.spec_order_at(oi) == last);
            }
        }
        self.header.number_of_orders = n - 1;
        proof {
            let g_old = old(self);
            let nn = n as int;
            let oi = order_index as int;
            assert(g_old.orders().len() == nn);
            assert(g_old.orders().last() == g_old.spec_order_at(nn - 1));
            assert(self.orders() =~= spec_swap_remove(g_old.orders(), oi));
            assert(self.data@.subrange(0, HEADER_LEN as int) =~= g_old.data@.subrange(
                0,
                HEADER_LEN as int,
            ));
        }
        Ok(())
    }

    /// Finds the lowest slot holding the given order id by a linear scan of
    /// the dense prefix; an absent id is reported as not found.
    pub fn find_order_index(&self, order_id: u128) -> (r: Result<usize, DexError>)
        requires
            self.wf(),
        ensures
            match r {
                Ok(i) => {
                    &&& i < self.orders().len()
                    &&& self.orders()[i as int] == order_id
                    &&& forall|j: int| 0 <= j < i ==> self.orders()[j] != order_id
                },
                Err(e) => {
                    &&& e == DexError::OrderNotFound
                    &&& forall|j: int|
                        0 <= j < self.orders().len() ==> self.orders()[j] != order_id
                },
            },
    {
        let n = self.header.number_of_orders as usize;
        let mut i: usize = 0;
        while i < n
            invariant
                self.wf(),
                n == self.header.number_of_orders as usize,
                0 <= i <= n,
                forall|j: int| 0 <= j < i ==> self.orders()[j] != order_id,
            decreases n - i,
        {
            proof {
                assert(self.data@.len() == self.data.len());
            }
            let offset = HEADER_LEN + i * ORDER_LEN;
            let v = read_u128_le(&self.data, offset);
            if v == order_id {
                return Ok(i);
            }
            i += 1;
        }
        Err(DexError::OrderNotFound)
    }
}

/// Whether an account buffer parses as a well-formed user account: a header
/// parses, it is tagged as a user account, and its order count fits the
/// buffer.
pub open spec fn spec_parse_ok(data: Seq<u8>) -> bool {
    &&& spec_unpack_header(data) is Some
    &&& spec_unpack_header(data).unwrap().tag == AccountTag::UserAccount
    &&& HEADER_LEN + ORDER_LEN * (spec_unpack_header(data).unwrap().number_of_orders as int)
        <= data.len()
}

/// Swap-removal on the order list: the last element replaces slot `i`, then
/// the list shrinks by one. When `i` is the last slot this is a plain pop.
pub open spec fn spec_swap_remove(s: Seq<u128>, i: int) -> Seq<u128> {
    s.update(i, s.last()).drop_last()
}

/// After a swap-removal at slot `i` the list is exactly one shorter; every
/// surviving slot other than `i` keeps its old value, and slot `i` — unless
/// it was the removed last slot — now holds the old last element.
pub proof fn lemma_swap_remove_semantics(s: Seq<u128>, i: int)
    requires
        0 <= i < s.len(),
    ensures
        spec_swap_remove(s, i).len() == s.len() - 1,
        forall|j: int| 0 <= j < s.len() - 1 && j != i ==> spec_swap_remove(s, i)[j] == s[j],
        i < s.len() - 1 ==> spec_swap_remove(s, i)[i] == s[s.len() - 1],
{
}

/// Appending an order id that is not yet present puts it in the last slot
/// and nowhere below, so a lowest-match scan right after finds it exactly at
/// the old count. (With a duplicate already present, the scan would report
/// the lower slot instead; duplicates do not occur by construction.)
pub proof fn lemma_add_then_find(orders: Seq<u128>, order_id: u128)
    requires
        forall|j: int| 0 <= j < orders.len() ==> orders[j] != order_id,
    ensures
        orders.push(order_id).len() == orders.len() + 1,
        orders.push(order_id)[orders.len() as int] == order_id,
        forall|j: int| 0 <= j < orders.len() ==> orders.push(order_id)[j] != order_id,
{
}

/// For a slab region of `avail` bytes, holding `n` orders is possible
/// exactly when `n` is at most the slot capacity `avail / 16`.
proof fn lemma_mul_div_bounds(n: int, avail: int)
    requires
        0 <= n,
        0 <= avail,
    ensures
        n <= avail / (ORDER_LEN as int) ==> ORDER_LEN * n <= avail,
        n > avail / (ORDER_LEN as int) ==> ORDER_LEN * n > avail,
{
    let w = ORDER_LEN as int;
    lemma_fundamental_div_mod(avail, w);
    lemma_mod_bound(avail, w);
    if n <= avail / w {
        assert(w * n <= w * (avail / w)) by (nonlinear_arith)
            requires
                0 < w,
                n <= avail / w,
        ;
    } else {
        assert(w * n >= w * (avail / w + 1)) by (nonlinear_arith)
            requires
                0 < w,
                n >= avail / w + 1,
        ;
        assert(w * (avail / w + 1) == w * (avail / w) + w) by (nonlinear_arith);
    }
}

/// An association carried by the order book from order placement to order
/// execution: which user account placed the order and at what fee tier it
/// was admitted, so that execution-time fees use the admitted tier.
pub struct CallBackInfo {
    /// The user account that placed the order.
    pub user_account: [u8; 32],
    /// The fee tier captured at order-placement time.
    pub fee_tier: FeeTier,
}

} // verus!
