use solana_program::program_pack::Pack;
use spl_token::state::Account as SplTokenAccount;
use vstd::prelude::*;

use crate::address::{copy_range, le_u64, read_u64_le};

verus! {

/// Why an instruction or account payload could not be decoded.
#[derive(Debug, Clone, Copy, PartialEq, Eq, Structural)]
pub enum DecodeError {
    /// The payload does not have the layout its schema requires.
    Malformed,
    /// A value does not fit the column it is stored in.
    Overflow,
}

/// Number of accounts a close-listing instruction references.
pub const CLOSE_LISTING_ACCOUNTS: usize = 11;

/// Length of the close-listing parameters: one little-endian `u64` token size.
pub const CLOSE_LISTING_PARAMS_LEN: usize = 8;

/// Largest value of a signed 64-bit column.
pub const I64_MAX: u64 = 0x7fff_ffff_ffff_ffff;

/// A reward-center listing being closed, as observed at `slot`.
pub struct CloseListingRow {
    pub wallet: Vec<u8>,
    pub listing: Vec<u8>,
    pub metadata: Vec<u8>,
    pub token_account: Vec<u8>,
    pub token_mint: Vec<u8>,
    pub authority: Vec<u8>,
    pub reward_center: Vec<u8>,
    pub auction_house: Vec<u8>,
    pub auction_house_fee_account: Vec<u8>,
    pub trade_state: Vec<u8>,
    pub ah_auctioneer_pda: Vec<u8>,
    pub token_size: i64,
    pub closed_at: i64,
    pub slot: i64,
}

/// Whether the close-listing payload and account list have the required shape.
pub open spec fn close_listing_well_formed(data: Seq<u8>, accounts: Seq<Vec<u8>>) -> bool {
    data.len() == CLOSE_LISTING_PARAMS_LEN && accounts.len() >= CLOSE_LISTING_ACCOUNTS
}

/// Whether the decoded row of a well-formed close listing holds exactly these values.
pub open spec fn close_listing_row_matches(
    row: CloseListingRow,
    data: Seq<u8>,
    accounts: Seq<Vec<u8>>,
    slot: u64,
    now: i64,
) -> bool {
    &&& row.wallet@ == accounts[0]@
    &&& row.listing@ == accounts[1]@
    &&& row.metadata@ == accounts[2]@
    &&& row.token_account@ == accounts[3]@
    &&& row.token_mint@ == accounts[4]@
    &&& row.authority@ == accounts[5]@
    &&& row.reward_center@ == accounts[6]@
    &&& row.auction_house@ == accounts[7]@
    &&& row.auction_house_fee_account@ == accounts[8]@
    &&& row.trade_state@ == accounts[9]@
    &&& row.ah_auctioneer_pda@ == accounts[10]@
    &&& row.token_size as int == le_u64(data) as int
    &&& row.closed_at == now
    &&& row.slot as int == slot as int
}

/// Decodes a close-listing instruction: `data` is its parameters (the bytes
/// after the discriminator), `accounts` the addresses it references in order,
/// `now` the time the closure is recorded at.
pub fn decode_close_listing(data: &[u8], accounts: &Vec<Vec<u8>>, slot: u64, now: i64) -> (r:
    Result<CloseListingRow, DecodeError>)
    ensures
        r == Err::<CloseListingRow, DecodeError>(DecodeError::Malformed) <==> !close_listing_well_formed(data@, accounts@),
        r == Err::<CloseListingRow, DecodeError>(DecodeError::Overflow) <==> close_listing_well_formed(data@, accounts@)
            && (slot > I64_MAX || le_u64(data@) > I64_MAX),
        r matches Ok(row) ==> close_listing_row_matches(row, data@, accounts@, slot, now),
{
    if data.len() != CLOSE_LISTING_PARAMS_LEN || accounts.len() < CLOSE_LISTING_ACCOUNTS {
        return Err(DecodeError::Malformed);
    }
    let token_size = read_u64_le(data, 0);
    assert(data@.subrange(0, 8) =~= data@);
    if slot > I64_MAX || token_size > I64_MAX {
        return Err(DecodeError::Overflow);
    }
    let row = CloseListingRow {
        wallet: copy_all(&accounts[0]),
        listing: copy_all(&accounts[1]),
        metadata: copy_all(&accounts[2]),
        token_account: copy_all(&accounts[3]),
        token_mint: copy_all(&accounts[4]),
        authority: copy_all(&accounts[5]),
        reward_center: copy_all(&accounts[6]),
        auction_house: copy_all(&accounts[7]),
        auction_house_fee_account: copy_all(&accounts[8]),
        trade_state: copy_all(&accounts[9]),
        ah_auctioneer_pda: copy_all(&accounts[10]),
        token_size: token_size as i64,
        closed_at: now,
        slot: slot as i64,
    };
    Ok(row)
}

/// A close listing whose parameters were cut short or whose account list
/// was cut before the eleventh account is malformed, whatever else it holds.
pub proof fn lemma_truncated_close_listing_malformed(data: Seq<u8>, accounts: Seq<Vec<u8>>, keep: int, keep_accounts: int)
    requires
        0 <= keep <= data.len(),
        0 <= keep_accounts <= accounts.len(),
        keep < CLOSE_LISTING_PARAMS_LEN || keep_accounts < CLOSE_LISTING_ACCOUNTS,
    ensures
        !close_listing_well_formed(data.subrange(0, keep), accounts.subrange(0, keep_accounts)),
{
}

fn copy_all(b: &Vec<u8>) -> (r: Vec<u8>)
    ensures
        r@ == b@,
{
    let r = copy_range(b.as_slice(), 0, b.len());
    assert(b@.subrange(0, b@.len() as int) =~= b@);
    r
}

/// Size in bytes of a token account's data.
pub const TOKEN_ACCOUNT_LEN: usize = 165;

/// Discriminator of the token program's burn instruction.
pub const TOKEN_BURN: u8 = 8;

/// Whether the four bytes at `at` are the tag of an optional field: 0 for
/// absent, 1 for present, as a little-endian `u32`.
pub open spec fn option_tag_valid(data: Seq<u8>, at: int) -> bool {
    &&& data[at] <= 1
    &&& data[at + 1] == 0
    &&& data[at + 2] == 0
    &&& data[at + 3] == 0
}

/// Whether a token account's 165 bytes have a valid layout: the delegate
/// (72), native amount (109) and close authority (129) tags are valid and the
/// state byte (108) names one of the three states.
pub open spec fn token_account_unpacks(data: Seq<u8>) -> bool {
    &&& option_tag_valid(data, 72)
    &&& data[108] <= 2
    &&& option_tag_valid(data, 109)
    &&& option_tag_valid(data, 129)
}

/// The fields of a token account that the index keeps.
pub struct TokenAccountFields {
    pub mint: Vec<u8>,
    pub owner: Vec<u8>,
    pub amount: u64,
}

/// Relies on spl_token's `Account::unpack_unchecked`: on 165 bytes it reads
/// the mint from bytes 0..32, the owner from 32..64 and the amount as a
/// little-endian `u64` from 64..72, and fails exactly where an optional
/// field's tag or the state byte is out of range.
#[verifier::external_body]
fn unpack_token_account(data: &[u8]) -> (r: Option<TokenAccountFields>)
    requires
        data@.len() == TOKEN_ACCOUNT_LEN,
    ensures
        r is Some <==> token_account_unpacks(data@),
        r matches Some(f) ==> f.mint@ == data@.subrange(0, 32) && f.owner@ == data@.subrange(32, 64)
            && f.amount == le_u64(data@.subrange(64, 72)),
{
    SplTokenAccount::unpack_unchecked(data).ok().map(
        |a| TokenAccountFields {
            mint: a.mint.to_bytes().to_vec(),
            owner: a.owner.to_bytes().to_vec(),
            amount: a.amount,
        },
    )
}

/// A token account's state as observed at `slot`.
pub struct TokenAccountRow {
    pub address: Vec<u8>,
    pub mint: Vec<u8>,
    pub owner: Vec<u8>,
    pub amount: u64,
    pub slot: u64,
}

/// Decodes an update of an account owned by the token program. Data of any
/// other size than a token account's is not a token account and is skipped.
pub fn decode_token_account(address: &[u8], data: &[u8], slot: u64) -> (r: Result<
    Option<TokenAccountRow>,
    DecodeError,
>)
    ensures
        data@.len() != TOKEN_ACCOUNT_LEN <==> r matches Ok(None),
        data@.len() == TOKEN_ACCOUNT_LEN ==> (r is Err <==> !token_account_unpacks(data@)),
        r is Err ==> r == Err::<Option<TokenAccountRow>, DecodeError>(DecodeError::Malformed),
        data@.len() == TOKEN_ACCOUNT_LEN && data@[108] > 2 ==> r is Err,
        r matches Ok(Some(row)) ==> {
            &&& data@.len() == TOKEN_ACCOUNT_LEN
            &&& row.address@ == address@
            &&& row.mint@ == data@.subrange(0, 32)
            &&& row.owner@ == data@.subrange(32, 64)
            &&& row.amount == le_u64(data@.subrange(64, 72))
            &&& row.slot == slot
        },
{
    if data.len() != TOKEN_ACCOUNT_LEN {
        return Ok(None);
    }
    match unpack_token_account(data) {
        Some(f) => {
            let a = copy_range(address, 0, address.len());
            assert(address@.subrange(0, address@.len() as int) =~= address@);
            Ok(Some(TokenAccountRow { address: a, mint: f.mint, owner: f.owner, amount: f.amount, slot }))
        },
        None => Err(DecodeError::Malformed),
    }
}

/// What a token-program instruction asks of the index.
#[derive(Debug, Clone, Copy, PartialEq, Eq, Structural)]
pub enum TokenInstructionAction {
    /// A burn: the referenced token account's balance changed.
    Burn,
    /// Nothing the index records.
    Ignore,
}

/// Reads the discriminator of a token-program instruction.
pub fn decode_token_instruction(data: &[u8]) -> (r: Result<TokenInstructionAction, DecodeError>)
    ensures
        data@.len() == 0 <==> r == Err::<TokenInstructionAction, DecodeError>(DecodeError::Malformed),
        data@.len() > 0 && data@[0] == TOKEN_BURN ==> r == Ok::<TokenInstructionAction, DecodeError>(TokenInstructionAction::Burn),
        data@.len() > 0 && data@[0] != TOKEN_BURN ==> r == Ok::<TokenInstructionAction, DecodeError>(TokenInstructionAction::Ignore),
{
    if data.len() == 0 {
        return Err(DecodeError::Malformed);
    }
    if data[0] == TOKEN_BURN {
        Ok(TokenInstructionAction::Burn)
    } else {
        Ok(TokenInstructionAction::Ignore)
    }
}

} // verus!
