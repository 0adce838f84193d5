//! What the library takes from the host runtime: its error type, the rent
//! rule and the clock.

use crate::account::Account;
use solana_program::account_info::AccountInfo;
use solana_program::clock::Clock;
use solana_program::program_error::ProgramError;
use solana_program::pubkey::Pubkey;
use solana_program::rent::Rent;
use solana_program::sysvar::Sysvar;
use vstd::prelude::*;

verus! {

/// The host runtime's error type. The library carries such a value through
/// and never looks inside.
#[verifier::external_type_specification]
#[verifier::external_body]
pub struct ExProgramError(ProgramError);

/// The yearly rate per byte that the rent account with identity `key` and
/// slot bytes `data` states. `None` where that account is not the host's
/// rent account, or its bytes do not spell the rent parameters.
pub uninterp spec fn rent_rate(key: Seq<u8>, data: Seq<u8>) -> Option<u64>;

/// What the host's rent rule says of a balance: whether an account that
/// holds `balance` and stores `data_len` bytes is exempt from rent, going by
/// the rent account with identity `key` and slot bytes `data`.
pub uninterp spec fn rent_exemption(
    key: Seq<u8>,
    data: Seq<u8>,
    balance: u64,
    data_len: usize,
) -> bool;

/// The bytes that an account occupies beside its data, by the host's rent
/// rule.
pub const ACCOUNT_STORAGE_OVERHEAD: u64 = 128;

/// Whether the rent rule can be evaluated at the yearly rate `rate` for
/// `data_len` bytes without leaving 64 bits: the yearly rent of the
/// account, storage overhead included, must fit.
pub open spec fn rent_in_range(rate: u64, data_len: usize) -> bool {
    &&& ACCOUNT_STORAGE_OVERHEAD + data_len <= u64::MAX
    &&& (ACCOUNT_STORAGE_OVERHEAD + data_len) * rate <= u64::MAX
}

/// What came of asking the rent oracle about a balance.
#[derive(Debug, Clone, Copy, PartialEq, Eq, Structural)]
pub enum RentAnswer {
    /// The account that was asked is not the host's rent account.
    NoOracle,
    /// The oracle's rate is so large that its rule leaves 64 bits.
    OutOfRange,
    /// The oracle's rule was evaluated: whether the balance is exempt.
    Exempt(bool),
}

/// What comes of asking the rent account with identity `key` and slot bytes
/// `data` whether `balance` exempts `data_len` bytes from rent.
pub open spec fn rent_answer(
    key: Seq<u8>,
    data: Seq<u8>,
    balance: u64,
    data_len: usize,
) -> RentAnswer {
    match rent_rate(key, data) {
        None => RentAnswer::NoOracle,
        Some(rate) => if rent_in_range(rate, data_len) {
            RentAnswer::Exempt(rent_exemption(key, data, balance, data_len))
        } else {
            RentAnswer::OutOfRange
        },
    }
}

/// Reads the rate of the host's rent rule: `Rent::from_account_info` on the
/// rent account, of which the yearly rate per byte is kept.
///
/// The contract claims that the outcome depends on the rent account's
/// identity and bytes, and on nothing else.
#[verifier::external_body]
pub(crate) fn read_rent_rate(rent: &Account) -> (r: Option<u64>)
    ensures
        r == rent_rate(rent.key@, rent.data@),
{
    let key = Pubkey::new_from_array(rent.key);
    let mut lamports = rent.lamports;
    let mut data = rent.data.clone();
    let info = AccountInfo::new(&key, false, false, &mut lamports, &mut data, &key, false, 0);
    match Rent::from_account_info(&info) {
        Ok(rule) => Some(rule.lamports_per_byte_year),
        Err(_) => None,
    }
}

/// Asks the host's rent rule: `Rent::from_account_info` on the rent account,
/// then `Rent::is_exempt` on the balance and the size.
///
/// The precondition admits the rent accounts that `Rent::from_account_info`
/// accepts, and of those the ones on whose rate the host's multiplication
/// stays within 64 bits. The contract claims that on these the rule is
/// evaluated, and that its answer depends on the rent account's identity
/// and bytes, the balance and the size, and on nothing else.
#[verifier::external_body]
pub(crate) fn rent_exempt(rent: &Account, balance: u64, data_len: usize) -> (r: Option<bool>)
    requires
        rent_rate(rent.key@, rent.data@) matches Some(rate) && rent_in_range(rate, data_len),
    ensures
        r == Some(rent_exemption(rent.key@, rent.data@, balance, data_len)),
{
    let key = Pubkey::new_from_array(rent.key);
    let mut lamports = rent.lamports;
    let mut data = rent.data.clone();
    let info = AccountInfo::new(&key, false, false, &mut lamports, &mut data, &key, false, 0);
    match Rent::from_account_info(&info) {
        Ok(rule) => Some(rule.is_exempt(balance, data_len)),
        Err(_) => None,
    }
}

/// Reads the host's clock: `Clock::get`, of which the Unix timestamp is
/// kept. Nothing is claimed of the time, nor of when the host fails.
#[verifier::external_body]
pub(crate) fn unix_timestamp() -> (r: Result<i64, ProgramError>) {
    match Clock::get() {
        Ok(clock) => Ok(clock.unix_timestamp),
        Err(e) => Err(e),
    }
}

/// Asks the rent oracle whether an account that holds `balance` and stores
/// `data_len` bytes is exempt from rent.
///
/// The answer is `NoOracle` where `rent` is not the host's rent account,
/// `OutOfRange` where its rate is too large for the rule to stay within 64
/// bits, and else what the host's rule says. The rule is evaluated only on
/// a rate that is in range.
pub fn check_rent(rent: &Account, balance: u64, data_len: usize) -> (r: RentAnswer)
    ensures
        r == rent_answer(rent.key@, rent.data@, balance, data_len),
{
    let rate: u64 = match read_rent_rate(rent) {
        Some(rate) => rate,
        None => {
            return RentAnswer::NoOracle;
        },
    };
    let bytes: u64 = match ACCOUNT_STORAGE_OVERHEAD.checked_add(data_len as u64) {
        Some(bytes) => bytes,
        None => {
            return RentAnswer::OutOfRange;
        },
    };
    if bytes.checked_mul(rate).is_none() {
        return RentAnswer::OutOfRange;
    }
    match rent_exempt(rent, balance, data_len) {
        Some(exempt) => RentAnswer::Exempt(exempt),
        None => RentAnswer::NoOracle,
    }
}

} // verus!
