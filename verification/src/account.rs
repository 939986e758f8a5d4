//! What an operation reads of an account that the host handed to it.

use vstd::prelude::*;
use crate::address::Address;

verus! {

/// One entry of the positional account list of a call, as plain values.
#[derive(Clone, Debug, PartialEq, Eq)]
pub struct Account {
    /// The account's address.
    pub key: Address,
    /// The program that owns the account, and alone may write its data.
    pub owner: Address,
    /// Whether the account's holder authorised the call.
    pub is_signer: bool,
    /// The account's data as stored before the call.
    pub data: Vec<u8>,
}

} // verus!
