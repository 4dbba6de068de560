//! Plain records of the beacon node's validator API.
use vstd::prelude::*;

verus! {

/// The part of a beacon block header that names its body.
pub struct BeaconBlockHeaderAllOf {
    /// The tree hash merkle root of the `BeaconBlockBody` for the `BeaconBlock`
    pub body_root: Option<String>,
}

impl BeaconBlockHeaderAllOf {
    /// A header part with no field set.
    pub fn new() -> (r: BeaconBlockHeaderAllOf)
        ensures
            r.body_root is None,
    {
        BeaconBlockHeaderAllOf { body_root: None }
    }
}

/// The deposit data object of the beacon chain.
pub struct DepositData {
    /// The validator's BLS public key, uniquely identifying them. _48-bytes, hex encoded with 0x prefix, case insensitive._
    pub pubkey: Option<String>,
    /// The withdrawal credentials.
    pub withdrawal_credentials: Option<String>,
    /// Amount in Gwei.
    pub amount: Option<i32>,
    /// Container self-signature.
    pub signature: Option<String>,
}

impl DepositData {
    /// Deposit data with no field set.
    pub fn new() -> (r: DepositData)
        ensures
            r.pubkey is None,
            r.withdrawal_credentials is None,
            r.amount is None,
            r.signature is None,
    {
        DepositData { pubkey: None, withdrawal_credentials: None, amount: None, signature: None }
    }
}

/// Builds attester slashings for tests.
///
/// This struct should **never be used for production purposes.**
pub struct TestingAttesterSlashingBuilder();

} // verus!
