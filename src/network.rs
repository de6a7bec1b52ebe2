//! The chain a wallet's keys and addresses are made for.
use vstd::prelude::*;

verus! {

/// The network whose version bytes and address prefix the wallet uses.
#[derive(Clone, Copy, Debug, PartialEq, Eq, Structural)]
pub enum Network {
    Bitcoin,
    Testnet,
    Testnet4,
    Signet,
    Regtest,
}

} // verus!
