//! A deterministic wallet core: a mnemonic yields a master key, child keys are
//! derived along `m/84'/0'/0'/0/{i}`, and only the mnemonic and the count of
//! issued addresses need to be kept to rebuild every derived record.

pub mod crypto;
pub mod keys;
pub mod laws;
pub mod network;
pub mod path;
pub mod wallet;
