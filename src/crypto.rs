//! The mnemonic and key-derivation primitives of `bip39` and `bitcoin`.
//!
//! Each outside function is reached through one wrapper below. Where its result
//! is a function of its arguments alone but too long to state (a PBKDF2 seed, an
//! HMAC-SHA512 child key, a Base58 or Bech32 encoding), the result is given a name.
use vstd::prelude::*;
use std::str::FromStr;
use crate::network::Network;

verus! {

#[verifier::external_type_specification]
#[verifier::external_body]
pub struct ExMnemonic(bip39::Mnemonic);

#[verifier::external_type_specification]
#[verifier::external_body]
pub struct ExMnemonicError(bip39::Error);

#[verifier::external_type_specification]
#[verifier::external_body]
pub struct ExXpriv(bitcoin::bip32::Xpriv);

#[verifier::external_type_specification]
#[verifier::external_body]
pub struct ExDerivationPath(bitcoin::bip32::DerivationPath);

#[verifier::external_type_specification]
#[verifier::external_body]
pub struct ExBip32Error(bitcoin::bip32::Error);

#[verifier::external_type_specification]
#[verifier::external_body]
pub struct ExCompressedPublicKey(bitcoin::CompressedPublicKey);

#[verifier::external_type_specification]
#[verifier::external_body]
pub struct ExUncompressedPublicKeyError(bitcoin::key::UncompressedPublicKeyError);

/// The mnemonic that a phrase parses to, or `None` where a word or the checksum is invalid.
pub uninterp spec fn mnemonic_of(phrase: Seq<char>) -> Option<bip39::Mnemonic>;

/// The 64-byte seed of a mnemonic under a passphrase.
pub uninterp spec fn seed_of(m: bip39::Mnemonic, passphrase: Seq<char>) -> Seq<u8>;

/// The master extended private key of a seed for a network, or `None` where
/// the seed's hash is not a valid secret key.
pub uninterp spec fn master_of(network: Network, seed: Seq<u8>) -> Option<bitcoin::bip32::Xpriv>;

/// The structured derivation path that a path text parses to, or `None` where it is malformed.
pub uninterp spec fn path_of(text: Seq<char>) -> Option<bitcoin::bip32::DerivationPath>;

/// The child extended private key at a path below a key, or `None` where the
/// path would lead past depth 255.
pub uninterp spec fn child_of(key: bitcoin::bip32::Xpriv, path: bitcoin::bip32::DerivationPath) -> Option<bitcoin::bip32::Xpriv>;

/// The wallet-import-format text of a key's compressed private key for a network.
pub uninterp spec fn wif_of(key: bitcoin::bip32::Xpriv, network: Network) -> Seq<char>;

/// The compressed public key of a key's private key.
pub uninterp spec fn public_key_of(key: bitcoin::bip32::Xpriv) -> bitcoin::CompressedPublicKey;

/// The hex text of a compressed public key.
pub uninterp spec fn public_key_hex(key: bitcoin::CompressedPublicKey) -> Seq<char>;

/// The native segwit (P2WPKH) address text of a public key for a network.
pub uninterp spec fn address_of(key: bitcoin::CompressedPublicKey, network: Network) -> Seq<char>;

/// The number of words of a phrase whose words are separated by single spaces.
pub open spec fn word_count(phrase: Seq<char>) -> nat {
    phrase.filter(|c: char| c == ' ').len() + 1
}

/// Some phrase parses to the mnemonic: its words carry a correct checksum.
pub open spec fn is_valid_mnemonic(m: bip39::Mnemonic) -> bool {
    exists|p: Seq<char>| mnemonic_of(p) == Some(m)
}

/// Relies on `bip39::Mnemonic::generate_in` in English, the one word list built
/// here: for a word count of 12, 15, 18, 21 or 24 it draws fresh random entropy
/// and always succeeds, writing a correct checksum (`from_entropy_in`), so the
/// words joined by single spaces parse back to it. Nothing is promised of which
/// mnemonic it is.
#[verifier::external_body]
pub(crate) fn generate_mnemonic(words: usize) -> (r: Result<bip39::Mnemonic, bip39::Error>)
    requires
        12 <= words <= 24,
        words % 3 == 0,
    ensures
        r is Ok,
        r matches Ok(m) ==> exists|p: Seq<char>|
            mnemonic_of(p) == Some(m) && word_count(p) == words,
{
    bip39::Mnemonic::generate_in(bip39::Language::English, words)
}

/// Relies on `bip39::Mnemonic::from_str`: it accepts exactly the valid phrases,
/// and the result depends on the phrase alone.
#[verifier::external_body]
pub(crate) fn parse_mnemonic(phrase: &str) -> (r: Result<bip39::Mnemonic, bip39::Error>)
    ensures
        r is Ok <==> mnemonic_of(phrase@) is Some,
        r matches Ok(m) ==> mnemonic_of(phrase@) == Some(m),
{
    bip39::Mnemonic::from_str(phrase)
}

/// Relies on `Display` for `bip39::Mnemonic`: the words joined by single spaces.
/// Of a mnemonic that some phrase parses to (its checksum is correct), that text
/// parses back to the same mnemonic.
#[verifier::external_body]
pub(crate) fn mnemonic_text(m: &bip39::Mnemonic) -> (r: String)
    requires
        is_valid_mnemonic(*m),
    ensures
        mnemonic_of(r@) == Some(*m),
{
    m.to_string()
}

/// Relies on `bip39::Mnemonic::to_seed`: the result depends on the mnemonic and
/// the passphrase alone.
#[verifier::external_body]
pub(crate) fn mnemonic_seed(m: &bip39::Mnemonic, passphrase: &str) -> (r: Vec<u8>)
    ensures
        r@ == seed_of(*m, passphrase@),
{
    m.to_seed(passphrase).to_vec()
}

/// Relies on `bitcoin::bip32::Xpriv::new_master`: it fails only where the seed's
/// hash is not a valid secret key, and the result depends on its arguments alone.
#[verifier::external_body]
pub(crate) fn new_master(network: Network, seed: &Vec<u8>) -> (r: Result<bitcoin::bip32::Xpriv, bitcoin::bip32::Error>)
    ensures
        r is Ok <==> master_of(network, seed@) is Some,
        r matches Ok(k) ==> master_of(network, seed@) == Some(k),
{
    let n = match network {
        Network::Bitcoin => bitcoin::Network::Bitcoin,
        Network::Testnet => bitcoin::Network::Testnet,
        Network::Testnet4 => bitcoin::Network::Testnet4,
        Network::Signet => bitcoin::Network::Signet,
        Network::Regtest => bitcoin::Network::Regtest,
    };
    bitcoin::bip32::Xpriv::new_master(n, seed)
}

/// Relies on `bitcoin::bip32::DerivationPath::from_str`: it accepts exactly the
/// well-formed paths, and the result depends on the text alone.
#[verifier::external_body]
pub(crate) fn parse_path(text: &str) -> (r: Result<bitcoin::bip32::DerivationPath, bitcoin::bip32::Error>)
    ensures
        r is Ok <==> path_of(text@) is Some,
        r matches Ok(p) ==> path_of(text@) == Some(p),
{
    bitcoin::bip32::DerivationPath::from_str(text)
}

/// Relies on `bitcoin::bip32::Xpriv::derive_priv`, with a signing context made
/// for this call: the result depends on the key and the path alone, and it fails
/// only past depth 255.
#[verifier::external_body]
pub(crate) fn derive_child(key: &bitcoin::bip32::Xpriv, path: &bitcoin::bip32::DerivationPath) -> (r: Result<bitcoin::bip32::Xpriv, bitcoin::bip32::Error>)
    ensures
        r is Ok <==> child_of(*key, *path) is Some,
        r matches Ok(c) ==> child_of(*key, *path) == Some(c),
{
    let secp = bitcoin::key::Secp256k1::new();
    key.derive_priv(&secp, path)
}

/// Relies on `bitcoin::PrivateKey::to_wif`, on the key's secret marked compressed
/// and tagged with the network.
#[verifier::external_body]
pub(crate) fn private_key_wif(key: &bitcoin::bip32::Xpriv, network: Network) -> (r: String)
    ensures
        r@ == wif_of(*key, network),
{
    let n = match network {
        Network::Bitcoin => bitcoin::Network::Bitcoin,
        Network::Testnet => bitcoin::Network::Testnet,
        Network::Testnet4 => bitcoin::Network::Testnet4,
        Network::Signet => bitcoin::Network::Signet,
        Network::Regtest => bitcoin::Network::Regtest,
    };
    bitcoin::PrivateKey { inner: key.private_key, compressed: true, network: n.into() }.to_wif()
}

/// Relies on `bitcoin::CompressedPublicKey::from_private_key`: on a private key
/// marked compressed it always succeeds.
#[verifier::external_body]
pub(crate) fn compressed_public_key(key: &bitcoin::bip32::Xpriv) -> (r: Result<bitcoin::CompressedPublicKey, bitcoin::key::UncompressedPublicKeyError>)
    ensures
        r is Ok,
        r matches Ok(p) ==> p == public_key_of(*key),
{
    let secp = bitcoin::key::Secp256k1::new();
    let sk = bitcoin::PrivateKey { inner: key.private_key, compressed: true, network: key.network };
    bitcoin::CompressedPublicKey::from_private_key(&secp, &sk)
}

/// Relies on `Display` for `bitcoin::CompressedPublicKey`: its 33 bytes in
/// lowercase hex, two digits each.
#[verifier::external_body]
pub(crate) fn public_key_text(key: &bitcoin::CompressedPublicKey) -> (r: String)
    ensures
        r@ == public_key_hex(*key),
        r@.len() == 66,
{
    key.to_string()
}

/// Relies on `bitcoin::Address::p2wpkh` and the address's `Display`: the Bech32
/// text of the key's pay-to-witness-public-key-hash address for the network.
#[verifier::external_body]
pub(crate) fn segwit_address(key: &bitcoin::CompressedPublicKey, network: Network) -> (r: String)
    ensures
        r@ == address_of(*key, network),
{
    let n = match network {
        Network::Bitcoin => bitcoin::Network::Bitcoin,
        Network::Testnet => bitcoin::Network::Testnet,
        Network::Testnet4 => bitcoin::Network::Testnet4,
        Network::Signet => bitcoin::Network::Signet,
        Network::Regtest => bitcoin::Network::Regtest,
    };
    bitcoin::Address::p2wpkh(key, n).to_string()
}

} // verus!
