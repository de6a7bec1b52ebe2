//! The wallet: its master key, the records derived from it, and the counter of
//! issued receiving addresses.
use vstd::prelude::*;
use crate::crypto::{
    address_of, child_of, compressed_public_key, derive_child, generate_mnemonic,
    is_valid_mnemonic, master_of, word_count,
    mnemonic_of, mnemonic_seed, mnemonic_text, new_master, parse_mnemonic, parse_path, path_of,
    private_key_wif, public_key_hex, public_key_of, public_key_text, seed_of, segwit_address,
    wif_of,
};
use crate::keys::{
    copy_key, find_index, lemma_put_keeps_unique, lemma_unique_position, lookup, paths_unique,
    put_key, views_of, DerivedKey, DerivedKeyView,
};
use crate::network::Network;
use crate::path::{address_path, lemma_template_paths_distinct, template_path};

verus! {

/// The number of words of a freshly generated mnemonic.
pub const NEW_WALLET_WORDS: usize = 12;

/// The passphrase that seeds are computed under: always empty.
pub open spec fn no_passphrase() -> Seq<char> {
    Seq::empty()
}

/// Why a wallet operation did not complete.
#[derive(Clone, Copy, Debug, PartialEq, Eq, Structural)]
pub enum WalletError {
    /// No fresh mnemonic could be generated.
    MnemonicGeneration,
    /// A phrase is not a valid mnemonic (an unknown word or a bad checksum).
    InvalidMnemonic,
    /// The seed does not give a valid master key.
    MasterKey,
    /// A derivation path does not parse.
    MalformedPath,
    /// A derivation step gave an invalid key.
    Derivation,
    /// The address counter is at its largest value.
    CounterOverflow,
}

/// What is kept of a wallet between sessions: its mnemonic phrase and the
/// number of receiving addresses issued.
#[derive(Clone, Debug)]
pub struct WalletRecord {
    pub mnemonic: String,
    pub next_address: u128,
}

/// A wallet in use.
pub struct Wallet {
    pub mnemonic: bip39::Mnemonic,
    pub master_key: bitcoin::bip32::Xpriv,
    pub network: Network,
    pub derived_keys: Vec<DerivedKey>,
    pub next_address: u128,
}

/// The path parses and the child key at it is valid.
pub open spec fn derivable(master: bitcoin::bip32::Xpriv, path: Seq<char>) -> bool {
    path_of(path) is Some && child_of(master, path_of(path)->Some_0) is Some
}

/// The record that resolving `path` below `master` gives for `network`.
pub open spec fn key_record(
    master: bitcoin::bip32::Xpriv,
    network: Network,
    path: Seq<char>,
) -> DerivedKeyView {
    let child = child_of(master, path_of(path)->Some_0)->Some_0;
    DerivedKeyView {
        path: path,
        private_key_wif: wif_of(child, network),
        public_key: public_key_hex(public_key_of(child)),
        address: address_of(public_key_of(child), network),
    }
}

/// The records of the receiving addresses `0..n`, in index order.
pub open spec fn issued(master: bitcoin::bip32::Xpriv, network: Network, n: nat) -> Seq<
    DerivedKeyView,
> {
    Seq::new(n, |i: int| key_record(master, network, template_path(i as nat)))
}

/// Every receiving address below `n` can be derived.
pub open spec fn all_derivable(master: bitcoin::bip32::Xpriv, n: nat) -> bool {
    forall|i: nat| i < n ==> #[trigger] derivable(master, template_path(i))
}

/// Every receiving address with an index in `lo..hi` can be derived.
pub open spec fn derivable_between(master: bitcoin::bip32::Xpriv, lo: nat, hi: nat) -> bool {
    forall|i: nat| lo <= i < hi ==> #[trigger] derivable(master, template_path(i))
}

/// The master key that a wallet restored from `phrase` has.
pub open spec fn restored_master(phrase: Seq<char>) -> Option<bitcoin::bip32::Xpriv> {
    master_of(Network::Bitcoin, seed_of(mnemonic_of(phrase)->Some_0, no_passphrase()))
}

/// A record with this phrase and count restores to a wallet.
pub open spec fn loadable(phrase: Seq<char>, n: nat) -> bool {
    mnemonic_of(phrase) is Some && restored_master(phrase) is Some && all_derivable(
        restored_master(phrase)->Some_0,
        n,
    )
}

/// `record` holds what is kept of `w`.
pub open spec fn saved_as(w: Wallet, record: WalletRecord) -> bool {
    mnemonic_of(record.mnemonic@) == Some(w.mnemonic) && record.next_address == w.next_address
}

/// `w` is the wallet that `record` restores to: the mnemonic of the phrase, the
/// main network, and the records of the first `next_address` receiving
/// addresses.
pub open spec fn restores(record: WalletRecord, w: Wallet) -> bool {
    &&& Some(w.mnemonic) == mnemonic_of(record.mnemonic@)
    &&& w.network == Network::Bitcoin
    &&& Some(w.master_key) == restored_master(record.mnemonic@)
    &&& w.next_address == record.next_address
    &&& w.keys() == issued(w.master_key, Network::Bitcoin, record.next_address as nat)
}

impl Wallet {
    /// The derived records, as text.
    pub open spec fn keys(&self) -> Seq<DerivedKeyView> {
        views_of(self.derived_keys@)
    }

    /// The mnemonic has a correct checksum, the master key is the one of the
    /// mnemonic and network, and no two records share a path.
    pub open spec fn wf(&self) -> bool {
        &&& is_valid_mnemonic(self.mnemonic)
        &&& master_of(self.network, seed_of(self.mnemonic, no_passphrase())) == Some(self.master_key)
        &&& paths_unique(self.keys())
    }

    /// The records are exactly those of the receiving addresses `0..next_address`,
    /// in index order.
    pub open spec fn is_contiguous(&self) -> bool {
        &&& self.keys() == issued(self.master_key, self.network, self.next_address as nat)
        &&& all_derivable(self.master_key, self.next_address as nat)
    }

    /// The wallet's mnemonic, master key and network are those of `other`.
    pub open spec fn same_secret(&self, other: Wallet) -> bool {
        &&& self.mnemonic == other.mnemonic
        &&& self.master_key == other.master_key
        &&& self.network == other.network
    }

    fn from_parts(mnemonic: bip39::Mnemonic, network: Network) -> (r: Result<Wallet, WalletError>)
        requires
            is_valid_mnemonic(mnemonic),
        ensures
            r is Ok <==> master_of(network, seed_of(mnemonic, no_passphrase())) is Some,
            r matches Err(e) ==> e == WalletError::MasterKey,
            r matches Ok(w) ==> {
                &&& w.wf()
                &&& w.is_contiguous()
                &&& w.mnemonic == mnemonic
                &&& w.network == network
                &&& w.next_address == 0
                &&& w.keys() == Seq::<DerivedKeyView>::empty()
            },
    {
        let seed = mnemonic_seed(&mnemonic, "");
        proof {
            reveal_strlit("");
            assert(""@ =~= no_passphrase());
        }
        match new_master(network, &seed) {
            Ok(master_key) => {
                let w = Wallet {
                    mnemonic,
                    master_key,
                    network,
                    derived_keys: Vec::new(),
                    next_address: 0,
                };
                assert(w.keys() =~= Seq::<DerivedKeyView>::empty());
                assert(issued(master_key, network, 0) =~= Seq::<DerivedKeyView>::empty());
                Ok(w)
            },
            Err(_) => Err(WalletError::MasterKey),
        }
    }

    /// A wallet on a freshly generated twelve-word mnemonic, with no address issued.
    /// The mnemonic is drawn at random; the wallet fails only where its seed gives
    /// no master key.
    pub fn new(network: Network) -> (r: Result<Wallet, WalletError>)
        ensures
            r matches Err(e) ==> e == WalletError::MasterKey,
            r matches Ok(w) ==> {
                &&& exists|p: Seq<char>|
                    mnemonic_of(p) == Some(w.mnemonic) && word_count(p) == NEW_WALLET_WORDS
                &&& w.wf()
                &&& w.is_contiguous()
                &&& w.network == network
                &&& w.next_address == 0
                &&& w.keys() == Seq::<DerivedKeyView>::empty()
            },
    {
        match generate_mnemonic(NEW_WALLET_WORDS) {
            Ok(m) => Wallet::from_parts(m, network),
            Err(_) => Err(WalletError::MnemonicGeneration),
        }
    }

    /// The wallet of a given phrase, with no address issued.
    pub fn from_mnemonic(phrase: &str, network: Network) -> (r: Result<Wallet, WalletError>)
        ensures
            r is Ok <==> mnemonic_of(phrase@) is Some && master_of(
                network,
                seed_of(mnemonic_of(phrase@)->Some_0, no_passphrase()),
            ) is Some,
            r matches Err(e) ==> e == (if mnemonic_of(phrase@) is None {
                WalletError::InvalidMnemonic
            } else {
                WalletError::MasterKey
            }),
            r matches Ok(w) ==> {
                &&& w.wf()
                &&& w.is_contiguous()
                &&& Some(w.mnemonic) == mnemonic_of(phrase@)
                &&& w.network == network
                &&& w.next_address == 0
                &&& w.keys() == Seq::<DerivedKeyView>::empty()
            },
    {
        match parse_mnemonic(phrase) {
            Ok(m) => {
                assert(mnemonic_of(phrase@) == Some(m));
                Wallet::from_parts(m, network)
            },
            Err(_) => Err(WalletError::InvalidMnemonic),
        }
    }

    /// What is kept of the wallet: its phrase and its counter.
    pub fn to_record(&self) -> (r: WalletRecord)
        requires
            self.wf(),
        ensures
            saved_as(*self, r),
    {
        WalletRecord { mnemonic: mnemonic_text(&self.mnemonic), next_address: self.next_address }
    }

    /// Stores a derived record under its path, replacing the one that had that
    /// path, and counts one more derivation.
    pub(crate) fn record_derived(&mut self, key: DerivedKey)
        requires
            old(self).wf(),
            old(self).next_address < u128::MAX,
        ensures
            final(self).wf(),
            final(self).same_secret(*old(self)),
            final(self).keys() == put_key(old(self).keys(), key@),
            final(self).next_address == old(self).next_address + 1,
    {
        let ghost before = self.keys();
        let ghost kv = key@;
        proof {
            lemma_put_keeps_unique(before, kv);
        }
        match find_index(&self.derived_keys, key.path.as_str()) {
            Some(i) => {
                proof {
                    assert(before[i as int] == self.derived_keys@[i as int]@);
                    lemma_unique_position(before, i as int);
                }
                self.derived_keys.set(i, key);
                assert(self.keys() =~= put_key(before, kv));
            },
            None => {
                self.derived_keys.push(key);
                assert(self.keys() =~= put_key(before, kv));
            },
        }
        self.next_address = self.next_address + 1;
    }

    /// Resolves `path` below the master key into its record, changing nothing.
    pub fn resolve_key(&self, path: &str) -> (r: Result<DerivedKey, WalletError>)
        ensures
            r is Ok <==> derivable(self.master_key, path@),
            r matches Ok(k) ==> k@ == key_record(self.master_key, self.network, path@),
            r matches Err(e) ==> e == (if path_of(path@) is None {
                WalletError::MalformedPath
            } else {
                WalletError::Derivation
            }),
    {
        let parsed = match parse_path(path) {
            Ok(p) => p,
            Err(_) => return Err(WalletError::MalformedPath),
        };
        let child = match derive_child(&self.master_key, &parsed) {
            Ok(c) => c,
            Err(_) => return Err(WalletError::Derivation),
        };
        let public_key = match compressed_public_key(&child) {
            Ok(k) => k,
            Err(_) => return Err(WalletError::Derivation),
        };
        Ok(
            DerivedKey {
                path: path.to_owned(),
                private_key_wif: private_key_wif(&child, self.network),
                public_key: public_key_text(&public_key),
                address: segwit_address(&public_key, self.network),
            },
        )
    }

    /// Resolves `path` below the master key, stores the record under the path
    /// (replacing any earlier one) and advances the counter by one, whatever the
    /// path. On an error nothing changes.
    pub fn derive_key(&mut self, path: &str) -> (r: Result<DerivedKey, WalletError>)
        requires
            old(self).wf(),
        ensures
            final(self).wf(),
            final(self).same_secret(*old(self)),
            r is Ok <==> derivable(old(self).master_key, path@) && old(self).next_address
                < u128::MAX,
            r matches Ok(k) ==> {
                &&& k@ == key_record(old(self).master_key, old(self).network, path@)
                &&& final(self).keys() == put_key(old(self).keys(), k@)
                &&& final(self).next_address == old(self).next_address + 1
            },
            r matches Err(e) ==> {
                &&& *final(self) == *old(self)
                &&& e == (if path_of(path@) is None {
                    WalletError::MalformedPath
                } else if !derivable(old(self).master_key, path@) {
                    WalletError::Derivation
                } else {
                    WalletError::CounterOverflow
                })
            },
    {
        let key = match self.resolve_key(path) {
            Ok(k) => k,
            Err(e) => return Err(e),
        };
        if self.next_address == u128::MAX {
            return Err(WalletError::CounterOverflow);
        }
        let out = copy_key(&key);
        self.record_derived(key);
        Ok(out)
    }

    /// Issues the next receiving address: derives `m/84'/0'/0'/0/{next_address}`.
    pub fn get_new_address(&mut self) -> (r: Result<DerivedKey, WalletError>)
        requires
            old(self).wf(),
        ensures
            final(self).wf(),
            final(self).same_secret(*old(self)),
            r is Ok <==> derivable(
                old(self).master_key,
                template_path(old(self).next_address as nat),
            ) && old(self).next_address < u128::MAX,
            r matches Ok(k) ==> {
                &&& k@ == key_record(
                    old(self).master_key,
                    old(self).network,
                    template_path(old(self).next_address as nat),
                )
                &&& final(self).keys() == put_key(old(self).keys(), k@)
                &&& final(self).next_address == old(self).next_address + 1
            },
            r matches Err(e) ==> {
                &&& *final(self) == *old(self)
                &&& e == (if path_of(template_path(old(self).next_address as nat)) is None {
                    WalletError::MalformedPath
                } else if !derivable(
                    old(self).master_key,
                    template_path(old(self).next_address as nat),
                ) {
                    WalletError::Derivation
                } else {
                    WalletError::CounterOverflow
                })
            },
            old(self).is_contiguous() ==> final(self).is_contiguous(),
    {
        let path = address_path(self.next_address);
        let ghost n = self.next_address as nat;
        let ghost before = self.keys();
        let r = self.derive_key(path.as_str());
        proof {
            if old(self).is_contiguous() && r is Ok {
                let master = self.master_key;
                let net = self.network;
                assert forall|i: int| 0 <= i < before.len() implies before[i].path != template_path(
                    n,
                ) by {
                    assert(before[i].path == template_path(i as nat));
                    lemma_template_paths_distinct(i as nat, n);
                }
                assert(put_key(before, key_record(master, net, template_path(n))) =~= issued(
                    master,
                    net,
                    n + 1,
                ));
                assert forall|i: nat| i < n + 1 implies #[trigger] derivable(
                    master,
                    template_path(i),
                ) by {
                    if i < n {
                        assert(derivable(master, template_path(i)));
                    }
                }
            }
        }
        r
    }

    /// Issues `count` receiving addresses in increasing index order. On an error
    /// the addresses issued before it stay.
    pub fn issue_addresses(&mut self, count: u128) -> (r: Result<(), WalletError>)
        requires
            old(self).wf(),
        ensures
            final(self).wf(),
            old(self).is_contiguous() ==> final(self).is_contiguous(),
            final(self).same_secret(*old(self)),
            r is Ok <==> old(self).next_address + count <= u128::MAX && derivable_between(
                old(self).master_key,
                old(self).next_address as nat,
                (old(self).next_address + count) as nat,
            ),
            r is Ok ==> final(self).next_address == old(self).next_address + count,
            r matches Err(e) ==> (e == WalletError::CounterOverflow <==> old(self).next_address
                + count > u128::MAX) && e != WalletError::InvalidMnemonic && e
                != WalletError::MasterKey && e != WalletError::MnemonicGeneration,
    {
        if count > u128::MAX - self.next_address {
            return Err(WalletError::CounterOverflow);
        }
        let ghost start = self.next_address;
        let mut k: u128 = 0;
        while k < count
            invariant
                self.wf(),
                old(self).is_contiguous() ==> self.is_contiguous(),
                self.same_secret(*old(self)),
                derivable_between(self.master_key, start as nat, (start + k) as nat),
                k <= count,
                start + count <= u128::MAX,
                start == old(self).next_address,
                self.next_address == start + k,
            decreases count - k,
        {
            match self.get_new_address() {
                Ok(_) => {},
                Err(e) => {
                    return Err(e);
                },
            }
            k = k + 1;
        }
        Ok(())
    }

    /// The wallet that a kept record restores to: the phrase's mnemonic on the
    /// main network, with its first `next_address` receiving addresses derived
    /// again in index order.
    pub fn from_record(record: &WalletRecord) -> (r: Result<Wallet, WalletError>)
        ensures
            r is Ok <==> loadable(record.mnemonic@, record.next_address as nat),
            r matches Ok(w) ==> w.wf() && w.is_contiguous() && restores(*record, w),
            r matches Err(e) ==> {
                &&& (e == WalletError::InvalidMnemonic <==> mnemonic_of(record.mnemonic@) is None)
                &&& (e == WalletError::MasterKey <==> mnemonic_of(record.mnemonic@) is Some
                    && restored_master(record.mnemonic@) is None)
                &&& e != WalletError::CounterOverflow && e != WalletError::MnemonicGeneration
            },
    {
        let mut w = match Wallet::from_mnemonic(record.mnemonic.as_str(), Network::Bitcoin) {
            Ok(w) => w,
            Err(e) => return Err(e),
        };
        match w.issue_addresses(record.next_address) {
            Ok(()) => Ok(w),
            Err(e) => Err(e),
        }
    }

    /// The record stored under `path`, if any.
    pub fn find_key(&self, path: &str) -> (r: Option<DerivedKey>)
        requires
            self.wf(),
        ensures
            match r {
                Some(k) => lookup(self.keys(), path@) == Some(k@),
                None => lookup(self.keys(), path@) is None,
            },
    {
        match find_index(&self.derived_keys, path) {
            Some(i) => {
                proof {
                    assert(self.keys()[i as int] == self.derived_keys@[i as int]@);
                    lemma_unique_position(self.keys(), i as int);
                }
                Some(copy_key(&self.derived_keys[i]))
            },
            None => None,
        }
    }

    /// The record of the most recently issued receiving address (index
    /// `next_address - 1`, or 0 where none was issued), if it is stored.
    pub fn current_address(&self) -> (r: Option<DerivedKey>)
        requires
            self.wf(),
        ensures
            match r {
                Some(k) => lookup(self.keys(), template_path(last_index(self.next_address))) == Some(k@),
                None => lookup(self.keys(), template_path(last_index(self.next_address))) is None,
            },
    {
        let index: u128 = if self.next_address > 0 {
            self.next_address - 1
        } else {
            0
        };
        let path = address_path(index);
        self.find_key(path.as_str())
    }
}

/// The index of the most recently issued receiving address, 0 where none was.
pub open spec fn last_index(next_address: u128) -> nat {
    if next_address > 0 {
        (next_address - 1) as nat
    } else {
        0
    }
}

} // verus!
