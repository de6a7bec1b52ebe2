//! Properties that relate several wallet operations.
use vstd::prelude::*;
use crate::keys::{lemma_put_idempotent, lemma_put_then_lookup, lookup, paths_unique, put_key};
use crate::network::Network;
use crate::path::{lemma_template_paths_distinct, template_path};
use crate::wallet::{
    issued, key_record, loadable, restored_master, restores, saved_as, Wallet,
};

verus! {

/// Determinism: two well-formed wallets with the same mnemonic and network have
/// the same master key, so resolving one path gives the same record in both.
pub proof fn lemma_derivation_deterministic(a: Wallet, b: Wallet, path: Seq<char>)
    requires
        a.wf(),
        b.wf(),
        a.mnemonic == b.mnemonic,
        a.network == b.network,
    ensures
        a.master_key == b.master_key,
        key_record(a.master_key, a.network, path) == key_record(b.master_key, b.network, path),
{
}

/// The records of the first `n` receiving addresses sit in index order, each
/// under its own template path, and no two share a path.
pub proof fn lemma_issued_in_order(master: bitcoin::bip32::Xpriv, network: Network, n: nat)
    ensures
        issued(master, network, n).len() == n,
        forall|i: int| 0 <= i < n ==> #[trigger] issued(master, network, n)[i].path == template_path(i as nat),
        paths_unique(issued(master, network, n)),
{
    let s = issued(master, network, n);
    assert forall|i: int, j: int| 0 <= i < s.len() && 0 <= j < s.len() && i != j implies s[i].path
        != s[j].path by {
        lemma_template_paths_distinct(i as nat, j as nat);
    }
}

/// Counter monotonicity: where a contiguous wallet `b` grew from a contiguous
/// wallet `a` with the same secret, it holds the records of `a` followed by
/// `b.next_address - a.next_address` new ones, at the consecutive indices that
/// follow, all with distinct paths.
pub proof fn lemma_issue_extends(a: Wallet, b: Wallet)
    requires
        a.is_contiguous(),
        b.is_contiguous(),
        b.same_secret(a),
        a.next_address <= b.next_address,
    ensures
        b.keys().len() == a.keys().len() + (b.next_address - a.next_address),
        b.keys().subrange(0, a.next_address as int) == a.keys(),
        forall|j: int|
            0 <= j < b.next_address - a.next_address ==> #[trigger] b.keys()[a.next_address + j].path
                == template_path((a.next_address + j) as nat),
        paths_unique(b.keys()),
{
    lemma_issued_in_order(b.master_key, b.network, b.next_address as nat);
    assert(b.keys().subrange(0, a.next_address as int) =~= a.keys());
}

/// Round trip: the wallet that a wallet's kept record restores to has the same
/// mnemonic and counter.
pub proof fn lemma_save_load_round_trip(w: Wallet, record: crate::wallet::WalletRecord, restored: Wallet)
    requires
        saved_as(w, record),
        restores(record, restored),
    ensures
        restored.mnemonic == w.mnemonic,
        restored.next_address == w.next_address,
{
}

/// Replay equivalence: a well-formed, contiguous wallet on the main network is
/// restored from its kept record, and the restored wallet holds exactly the
/// same records.
pub proof fn lemma_replay_equivalence(w: Wallet, record: crate::wallet::WalletRecord)
    requires
        w.wf(),
        w.is_contiguous(),
        w.network == Network::Bitcoin,
        saved_as(w, record),
    ensures
        loadable(record.mnemonic@, record.next_address as nat),
        restored_master(record.mnemonic@) == Some(w.master_key),
        forall|r: Wallet| restores(record, r) ==> r.keys() == w.keys(),
{
}

/// Deriving one path twice in a row: the second derivation gives the same
/// record as the first (it depends on the secret and the path alone, and the
/// first keeps the secret), stores it under the same path without adding an
/// entry, and the path then looks up to that record.
pub proof fn lemma_rederive_same_record(w: Wallet, path: Seq<char>)
    requires
        w.wf(),
    ensures
        ({
            let rec = key_record(w.master_key, w.network, path);
            let once = put_key(w.keys(), rec);
            &&& put_key(once, rec) == once
            &&& put_key(once, rec).len() == once.len()
            &&& lookup(once, path) == Some(rec)
        }),
{
    let rec = key_record(w.master_key, w.network, path);
    lemma_put_idempotent(w.keys(), rec);
    lemma_put_then_lookup(w.keys(), rec);
}

} // verus!
