use escalate::keys::DerivedKey;
use escalate::network::Network;
use escalate::path::address_path;
use escalate::wallet::{Wallet, WalletError, WalletRecord};

const PHRASE: &str = "abandon abandon abandon abandon abandon abandon abandon abandon abandon abandon abandon about";

const ADDR0: &str = "bc1qcr8te4kr609gcawutmrza0j4xv80jy8z306fyu";
const ADDR1: &str = "bc1qnjg0jd8228aq7egyzacy8cys3knf9xvrerkf9g";
const ADDR2: &str = "bc1qp59yckz4ae5c4efgw2s5wfyvrz0ala7rgvuz8z";

fn test_wallet() -> Wallet {
    Wallet::from_mnemonic(PHRASE, Network::Bitcoin).unwrap()
}

fn same_record(a: &DerivedKey, b: &DerivedKey) -> bool {
    a.path == b.path
        && a.private_key_wif == b.private_key_wif
        && a.public_key == b.public_key
        && a.address == b.address
}

#[test]
fn known_phrase_three_addresses_then_reload() {
    let mut w = test_wallet();
    let k0 = w.get_new_address().unwrap();
    let k1 = w.get_new_address().unwrap();
    let k2 = w.get_new_address().unwrap();
    assert_eq!(k0.path, "m/84'/0'/0'/0/0");
    assert_eq!(k1.path, "m/84'/0'/0'/0/1");
    assert_eq!(k2.path, "m/84'/0'/0'/0/2");
    assert_eq!(k0.address, ADDR0);
    assert_eq!(k1.address, ADDR1);
    assert_eq!(k2.address, ADDR2);
    let record = w.to_record();
    let loaded = Wallet::from_record(&record).unwrap();
    let current = loaded.current_address().unwrap();
    assert_eq!(current.address, ADDR2);
    assert_eq!(loaded.derived_keys.len(), 3);
    assert_eq!(loaded.next_address, 3);
}

#[test]
fn known_phrase_first_key_fields() {
    let mut w = test_wallet();
    let k0 = w.get_new_address().unwrap();
    assert_eq!(k0.private_key_wif, "KyZpNDKnfs94vbrwhJneDi77V6jF64PWPF8x5cdJb8ifgg2DUc9d");
    assert_eq!(k0.public_key, "0330d54fd0dd420a6e5f8d3624f5f3482cae350f79d5f0753bf5beef9c2d91af3c");
}

#[test]
fn load_with_zero_counter_is_empty() {
    let record = WalletRecord { mnemonic: PHRASE.to_string(), next_address: 0 };
    let w = Wallet::from_record(&record).unwrap();
    assert!(w.derived_keys.is_empty());
    assert_eq!(w.next_address, 0);
    assert!(w.current_address().is_none());
}

#[test]
fn derive_same_path_twice_overwrites() {
    let mut w = test_wallet();
    let path = "m/84'/0'/0'/0/7";
    let a = w.derive_key(path).unwrap();
    let b = w.derive_key(path).unwrap();
    assert!(same_record(&a, &b));
    assert_eq!(w.next_address, 2);
    assert_eq!(w.derived_keys.len(), 1);
    assert!(same_record(&w.derived_keys[0], &a));
}

#[test]
fn derivation_is_deterministic_across_wallets() {
    let mut a = test_wallet();
    let mut b = test_wallet();
    let ka = a.derive_key("m/84'/0'/0'/1/3").unwrap();
    let kb = b.derive_key("m/84'/0'/0'/1/3").unwrap();
    assert!(same_record(&ka, &kb));
}

#[test]
fn issuing_k_addresses_advances_counter_by_k() {
    let mut w = test_wallet();
    w.issue_addresses(5).unwrap();
    assert_eq!(w.next_address, 5);
    assert_eq!(w.derived_keys.len(), 5);
    for i in 0..5usize {
        assert_eq!(w.derived_keys[i].path, format!("m/84'/0'/0'/0/{}", i));
    }
    w.get_new_address().unwrap();
    assert_eq!(w.next_address, 6);
}

#[test]
fn distinct_indices_give_distinct_addresses() {
    let mut w = test_wallet();
    w.issue_addresses(8).unwrap();
    for i in 0..8usize {
        for j in 0..8usize {
            if i != j {
                assert_ne!(w.derived_keys[i].address, w.derived_keys[j].address);
                assert_ne!(w.derived_keys[i].path, w.derived_keys[j].path);
            }
        }
    }
}

#[test]
fn record_round_trip_keeps_mnemonic_and_counter() {
    let mut w = test_wallet();
    w.issue_addresses(4).unwrap();
    let record = w.to_record();
    assert_eq!(record.mnemonic, PHRASE);
    assert_eq!(record.next_address, 4);
    let loaded = Wallet::from_record(&record).unwrap();
    assert_eq!(loaded.mnemonic, w.mnemonic);
    assert_eq!(loaded.next_address, 4);
    assert_eq!(loaded.to_record().mnemonic, PHRASE);
    for i in 0..4usize {
        assert!(same_record(&loaded.derived_keys[i], &w.derived_keys[i]));
    }
}

#[test]
fn invalid_phrase_is_rejected() {
    let bad = "abandon abandon abandon abandon abandon abandon abandon abandon abandon abandon abandon abandon";
    assert_eq!(Wallet::from_mnemonic(bad, Network::Bitcoin).err(), Some(WalletError::InvalidMnemonic));
    assert_eq!(Wallet::from_mnemonic("not a mnemonic", Network::Bitcoin).err(), Some(WalletError::InvalidMnemonic));
    let record = WalletRecord { mnemonic: "zzz".to_string(), next_address: 2 };
    assert_eq!(Wallet::from_record(&record).err(), Some(WalletError::InvalidMnemonic));
}

#[test]
fn malformed_path_changes_nothing() {
    let mut w = test_wallet();
    w.get_new_address().unwrap();
    let r = w.derive_key("m/84'/x/0");
    assert_eq!(r.err(), Some(WalletError::MalformedPath));
    assert_eq!(w.next_address, 1);
    assert_eq!(w.derived_keys.len(), 1);
}

#[test]
fn full_counter_reports_overflow() {
    let mut w = test_wallet();
    w.next_address = u128::MAX;
    assert_eq!(w.derive_key("m/84'/0'/0'/0/0").err(), Some(WalletError::CounterOverflow));
    assert_eq!(w.next_address, u128::MAX);
    assert!(w.derived_keys.is_empty());
    let mut v = test_wallet();
    v.next_address = u128::MAX - 1;
    assert_eq!(v.issue_addresses(2).err(), Some(WalletError::CounterOverflow));
}

#[test]
fn address_path_formats_index() {
    assert_eq!(address_path(0), "m/84'/0'/0'/0/0");
    assert_eq!(address_path(42), "m/84'/0'/0'/0/42");
    assert_eq!(address_path(1000007), "m/84'/0'/0'/0/1000007");
    assert_eq!(address_path(u128::MAX), format!("m/84'/0'/0'/0/{}", u128::MAX));
}

#[test]
fn testnet_wallet_uses_testnet_encodings() {
    let mut w = Wallet::from_mnemonic(PHRASE, Network::Testnet).unwrap();
    let k = w.get_new_address().unwrap();
    assert!(k.address.starts_with("tb1q"));
    assert!(k.private_key_wif.starts_with('c'));
    let mut m = test_wallet();
    let km = m.get_new_address().unwrap();
    assert_eq!(k.public_key, km.public_key);
    assert_ne!(k.address, km.address);
}

#[test]
fn new_wallet_starts_empty() {
    let w = Wallet::new(Network::Bitcoin).unwrap();
    assert_eq!(w.next_address, 0);
    assert!(w.derived_keys.is_empty());
    let record = w.to_record();
    assert_eq!(record.mnemonic.split(' ').count(), 12);
    let again = Wallet::from_record(&record).unwrap();
    assert_eq!(again.mnemonic, w.mnemonic);
}

#[test]
fn find_key_looks_up_by_path() {
    let mut w = test_wallet();
    w.issue_addresses(2).unwrap();
    let k = w.find_key("m/84'/0'/0'/0/1").unwrap();
    assert_eq!(k.address, ADDR1);
    assert!(w.find_key("m/84'/0'/0'/0/2").is_none());
    let cur = w.current_address().unwrap();
    assert_eq!(cur.address, ADDR1);
}

#[test]
fn resolve_key_leaves_counter_alone() {
    let mut w = test_wallet();
    let resolved = w.resolve_key("m/84'/0'/0'/0/0").unwrap();
    assert_eq!(resolved.address, ADDR0);
    assert_eq!(w.next_address, 0);
    assert!(w.derived_keys.is_empty());
    let issued = w.get_new_address().unwrap();
    assert!(same_record(&resolved, &issued));
    assert_eq!(w.resolve_key("84/abc").err(), Some(WalletError::MalformedPath));
}

#[test]
fn index_beyond_normal_range_is_malformed_path() {
    let mut w = test_wallet();
    w.next_address = 1u128 << 31;
    assert_eq!(w.get_new_address().err(), Some(WalletError::MalformedPath));
    assert_eq!(w.next_address, 1u128 << 31);
    assert!(w.derived_keys.is_empty());
}

#[test]
fn new_wallet_phrase_restores_same_keys() {
    let mut w = Wallet::new(Network::Bitcoin).unwrap();
    let record = w.to_record();
    let k = w.get_new_address().unwrap();
    let mut again = Wallet::from_mnemonic(&record.mnemonic, Network::Bitcoin).unwrap();
    let k2 = again.get_new_address().unwrap();
    assert!(same_record(&k, &k2));
}
