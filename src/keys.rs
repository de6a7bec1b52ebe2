//! Derived key records and the path-keyed list that holds them.
use vstd::prelude::*;

verus! {

/// One resolved derivation path: the path, its private key in wallet import
/// format, its compressed public key in hex, and its native segwit address.
#[derive(Clone, Debug)]
pub struct DerivedKey {
    pub path: String,
    pub private_key_wif: String,
    pub public_key: String,
    pub address: String,
}

/// The text of each field of a [`DerivedKey`].
pub struct DerivedKeyView {
    pub path: Seq<char>,
    pub private_key_wif: Seq<char>,
    pub public_key: Seq<char>,
    pub address: Seq<char>,
}

impl View for DerivedKey {
    type V = DerivedKeyView;

    open spec fn view(&self) -> DerivedKeyView {
        DerivedKeyView {
            path: self.path@,
            private_key_wif: self.private_key_wif@,
            public_key: self.public_key@,
            address: self.address@,
        }
    }
}

/// The views of a list of records.
pub open spec fn views_of(keys: Seq<DerivedKey>) -> Seq<DerivedKeyView> {
    keys.map_values(|k: DerivedKey| k@)
}

/// No two records of the list share a path.
pub open spec fn paths_unique(keys: Seq<DerivedKeyView>) -> bool {
    forall|i: int, j: int|
        0 <= i < keys.len() && 0 <= j < keys.len() && i != j ==> keys[i].path != keys[j].path
}

/// Some record of the list has the path.
pub open spec fn has_path(keys: Seq<DerivedKeyView>, path: Seq<char>) -> bool {
    exists|i: int| 0 <= i < keys.len() && keys[i].path == path
}

/// The record of the list at the path, if there is one.
pub open spec fn lookup(keys: Seq<DerivedKeyView>, path: Seq<char>) -> Option<DerivedKeyView> {
    if has_path(keys, path) {
        Some(keys[choose|i: int| 0 <= i < keys.len() && keys[i].path == path])
    } else {
        None
    }
}

/// The list with the record stored under its path: in place of the record that
/// had that path, or appended where none had.
pub open spec fn put_key(keys: Seq<DerivedKeyView>, key: DerivedKeyView) -> Seq<DerivedKeyView> {
    if has_path(keys, key.path) {
        keys.update(choose|i: int| 0 <= i < keys.len() && keys[i].path == key.path, key)
    } else {
        keys.push(key)
    }
}

/// A field-by-field copy of a record.
pub fn copy_key(k: &DerivedKey) -> (r: DerivedKey)
    ensures
        r@ == k@,
{
    DerivedKey {
        path: k.path.clone(),
        private_key_wif: k.private_key_wif.clone(),
        public_key: k.public_key.clone(),
        address: k.address.clone(),
    }
}

/// The position of the record with the given path, if any.
pub fn find_index(keys: &Vec<DerivedKey>, path: &str) -> (r: Option<usize>)
    ensures
        match r {
            Some(i) => i < keys@.len() && keys@[i as int]@.path == path@,
            None => !has_path(views_of(keys@), path@),
        },
{
    let target = path.to_owned();
    let mut i: usize = 0;
    while i < keys.len()
        invariant
            i <= keys@.len(),
            target@ == path@,
            forall|j: int| 0 <= j < i ==> keys@[j]@.path != path@,
        decreases keys@.len() - i,
    {
        if keys[i].path == target {
            return Some(i);
        }
        i = i + 1;
    }
    assert forall|j: int| 0 <= j < views_of(keys@).len() implies views_of(keys@)[j].path != path@ by {
        assert(views_of(keys@)[j] == keys@[j]@);
    }
    None
}

/// Where paths are unique, the record found at a position is the one that
/// `lookup` and `put_key` pick.
pub proof fn lemma_unique_position(keys: Seq<DerivedKeyView>, i: int)
    requires
        paths_unique(keys),
        0 <= i < keys.len(),
    ensures
        has_path(keys, keys[i].path),
        (choose|j: int| 0 <= j < keys.len() && keys[j].path == keys[i].path) == i,
        lookup(keys, keys[i].path) == Some(keys[i]),
{
    let p = keys[i].path;
    assert(0 <= i < keys.len() && keys[i].path == p);
    let j = choose|j: int| 0 <= j < keys.len() && keys[j].path == p;
    assert(j == i);
}

/// Storing a record keeps the paths of a list unique.
pub proof fn lemma_put_keeps_unique(keys: Seq<DerivedKeyView>, key: DerivedKeyView)
    requires
        paths_unique(keys),
    ensures
        paths_unique(put_key(keys, key)),
        has_path(put_key(keys, key), key.path),
{
    let r = put_key(keys, key);
    if has_path(keys, key.path) {
        let i = choose|i: int| 0 <= i < keys.len() && keys[i].path == key.path;
        assert(r[i].path == key.path);
    } else {
        assert(r[keys.len() as int].path == key.path);
    }
}

/// Storing the same record twice leaves the list as storing it once did.
pub proof fn lemma_put_idempotent(keys: Seq<DerivedKeyView>, key: DerivedKeyView)
    requires
        paths_unique(keys),
    ensures
        put_key(put_key(keys, key), key) == put_key(keys, key),
{
    let once = put_key(keys, key);
    lemma_put_keeps_unique(keys, key);
    let i = choose|i: int| 0 <= i < once.len() && once[i].path == key.path;
    lemma_unique_position(once, i);
    if has_path(keys, key.path) {
        let j = choose|j: int| 0 <= j < keys.len() && keys[j].path == key.path;
        assert(once[j] == key);
    } else {
        assert(once[keys.len() as int] == key);
    }
    assert(once[i] == key);
    assert(put_key(once, key) =~= once);
}

/// After storing a record, looking up its path finds exactly that record.
pub proof fn lemma_put_then_lookup(keys: Seq<DerivedKeyView>, key: DerivedKeyView)
    requires
        paths_unique(keys),
    ensures
        lookup(put_key(keys, key), key.path) == Some(key),
{
    let once = put_key(keys, key);
    lemma_put_keeps_unique(keys, key);
    let i = choose|i: int| 0 <= i < once.len() && once[i].path == key.path;
    lemma_unique_position(once, i);
    if has_path(keys, key.path) {
        let j = choose|j: int| 0 <= j < keys.len() && keys[j].path == key.path;
        assert(once[j] == key);
    } else {
        assert(once[keys.len() as int] == key);
    }
}

} // verus!
