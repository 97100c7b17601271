//! The store of the one secret key under which every token is sealed.

use once_cell::sync::OnceCell;
use rand::Rng;
use vstd::prelude::*;

verus! {

/// The number of bytes in the secret key.
pub const KEY_LEN: usize = 32;

/// `once_cell::sync::OnceCell`, a cell that can be written to only once.
#[verifier::external_type_specification]
#[verifier::external_body]
#[verifier::reject_recursive_types(T)]
pub struct ExOnceCell<T>(OnceCell<T>);

/// The key that a cell holds, or `None` while nothing has been set in it.
pub uninterp spec fn cell_contents(cell: OnceCell<[u8; 32]>) -> Option<[u8; 32]>;

/// `OnceCell::new`: creates a new empty cell.
#[verifier::external_body]
fn cell_new() -> (cell: OnceCell<[u8; 32]>)
    ensures
        cell_contents(cell) is None,
{
    OnceCell::new()
}

/// `OnceCell::set`: sets the contents of the cell to `key`. It returns
/// `Ok(())` if the cell was empty, and `Err(key)`, leaving the cell as it
/// was, if it was full.
#[verifier::external_body]
fn cell_set(cell: &mut OnceCell<[u8; 32]>, key: [u8; 32]) -> (r: Result<(), [u8; 32]>)
    ensures
        r is Ok <==> cell_contents(*old(cell)) is None,
        r is Ok ==> cell_contents(*final(cell)) == Some(key),
        r matches Err(back) ==> back == key && cell_contents(*final(cell)) == cell_contents(
            *old(cell),
        ),
{
    cell.set(key)
}

/// `OnceCell::get`: a reference to the value in the cell, or `None` if the
/// cell is empty.
#[verifier::external_body]
fn cell_get(cell: &OnceCell<[u8; 32]>) -> (r: Option<&[u8; 32]>)
    ensures
        r is Some <==> cell_contents(*cell) is Some,
        r matches Some(key) ==> cell_contents(*cell) == Some(*key),
{
    cell.get()
}

/// `Rng::gen` on `rand::thread_rng()`, for an array of 32 bytes: each byte
/// is drawn from the thread's generator, which the operating system seeds.
/// Nothing is known of the value. The call aborts only if the operating
/// system's source of entropy fails when the generator is seeded, at its
/// first use in a thread or at a later reseeding.
#[verifier::external_body]
pub fn generate_key() -> (key: [u8; 32]) {
    rand::thread_rng().gen()
}

/// Holds the secret key of the process. A store starts empty and takes a key
/// once; from then on the key stays.
pub struct KeyStore {
    cell: OnceCell<[u8; 32]>,
}

impl KeyStore {
    /// The key in the store, or `None` before one has been set.
    pub closed spec fn key(&self) -> Option<[u8; 32]> {
        cell_contents(self.cell)
    }

    /// Whether a key has been set in the store.
    pub open spec fn is_set(&self) -> bool {
        self.key() is Some
    }

    /// The bytes of the key in the store.
    pub open spec fn key_bytes(&self) -> Seq<u8>
        recommends
            self.is_set(),
    {
        self.key().unwrap()@
    }

    /// A store with no key in it.
    pub fn new() -> (store: KeyStore)
        ensures
            !store.is_set(),
    {
        KeyStore { cell: cell_new() }
    }

    /// Tells whether a key has been set in the store.
    pub fn is_initialized(&self) -> (set: bool)
        ensures
            set == self.is_set(),
    {
        cell_get(&self.cell).is_some()
    }
}

/// Sets the key of the store. A store takes a key once only: setting a second
/// one is an error in the sequence of startup, and no caller may do it.
pub fn set_key(store: &mut KeyStore, k: [u8; 32])
    requires
        !old(store).is_set(),
    ensures
        final(store).key() == Some(k),
{
    let _ = cell_set(&mut store.cell, k);
}

/// The key of the store. A store is read only after its key has been set.
pub fn get_key(store: &KeyStore) -> (k: &[u8; 32])
    requires
        store.is_set(),
    ensures
        store.key() == Some(*k),
{
    cell_get(&store.cell).unwrap()
}

} // verus!
