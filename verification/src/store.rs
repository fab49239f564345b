//! Durable key-value persistence scoped to a shard.
//!
//! A `Store` maps short codes to original URLs and is backed by one database
//! file per shard, managed by the `pickledb` crate. Every mutation is flushed
//! to disk before it reports success. The store is modelled by four spec
//! functions over the backing database value: the string-valued entries, the
//! number-valued entries (the shortening service persists its id counter as
//! one), the total key count, and key presence of any kind.

use vstd::prelude::*;

verus! {

#[verifier::external_type_specification]
#[verifier::external_body]
pub struct ExPickleDb(pickledb::PickleDb);

#[verifier::external_type_specification]
#[verifier::external_body]
pub struct ExPickleDbError(pickledb::error::Error);

/// The string-valued entries of a database: every key that holds a value
/// readable as a string, mapped to that string.
pub uninterp spec fn db_strings(db: pickledb::PickleDb) -> Map<Seq<char>, Seq<char>>;

/// The number-valued entries of a database: every key that holds a value
/// readable as an unsigned 64-bit number, mapped to that number. A stored
/// value is a string or a number, never both, so this map and `db_strings`
/// have disjoint domains.
pub uninterp spec fn db_numbers(db: pickledb::PickleDb) -> Map<Seq<char>, u64>;

/// The total number of keys in a database, value keys and list keys together,
/// as `pickledb::PickleDb::total_keys` counts them.
pub uninterp spec fn db_key_count(db: pickledb::PickleDb) -> nat;

/// Whether a database holds anything, a value or a list, under a key.
pub uninterp spec fn db_has_key(db: pickledb::PickleDb, key: Seq<char>) -> bool;

/// The empty code-to-URL mapping.
pub open spec fn no_entries() -> Map<Seq<char>, Seq<char>> {
    Map::empty()
}

/// The empty key-to-number mapping.
pub open spec fn no_numbers() -> Map<Seq<char>, u64> {
    Map::empty()
}

/// Relies on `pickledb::PickleDb::new_json`: a newly constructed database is
/// empty; the file is not touched until the first flush.
#[verifier::external_body]
fn db_new(path: &str) -> (db: pickledb::PickleDb)
    ensures
        db_strings(db) == no_entries(),
        db_numbers(db) == no_numbers(),
        db_key_count(db) == 0,
        forall|k: Seq<char>| !db_has_key(db, k),
{
    pickledb::PickleDb::new_json(path, pickledb::PickleDbDumpPolicy::AutoDump)
}

/// Relies on `pickledb::PickleDb::load_json`: it reads the file at the path
/// and returns a database holding whatever the file held, or fails when the
/// file cannot be read or its JSON cannot be parsed. Nothing is assumed of
/// the contents. Caution, passed on to callers: pickledb's deserializer
/// unwraps a UTF-8 check of the raw file bytes, so a file that exists but is
/// not valid UTF-8 aborts the process instead of failing; a caller that
/// cannot tolerate that must check the file's bytes before asking for a load.
#[verifier::external_body]
fn db_load(path: &str) -> (r: Option<pickledb::PickleDb>) {
    pickledb::PickleDb::load_json(path, pickledb::PickleDbDumpPolicy::AutoDump).ok()
}

/// Relies on `pickledb::PickleDb::set` with a string value: it stores the
/// string under the key (displacing a stored number) and flushes. On a failed
/// flush the value entry is rolled back and an error returned; a list stored
/// under the same key is dropped either way, so on an error the key count may
/// shrink by one while the string and number entries stay as they were.
#[verifier::external_body]
fn db_set(db: &mut pickledb::PickleDb, key: &str, value: &String) -> (r: Result<
    (),
    pickledb::error::Error,
>)
    ensures
        r is Ok ==> db_strings(*final(db)) == db_strings(*old(db)).insert(key@, value@),
        r is Ok ==> db_numbers(*final(db)) == db_numbers(*old(db)).remove(key@),
        r is Ok ==> db_has_key(*final(db), key@),
        r is Ok && !db_has_key(*old(db), key@) ==> db_key_count(*final(db)) == db_key_count(
            *old(db),
        ) + 1,
        r is Ok && db_has_key(*old(db), key@) ==> db_key_count(*final(db)) <= db_key_count(*old(db))
            && db_key_count(*old(db)) <= db_key_count(*final(db)) + 1,
        r is Err ==> db_strings(*final(db)) == db_strings(*old(db)),
        r is Err ==> db_numbers(*final(db)) == db_numbers(*old(db)),
        r is Err ==> db_key_count(*final(db)) <= db_key_count(*old(db)),
        r is Err && !db_has_key(*old(db), key@) ==> db_key_count(*final(db)) == db_key_count(
            *old(db),
        ),
        r is Err && !db_has_key(*old(db), key@) ==> !db_has_key(*final(db), key@),
        r is Err && (db_strings(*old(db)).dom().contains(key@) || db_numbers(
            *old(db),
        ).dom().contains(key@)) ==> db_has_key(*final(db), key@),
        forall|k: Seq<char>|
            k != key@ ==> db_has_key(*final(db), k) == db_has_key(*old(db), k),
{
    db.set(key, value)
}

/// Relies on `pickledb::PickleDb::set` with a `u64` value: the same operation
/// and failure behaviour as the string form, storing a number (displacing a
/// stored string). JSON carries every `u64` exactly.
#[verifier::external_body]
fn db_set_u64(db: &mut pickledb::PickleDb, key: &str, value: u64) -> (r: Result<
    (),
    pickledb::error::Error,
>)
    ensures
        r is Ok ==> db_numbers(*final(db)) == db_numbers(*old(db)).insert(key@, value),
        r is Ok ==> db_strings(*final(db)) == db_strings(*old(db)).remove(key@),
        r is Ok ==> db_has_key(*final(db), key@),
        r is Ok && !db_has_key(*old(db), key@) ==> db_key_count(*final(db)) == db_key_count(
            *old(db),
        ) + 1,
        r is Ok && db_has_key(*old(db), key@) ==> db_key_count(*final(db)) <= db_key_count(*old(db))
            && db_key_count(*old(db)) <= db_key_count(*final(db)) + 1,
        r is Err ==> db_strings(*final(db)) == db_strings(*old(db)),
        r is Err ==> db_numbers(*final(db)) == db_numbers(*old(db)),
        r is Err ==> db_key_count(*final(db)) <= db_key_count(*old(db)),
        r is Err && !db_has_key(*old(db), key@) ==> db_key_count(*final(db)) == db_key_count(
            *old(db),
        ),
        r is Err && !db_has_key(*old(db), key@) ==> !db_has_key(*final(db), key@),
        r is Err && (db_strings(*old(db)).dom().contains(key@) || db_numbers(
            *old(db),
        ).dom().contains(key@)) ==> db_has_key(*final(db), key@),
        forall|k: Seq<char>|
            k != key@ ==> db_has_key(*final(db), k) == db_has_key(*old(db), k),
{
    db.set(key, &value)
}

/// Relies on `pickledb::PickleDb::get::<String>`: a pure lookup that returns
/// the string stored under the key, or nothing when the key is absent or
/// holds no string (a stored string is never also a stored number).
#[verifier::external_body]
fn db_get(db: &pickledb::PickleDb, key: &str) -> (r: Option<String>)
    ensures
        match r {
            Some(u) => db_strings(*db).dom().contains(key@) && u@ == db_strings(*db)[key@]
                && db_has_key(*db, key@) && !db_numbers(*db).dom().contains(key@),
            None => !db_strings(*db).dom().contains(key@),
        },
{
    db.get::<String>(key)
}

/// Relies on `pickledb::PickleDb::get::<u64>`: a pure lookup that returns the
/// number stored under the key, or nothing when the key is absent or holds no
/// unsigned 64-bit number.
#[verifier::external_body]
fn db_get_u64(db: &pickledb::PickleDb, key: &str) -> (r: Option<u64>)
    ensures
        match r {
            Some(v) => db_numbers(*db).dom().contains(key@) && v == db_numbers(*db)[key@]
                && db_has_key(*db, key@) && !db_strings(*db).dom().contains(key@),
            None => !db_numbers(*db).dom().contains(key@),
        },
{
    db.get::<u64>(key)
}

/// Relies on `pickledb::PickleDb::rem`: it removes the key's value and list
/// entries and flushes, reporting whether the key existed; an absent key
/// attempts no flush, so the call then always succeeds. On a failed flush it
/// restores what it removed but had not yet flushed, so on an error the value
/// entry under the key is either kept or gone; other keys are untouched.
#[verifier::external_body]
fn db_rem(db: &mut pickledb::PickleDb, key: &str) -> (r: Result<bool, pickledb::error::Error>)
    ensures
        r matches Ok(b) ==> {
            &&& b == db_has_key(*old(db), key@)
            &&& db_strings(*final(db)) == db_strings(*old(db)).remove(key@)
            &&& db_numbers(*final(db)) == db_numbers(*old(db)).remove(key@)
            &&& !db_has_key(*final(db), key@)
            &&& db_has_key(*old(db), key@) ==> db_key_count(*final(db)) < db_key_count(*old(db))
            &&& !db_has_key(*old(db), key@) ==> db_key_count(*final(db)) == db_key_count(*old(db))
            &&& db_key_count(*old(db)) <= db_key_count(*final(db)) + 2
        },
        !db_has_key(*old(db), key@) ==> r is Ok,
        r is Err ==> (db_strings(*final(db)) == db_strings(*old(db)) && db_numbers(*final(db))
            == db_numbers(*old(db))) || (db_strings(*final(db)) == db_strings(*old(db)).remove(
            key@,
        ) && db_numbers(*final(db)) == db_numbers(*old(db)).remove(key@)),
        r is Err ==> db_key_count(*final(db)) <= db_key_count(*old(db)),
        forall|k: Seq<char>|
            k != key@ ==> db_has_key(*final(db), k) == db_has_key(*old(db), k),
{
    db.rem(key)
}

/// Relies on `pickledb::PickleDb::total_keys`: the number of keys in the
/// database.
#[verifier::external_body]
fn db_total_keys(db: &pickledb::PickleDb) -> (r: usize)
    ensures
        r == db_key_count(*db),
{
    db.total_keys()
}

/// A failure of the store. Fatal for the enclosing request.
#[derive(Clone, Copy, Debug, PartialEq, Eq, Structural)]
pub enum StoreError {
    /// The backing medium could not be written.
    Write,
    /// The shard's id space is exhausted: the persisted counter cannot
    /// advance past `u64::MAX`.
    IdsExhausted,
}

/// A persistent mapping from short code to original URL, backed by one
/// database file per shard. A number can also be stored under a key; the
/// shortening service keeps its persisted id counter that way, apart from the
/// code entries.
pub struct Store {
    db: pickledb::PickleDb,
}

impl Store {
    /// The stored mapping from code to URL.
    pub closed spec fn entries(&self) -> Map<Seq<char>, Seq<char>> {
        db_strings(self.db)
    }

    /// The stored mapping from key to number.
    pub closed spec fn numbers(&self) -> Map<Seq<char>, u64> {
        db_numbers(self.db)
    }

    /// The total number of keys in the backing database.
    pub closed spec fn key_count(&self) -> nat {
        db_key_count(self.db)
    }

    /// Whether the backing database holds anything under the key.
    pub closed spec fn has_key(&self, key: Seq<char>) -> bool {
        db_has_key(self.db, key)
    }

    /// Creates a fresh, empty store for the file at `path`. The file is only
    /// written on the first mutation.
    pub fn create(path: &str) -> (st: Store)
        ensures
            st.entries() == no_entries(),
            st.numbers() == no_numbers(),
            st.key_count() == 0,
            forall|k: Seq<char>| !st.has_key(k),
    {
        Store { db: db_new(path) }
    }

    /// Opens the store for the file at `path`: the on-disk contents when the
    /// file can be read, a fresh empty store otherwise. Never fails the
    /// caller; nothing is promised of the contents. A file that exists but is
    /// not valid UTF-8 aborts the process (see `db_load`); check the bytes
    /// first where that matters.
    pub fn open(path: &str) -> (st: Store) {
        match db_load(path) {
            Some(db) => Store { db },
            None => Store { db: db_new(path) },
        }
    }

    /// The current key count, including a persisted counter entry if present.
    pub fn size(&self) -> (r: usize)
        ensures
            r == self.key_count(),
    {
        db_total_keys(&self.db)
    }

    /// Inserts or overwrites the mapping `code -> url` and flushes it to disk
    /// before returning success. On failure the stored entries are unchanged.
    pub fn put(&mut self, code: &str, url: &String) -> (r: Result<(), StoreError>)
        ensures
            r is Ok ==> final(self).entries() == old(self).entries().insert(code@, url@),
            r is Ok ==> final(self).numbers() == old(self).numbers().remove(code@),
            r is Ok ==> final(self).has_key(code@),
            r is Ok && !old(self).has_key(code@) ==> final(self).key_count() == old(
                self,
            ).key_count() + 1,
            r is Ok && old(self).has_key(code@) ==> final(self).key_count() <= old(
                self,
            ).key_count() && old(self).key_count() <= final(self).key_count() + 1,
            r matches Err(e) ==> e is Write,
            r is Err ==> final(self).entries() == old(self).entries(),
            r is Err ==> final(self).numbers() == old(self).numbers(),
            r is Err ==> final(self).key_count() <= old(self).key_count(),
            r is Err && !old(self).has_key(code@) ==> final(self).key_count() == old(
                self,
            ).key_count(),
            r is Err && !old(self).has_key(code@) ==> !final(self).has_key(code@),
            r is Err && (old(self).entries().dom().contains(code@) || old(
                self,
            ).numbers().dom().contains(code@)) ==> final(self).has_key(code@),
            forall|k: Seq<char>|
                k != code@ ==> final(self).has_key(k) == old(self).has_key(k),
    {
        match db_set(&mut self.db, code, url) {
            Ok(()) => Ok(()),
            Err(_) => Err(StoreError::Write),
        }
    }

    /// Stores a number under a key and flushes, exactly as `put` stores a
    /// string; the shortening service persists its id counter this way.
    pub fn put_number(&mut self, key: &str, value: u64) -> (r: Result<(), StoreError>)
        ensures
            r is Ok ==> final(self).numbers() == old(self).numbers().insert(key@, value),
            r is Ok ==> final(self).entries() == old(self).entries().remove(key@),
            r is Ok ==> final(self).has_key(key@),
            r is Ok && !old(self).has_key(key@) ==> final(self).key_count() == old(
                self,
            ).key_count() + 1,
            r is Ok && old(self).has_key(key@) ==> final(self).key_count() <= old(
                self,
            ).key_count() && old(self).key_count() <= final(self).key_count() + 1,
            r matches Err(e) ==> e is Write,
            r is Err ==> final(self).entries() == old(self).entries(),
            r is Err ==> final(self).numbers() == old(self).numbers(),
            r is Err ==> final(self).key_count() <= old(self).key_count(),
            r is Err && !old(self).has_key(key@) ==> final(self).key_count() == old(
                self,
            ).key_count(),
            r is Err && !old(self).has_key(key@) ==> !final(self).has_key(key@),
            r is Err && (old(self).entries().dom().contains(key@) || old(
                self,
            ).numbers().dom().contains(key@)) ==> final(self).has_key(key@),
            forall|k: Seq<char>|
                k != key@ ==> final(self).has_key(k) == old(self).has_key(k),
    {
        match db_set_u64(&mut self.db, key, value) {
            Ok(()) => Ok(()),
            Err(_) => Err(StoreError::Write),
        }
    }

    /// A pure lookup of the URL stored under a code; no side effect.
    pub fn get(&self, code: &str) -> (r: Option<String>)
        ensures
            match r {
                Some(u) => self.entries().dom().contains(code@) && u@ == self.entries()[code@]
                    && self.has_key(code@) && !self.numbers().dom().contains(code@),
                None => !self.entries().dom().contains(code@),
            },
    {
        db_get(&self.db, code)
    }

    /// A pure lookup of the number stored under a key; no side effect.
    pub fn get_number(&self, key: &str) -> (r: Option<u64>)
        ensures
            match r {
                Some(v) => self.numbers().dom().contains(key@) && v == self.numbers()[key@]
                    && self.has_key(key@) && !self.entries().dom().contains(key@),
                None => !self.numbers().dom().contains(key@),
            },
    {
        db_get_u64(&self.db, key)
    }

    /// Deletes the mapping under a code and flushes; reports whether the code
    /// was present. An absent code is a no-op, not an error, so the call then
    /// always succeeds. On failure the entry is either kept or gone; other
    /// entries are untouched.
    pub fn remove(&mut self, code: &str) -> (r: Result<bool, StoreError>)
        ensures
            r matches Ok(b) ==> {
                &&& b == old(self).has_key(code@)
                &&& final(self).entries() == old(self).entries().remove(code@)
                &&& final(self).numbers() == old(self).numbers().remove(code@)
                &&& !final(self).has_key(code@)
                &&& old(self).has_key(code@) ==> final(self).key_count() < old(self).key_count()
                &&& !old(self).has_key(code@) ==> final(self).key_count() == old(self).key_count()
                &&& old(self).key_count() <= final(self).key_count() + 2
            },
            !old(self).has_key(code@) ==> r is Ok,
            r matches Err(e) ==> e is Write,
            r is Err ==> (final(self).entries() == old(self).entries() && final(self).numbers()
                == old(self).numbers()) || (final(self).entries() == old(self).entries().remove(
                code@,
            ) && final(self).numbers() == old(self).numbers().remove(code@)),
            r is Err ==> final(self).key_count() <= old(self).key_count(),
            forall|k: Seq<char>|
                k != code@ ==> final(self).has_key(k) == old(self).has_key(k),
    {
        match db_rem(&mut self.db, code) {
            Ok(b) => Ok(b),
            Err(_) => Err(StoreError::Write),
        }
    }
}

} // verus!
