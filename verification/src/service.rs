//! The shortening and redirect services.
//!
//! Shortening mints a code from a persisted monotonic counter, kept as a
//! number under a reserved key of the shard's own store: the counter is read
//! (falling back to the key count for a store that has none yet), advanced and
//! flushed before the new entry is written, so an id — and with it a code — is
//! never handed out twice, even across one-time-use deletions. Resolution
//! looks a code up, reports a permanent redirect when it is found, and, in
//! one-time-use mode, deletes the entry once the redirect is decided.

use vstd::prelude::*;

use crate::CODE_LENGTH;
use crate::codec::decode;
use crate::codec::encode;
use crate::codec::harsh_code;
use crate::codec::is_code_char;
use crate::store::Store;
use crate::store::StoreError;

verus! {

/// Process-level configuration, read once at startup and fixed for the
/// process's life.
pub struct Config {
    /// Prefix prepended to generated codes to build the public URL.
    pub url_base: String,
    /// Selects the backing store file and seeds the encoding salt.
    pub shard: String,
    /// If true, a successfully resolved code is deleted after its redirect.
    pub delete_on_use: bool,
    /// Listen port; used by the surrounding server, not by the services.
    pub port: u32,
}

impl Default for Config {
    /// The stock configuration: a local base URL, the `default` shard, no
    /// one-time-use deletion, port 8080.
    fn default() -> (c: Config)
        ensures
            c.url_base@ == "http://localhost:8080/"@,
            c.shard@ == "default"@,
            !c.delete_on_use,
            c.port == 8080,
    {
        Config {
            url_base: String::from_str("http://localhost:8080/"),
            shard: String::from_str("default"),
            delete_on_use: false,
            port: 8080,
        }
    }
}

/// The backing file for a shard: the shard's name followed by `.db`.
pub fn db_file_name(shard: &str) -> (r: String)
    ensures
        r@ == shard@ + ".db"@,
{
    String::from_str(shard).concat(".db")
}

/// What the shortening service returns: the minted code and the public URL
/// built from the configured base.
#[derive(Debug, Clone, PartialEq, Eq)]
pub struct ShortenResult {
    pub code: String,
    pub url: String,
}

/// What the redirect service returns: a permanent redirect to the stored URL,
/// or not found.
#[derive(Debug, Clone, PartialEq, Eq)]
pub enum RedirectOutcome {
    Redirect(String),
    NotFound,
}

/// The reserved key under which a shard's store persists the minting counter,
/// as a number. It contains an underscore, which the code alphabet excludes,
/// so no minted code can ever name it.
pub open spec fn counter_key() -> Seq<char> {
    "__next_id"@
}

/// The next id a shard will mint: its persisted counter, or, for a store that
/// has none yet, its key count (a fresh store starts at zero).
pub open spec fn next_id(st: Store) -> u64 {
    if st.numbers().dom().contains(counter_key()) {
        st.numbers()[counter_key()]
    } else {
        st.key_count() as u64
    }
}

/// A store that holds only what this service put into it under the given
/// salt: every key in the backing database is a stored code or the counter;
/// the counter, if any store entry exists, is present; and every stored code
/// encodes some id below the counter.
pub open spec fn minted_only(st: Store, salt: Seq<char>) -> bool {
    &&& forall|k: Seq<char>| #![auto]
        st.has_key(k) <==> (st.entries().dom().contains(k) || st.numbers().dom().contains(k))
    &&& forall|k: Seq<char>| #![auto] st.numbers().dom().contains(k) ==> k == counter_key()
    &&& !st.entries().dom().contains(counter_key())
    &&& (st.numbers().dom().contains(counter_key()) || forall|k: Seq<char>| #![auto]
        !st.entries().dom().contains(k))
    &&& forall|k: Seq<char>| #![auto]
        st.entries().dom().contains(k) ==> exists|i: u64|
            i < next_id(st) && k == harsh_code(salt, CODE_LENGTH as int, i)
}

/// After advancing the counter and storing one fresh code, a store of only
/// minted codes again holds only minted codes.
proof fn lemma_minted_after_mint(
    pre: Store,
    mid: Store,
    post: Store,
    salt: Seq<char>,
    code: Seq<char>,
    url: Seq<char>,
    next: u64,
)
    requires
        minted_only(pre, salt),
        next == next_id(pre),
        next < u64::MAX,
        code == harsh_code(salt, CODE_LENGTH as int, next),
        code != counter_key(),
        !pre.entries().dom().contains(code),
        mid.numbers() == pre.numbers().insert(counter_key(), (next + 1) as u64),
        mid.entries() == pre.entries().remove(counter_key()),
        mid.has_key(counter_key()),
        forall|k: Seq<char>| k != counter_key() ==> mid.has_key(k) == pre.has_key(k),
        post.entries() == mid.entries().insert(code, url),
        post.numbers() == mid.numbers().remove(code),
        post.has_key(code),
        forall|k: Seq<char>| k != code ==> post.has_key(k) == mid.has_key(k),
    ensures
        minted_only(post, salt),
        post.entries() == pre.entries().insert(code, url),
        next_id(post) == next + 1,
{
    assert(pre.entries().remove(counter_key()) =~= pre.entries());
    assert(post.numbers().dom().contains(counter_key()));
    assert(next_id(post) == next + 1);
    assert forall|k: Seq<char>|
        post.has_key(k) <==> (post.entries().dom().contains(k) || post.numbers().dom().contains(
            k,
        )) by {
        if k != code && k != counter_key() {
            assert(pre.has_key(k) <==> (pre.entries().dom().contains(k)
                || pre.numbers().dom().contains(k)));
        }
    }
    assert forall|k: Seq<char>| post.numbers().dom().contains(k) implies k == counter_key() by {
        if k != counter_key() {
            assert(pre.numbers().dom().contains(k));
        }
    }
    assert forall|k: Seq<char>| post.entries().dom().contains(k) implies exists|i: u64|
        i < next_id(post) && k == harsh_code(salt, CODE_LENGTH as int, i) by {
        if k == code {
            assert(next < next_id(post) && k == harsh_code(salt, CODE_LENGTH as int, next));
        } else {
            assert(pre.entries().dom().contains(k));
            let i = choose|i: u64| i < next_id(pre) && k == harsh_code(
                salt,
                CODE_LENGTH as int,
                i,
            );
            assert(i < next_id(post) && k == harsh_code(salt, CODE_LENGTH as int, i));
        }
    }
}

/// Mints a new code for a URL: the shard's persisted counter (or, on first
/// use, the key count) is encoded under the shard's salt, the counter is
/// advanced and flushed, the mapping is persisted, and the public URL is the
/// configured base followed by the code.
///
/// On a store that holds only its own minted entries, the new code differs
/// from every stored one, the counter never goes back, and the store again
/// holds only minted entries — so ids, and with them codes, are never handed
/// out twice on a shard, whatever deletions happened in between.
pub fn shorten(store: &mut Store, config: &Config, long_url: &String) -> (r: Result<
    ShortenResult,
    StoreError,
>)
    requires
        long_url@.len() > 0,
    ensures
        r matches Ok(res) ==> {
            &&& res.code@ == harsh_code(config.shard@, CODE_LENGTH as int, next_id(*old(store)))
            &&& res.code@.len() >= CODE_LENGTH
            &&& forall|i: int|
                0 <= i < res.code@.len() ==> is_code_char(#[trigger] res.code@[i])
            &&& res.code@ != counter_key()
            &&& res.url@ == config.url_base@ + res.code@
            &&& final(store).entries() == old(store).entries().remove(counter_key()).insert(
                res.code@,
                long_url@,
            )
            &&& next_id(*final(store)) == next_id(*old(store)) + 1
        },
        r matches Ok(res) ==> (minted_only(*old(store), config.shard@) ==> {
            &&& !old(store).entries().dom().contains(res.code@)
            &&& final(store).entries() == old(store).entries().insert(res.code@, long_url@)
        }),
        (r matches Err(e) && e is IdsExhausted) <==> next_id(*old(store)) == u64::MAX,
        r matches Err(e) && e is IdsExhausted ==> *final(store) == *old(store),
        r matches Err(e) && e is Write ==> final(store).entries() == old(store).entries()
            || final(store).entries() == old(store).entries().remove(counter_key()),
        minted_only(*old(store), config.shard@) ==> {
            &&& next_id(*final(store)) >= next_id(*old(store))
            &&& minted_only(*final(store), config.shard@)
            &&& r is Err ==> final(store).entries() == old(store).entries()
        },
{
    let counter: Option<u64> = store.get_number("__next_id");
    let next: u64 = match counter {
        Some(v) => v,
        None => store.size() as u64,
    };
    if next == u64::MAX {
        return Err(StoreError::IdsExhausted);
    }
    let salt = config.shard.as_str();
    let code = encode(salt, CODE_LENGTH, next);
    // Decoding pins the minted code as this id's alone: the probe identifies
    // the id the code came from, so no other id produced it.
    let probe = decode(salt, CODE_LENGTH, code.as_str());
    proof {
        reveal_strlit("__next_id");
        assert(code@ != counter_key()) by {
            if code@ == counter_key() {
                assert(is_code_char(code@[0]));
                assert(code@[0] == '_');
            }
        }
        if minted_only(*old(store), config.shard@) && old(store).entries().dom().contains(code@) {
            let i = choose|i: u64|
                i < next_id(*old(store)) && code@ == harsh_code(
                    config.shard@,
                    CODE_LENGTH as int,
                    i,
                );
            assert(probe == Some(i));
            assert(probe == Some(next));
            assert(false);
        }
    }
    let ghost pre = *store;
    match store.put_number("__next_id", next + 1) {
        Err(e) => {
            proof {
                if minted_only(pre, config.shard@) {
                    lemma_minted_after_failed_advance(pre, *store, config.shard@);
                }
            }
            Err(e)
        },
        Ok(()) => {
            let ghost mid = *store;
            let public_url = String::from_str(config.url_base.as_str()).concat(code.as_str());
            match store.put(code.as_str(), long_url) {
                Ok(()) => {
                    proof {
                        if minted_only(pre, config.shard@) {
                            lemma_minted_after_mint(
                                pre,
                                mid,
                                *store,
                                config.shard@,
                                code@,
                                long_url@,
                                next,
                            );
                        }
                    }
                    Ok(ShortenResult { code, url: public_url })
                },
                Err(e) => {
                    proof {
                        if minted_only(pre, config.shard@) {
                            lemma_minted_after_advance(pre, mid, *store, config.shard@, code@, next);
                        }
                    }
                    Err(e)
                },
            }
        },
    }
}

/// When advancing the counter itself failed and was rolled back, a store of
/// only minted codes still holds only minted codes, with the counter as it
/// was.
proof fn lemma_minted_after_failed_advance(pre: Store, post: Store, salt: Seq<char>)
    requires
        minted_only(pre, salt),
        post.entries() == pre.entries(),
        post.numbers() == pre.numbers(),
        !pre.has_key(counter_key()) ==> post.key_count() == pre.key_count(),
        !pre.has_key(counter_key()) ==> !post.has_key(counter_key()),
        (pre.entries().dom().contains(counter_key()) || pre.numbers().dom().contains(
            counter_key(),
        )) ==> post.has_key(counter_key()),
        forall|k: Seq<char>| k != counter_key() ==> post.has_key(k) == pre.has_key(k),
    ensures
        minted_only(post, salt),
        next_id(post) == next_id(pre),
{
    assert(pre.has_key(counter_key()) <==> (pre.entries().dom().contains(counter_key())
        || pre.numbers().dom().contains(counter_key())));
    assert(next_id(post) == next_id(pre));
    assert forall|k: Seq<char>|
        post.has_key(k) <==> (post.entries().dom().contains(k) || post.numbers().dom().contains(
            k,
        )) by {
        if k != counter_key() {
            assert(pre.has_key(k) <==> (pre.entries().dom().contains(k)
                || pre.numbers().dom().contains(k)));
        }
    }
    assert forall|k: Seq<char>| post.entries().dom().contains(k) implies exists|i: u64|
        i < next_id(post) && k == harsh_code(salt, CODE_LENGTH as int, i) by {
        assert(pre.entries().dom().contains(k));
        let i = choose|i: u64| i < next_id(pre) && k == harsh_code(salt, CODE_LENGTH as int, i);
        assert(i < next_id(post) && k == harsh_code(salt, CODE_LENGTH as int, i));
    }
}

/// After advancing the counter, with the new entry's write failed and rolled
/// back, a store of only minted codes still holds only minted codes.
proof fn lemma_minted_after_advance(
    pre: Store,
    mid: Store,
    post: Store,
    salt: Seq<char>,
    code: Seq<char>,
    next: u64,
)
    requires
        minted_only(pre, salt),
        next == next_id(pre),
        next < u64::MAX,
        code != counter_key(),
        !pre.entries().dom().contains(code),
        mid.numbers() == pre.numbers().insert(counter_key(), (next + 1) as u64),
        mid.entries() == pre.entries().remove(counter_key()),
        mid.has_key(counter_key()),
        forall|k: Seq<char>| k != counter_key() ==> mid.has_key(k) == pre.has_key(k),
        post.entries() == mid.entries(),
        post.numbers() == mid.numbers(),
        !mid.has_key(code) ==> !post.has_key(code),
        forall|k: Seq<char>| k != code ==> post.has_key(k) == mid.has_key(k),
    ensures
        minted_only(post, salt),
        post.entries() == pre.entries(),
        next_id(post) == next + 1,
{
    assert(pre.entries().remove(counter_key()) =~= pre.entries());
    assert(post.numbers().dom().contains(counter_key()));
    assert(!mid.has_key(code)) by {
        assert(mid.has_key(code) == pre.has_key(code));
        assert(pre.has_key(code) <==> (pre.entries().dom().contains(code)
            || pre.numbers().dom().contains(code)));
    }
    assert forall|k: Seq<char>|
        post.has_key(k) <==> (post.entries().dom().contains(k) || post.numbers().dom().contains(
            k,
        )) by {
        if k != code && k != counter_key() {
            assert(pre.has_key(k) <==> (pre.entries().dom().contains(k)
                || pre.numbers().dom().contains(k)));
        }
    }
    assert forall|k: Seq<char>| post.numbers().dom().contains(k) implies k == counter_key() by {
        if k != counter_key() {
            assert(pre.numbers().dom().contains(k));
        }
    }
    assert forall|k: Seq<char>| post.entries().dom().contains(k) implies exists|i: u64|
        i < next_id(post) && k == harsh_code(salt, CODE_LENGTH as int, i) by {
        assert(pre.entries().dom().contains(k));
        let i = choose|i: u64| i < next_id(pre) && k == harsh_code(salt, CODE_LENGTH as int, i);
        assert(i < next_id(post) && k == harsh_code(salt, CODE_LENGTH as int, i));
    }
}

/// Resolves a code: a permanent redirect to the stored URL when the code is
/// found, not found otherwise (the reserved counter key holds no URL, so it
/// never resolves). With `delete_on_use`, a found entry is deleted once the
/// redirect is decided, regardless of whether the caller follows it; a
/// storage failure during that deletion is fatal for the request, and only
/// then can the call fail. A successful resolution keeps a minted-only store
/// minted-only: deletion never disturbs the persisted counter.
pub fn resolve(store: &mut Store, code: &str, delete_on_use: bool) -> (r: Result<
    RedirectOutcome,
    StoreError,
>)
    ensures
        !old(store).entries().dom().contains(code@) ==> (r matches Ok(o) && o
            == RedirectOutcome::NotFound) && *final(store) == *old(store),
        old(store).entries().dom().contains(code@) && !delete_on_use ==> *final(store) == *old(
            store,
        ) && (r matches Ok(o) && o matches RedirectOutcome::Redirect(u) && u@ == old(
            store,
        ).entries()[code@]),
        old(store).entries().dom().contains(code@) && delete_on_use ==> match r {
            Ok(o) => {
                &&& o matches RedirectOutcome::Redirect(u) && u@ == old(store).entries()[code@]
                &&& final(store).entries() == old(store).entries().remove(code@)
                &&& final(store).numbers() == old(store).numbers()
                &&& !final(store).has_key(code@)
                &&& final(store).key_count() < old(store).key_count()
                &&& forall|k: Seq<char>|
                    k != code@ ==> final(store).has_key(k) == old(store).has_key(k)
            },
            Err(_) => final(store).entries() == old(store).entries() || final(store).entries()
                == old(store).entries().remove(code@),
        },
        r matches Err(e) ==> e is Write && delete_on_use && old(store).entries().dom().contains(
            code@,
        ),
        forall|salt: Seq<char>|
            (minted_only(*old(store), salt) && r is Ok) ==> minted_only(*final(store), salt),
{
    let url = store.get(code);
    match url {
        Some(u) => {
            if delete_on_use {
                match store.remove(code) {
                    Ok(_) => {
                        proof {
                            assert(store.numbers() =~= old(store).numbers());
                            assert forall|salt: Seq<char>| minted_only(*old(store), salt) implies
                                minted_only(*store, salt) by {
                                lemma_minted_after_delete(*old(store), *store, salt, code@);
                            }
                        }
                        Ok(RedirectOutcome::Redirect(u))
                    },
                    Err(e) => Err(e),
                }
            } else {
                Ok(RedirectOutcome::Redirect(u))
            }
        },
        None => Ok(RedirectOutcome::NotFound),
    }
}

/// Deleting one stored code keeps a minted-only store minted-only: the
/// counter entry is untouched, so the id bound stands.
proof fn lemma_minted_after_delete(pre: Store, post: Store, salt: Seq<char>, code: Seq<char>)
    requires
        minted_only(pre, salt),
        pre.entries().dom().contains(code),
        post.entries() == pre.entries().remove(code),
        post.numbers() == pre.numbers(),
        !post.has_key(code),
        forall|k: Seq<char>| k != code ==> post.has_key(k) == pre.has_key(k),
    ensures
        minted_only(post, salt),
{
    assert(code != counter_key());
    assert(pre.numbers().dom().contains(counter_key()));
    assert(next_id(post) == next_id(pre));
    assert forall|k: Seq<char>|
        post.has_key(k) <==> (post.entries().dom().contains(k) || post.numbers().dom().contains(
            k,
        )) by {
        if k != code {
            assert(pre.has_key(k) <==> (pre.entries().dom().contains(k)
                || pre.numbers().dom().contains(k)));
        }
    }
    assert forall|k: Seq<char>| post.entries().dom().contains(k) implies exists|i: u64|
        i < next_id(post) && k == harsh_code(salt, CODE_LENGTH as int, i) by {
        assert(pre.entries().dom().contains(k));
        let i = choose|i: u64| i < next_id(pre) && k == harsh_code(salt, CODE_LENGTH as int, i);
        assert(i < next_id(post) && k == harsh_code(salt, CODE_LENGTH as int, i));
    }
}

/// Law (shorten/redirect round trip): shortening a URL and then resolving the
/// returned code, with deletion off, redirects to that same URL; the entry
/// stays stored, so the resolution can be repeated.
pub fn shorten_then_resolve(store: &mut Store, config: &Config, long_url: &String) -> (r: Result<
    (ShortenResult, RedirectOutcome),
    StoreError,
>)
    requires
        long_url@.len() > 0,
    ensures
        r matches Ok(p) ==> {
            &&& p.1 matches RedirectOutcome::Redirect(u) && u@ == long_url@
            &&& final(store).entries() == old(store).entries().remove(counter_key()).insert(
                p.0.code@,
                long_url@,
            )
        },
        r is Err ==> final(store).entries() == old(store).entries() || final(store).entries()
            == old(store).entries().remove(counter_key()),
        minted_only(*old(store), config.shard@) && r is Err ==> final(store).entries() == old(
            store,
        ).entries(),
{
    let res = match shorten(store, config, long_url) {
        Ok(res) => res,
        Err(e) => {
            return Err(e);
        },
    };
    let out = match resolve(store, res.code.as_str(), false) {
        Ok(o) => o,
        Err(e) => {
            return Err(e);
        },
    };
    Ok((res, out))
}

/// Law (delete on use): a code that resolves with deletion on redirects and is
/// consumed, so resolving it a second time reports not found. Only a found
/// code's failed deletion can make the pair of calls fail.
pub fn resolve_twice_with_delete(store: &mut Store, code: &str) -> (r: Result<
    (RedirectOutcome, RedirectOutcome),
    StoreError,
>)
    ensures
        r matches Ok(p) ==> (p.0 is Redirect ==> p.1 == RedirectOutcome::NotFound),
        r matches Ok(p) ==> (old(store).entries().dom().contains(code@) ==> p.0 is Redirect),
        r is Err ==> old(store).entries().dom().contains(code@),
{
    let first = match resolve(store, code, true) {
        Ok(o) => o,
        Err(e) => {
            return Err(e);
        },
    };
    let second = match resolve(store, code, true) {
        Ok(o) => o,
        Err(e) => {
            return Err(e);
        },
    };
    Ok((first, second))
}

/// Law (no reuse after deletion): mint a code, consume it with delete-on-use,
/// mint again — on a store of only minted entries the second code differs
/// from the first, because the persisted counter, not the live key count,
/// feeds the encoder.
pub fn mint_consume_mint(
    store: &mut Store,
    config: &Config,
    first_url: &String,
    second_url: &String,
) -> (r: Result<(ShortenResult, ShortenResult), StoreError>)
    requires
        first_url@.len() > 0,
        second_url@.len() > 0,
    ensures
        minted_only(*old(store), config.shard@) ==> (r matches Ok(p) ==> p.0.code@ != p.1.code@),
{
    let first = match shorten(store, config, first_url) {
        Ok(res) => res,
        Err(e) => {
            return Err(e);
        },
    };
    let consumed = match resolve(store, first.code.as_str(), true) {
        Ok(o) => o,
        Err(e) => {
            return Err(e);
        },
    };
    let second = match shorten(store, config, second_url) {
        Ok(res) => res,
        Err(e) => {
            return Err(e);
        },
    };
    let probe = decode(config.shard.as_str(), CODE_LENGTH, first.code.as_str());
    proof {
        if minted_only(*old(store), config.shard@) {
            let n = next_id(*old(store));
            assert(probe == Some(n));
            if first.code@ == second.code@ {
                assert(probe == Some((n + 1) as u64));
                assert(false);
            }
        }
    }
    Ok((first, second))
}

} // verus!
