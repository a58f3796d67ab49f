//! The firmware parameter layer: fixed 32-byte, zero-padded keys and their lookup, and the
//! outcomes of raw reads, writes (flash before value) and loads.
use vstd::prelude::*;

verus! {

/// Fixed-size wire/storage key of a parameter: a path, zero-padded to 32 bytes.
pub type Key = [u8; 32];

/// The length of a key.
pub const KEY_LEN: usize = 32;

/// Default scratch-buffer size for encoded parameter payloads.
pub const DEFAULT_MAX_PARAM_BYTES: usize = 64;

/// Marks the types that may be registered as parameters.
pub trait Sealed {
}

/// Storage policy of a registered parameter.
#[derive(Debug, Clone, Copy, Eq, PartialEq, Structural)]
pub enum ParamStorage {
    /// Runtime-only value: writes update RAM but never touch flash.
    Volatile,
    /// Configuration value: writes persist to flash before updating RAM.
    Persistent,
}

/// The error type of the postcard encoding that parameter payloads use; carried through
/// unchanged.
#[verifier::external_type_specification]
#[verifier::external_body]
pub struct ExPostcardError(postcard::Error);

/// Why a raw read of a parameter failed.
#[derive(Debug)]
pub enum ParamReadError {
    /// No registered parameter has the key.
    UnknownKey,
    /// The parameter has no value yet (never loaded, never written).
    NotInitialized,
    /// Encoding the value into the caller's buffer failed (typically too small a buffer).
    Encode(postcard::Error),
}

/// Why a raw write of a parameter failed; `E` is the flash storage's error.
#[derive(Debug)]
pub enum ParamWriteError<E> {
    /// No registered parameter has the key.
    UnknownKey,
    /// The payload does not decode as the parameter's type.
    BadPayload(postcard::Error),
    /// Writing the payload to flash failed (persistent parameters only).
    Storage(E),
}

/// The outcome of loading one registered parameter from flash.
#[derive(Debug)]
pub enum LoadStatus {
    /// The value is in place: read from flash and decoded, or nothing to load (volatile).
    Loaded,
    /// Flash holds no entry for the key; the value stays unset.
    Missing,
    /// Flash holds bytes that do not decode (likely a schema change); the value stays unset.
    BadDecode(postcard::Error),
}

/// The result of a raw read, from the registry lookup (the storage policy of the parameter
/// with the key, `None` when none has it) and, for a registered parameter, what encoding its
/// value gave (`Ok(None)` when it has no value yet): the encoded length, or the error.
pub fn read_result(
    entry: Option<ParamStorage>,
    encoded: Result<Option<usize>, postcard::Error>,
) -> (r: Result<usize, ParamReadError>)
    ensures
        entry is None ==> r matches Err(ParamReadError::UnknownKey),
        entry is Some ==> match encoded {
            Ok(Some(n)) => r == Ok::<usize, ParamReadError>(n),
            Ok(None) => r matches Err(ParamReadError::NotInitialized),
            Err(e) => r matches Err(ParamReadError::Encode(e2)) && e2 == e,
        },
{
    match entry {
        None => Err(ParamReadError::UnknownKey),
        Some(_) => match encoded {
            Ok(Some(n)) => Ok(n),
            Ok(None) => Err(ParamReadError::NotInitialized),
            Err(e) => Err(ParamReadError::Encode(e)),
        },
    }
}

/// How a raw write goes on after the registry lookup (the storage policy of the parameter
/// with the key, `None` when none has it) and the check that the payload decodes: the error,
/// or whether the payload must be stored to flash before the value is updated (persistent
/// parameters); a volatile parameter only updates its value.
pub fn write_plan<E>(
    entry: Option<ParamStorage>,
    validation: Result<(), postcard::Error>,
) -> (r: Result<bool, ParamWriteError<E>>)
    ensures
        entry is None ==> r matches Err(ParamWriteError::UnknownKey),
        entry matches Some(st) ==> match validation {
            Ok(()) => r == Ok::<bool, ParamWriteError<E>>(st == ParamStorage::Persistent),
            Err(e) => r matches Err(ParamWriteError::BadPayload(e2)) && e2 == e,
        },
{
    match entry {
        None => Err(ParamWriteError::UnknownKey),
        Some(st) => match validation {
            Ok(()) => Ok(st == ParamStorage::Persistent),
            Err(e) => Err(ParamWriteError::BadPayload(e)),
        },
    }
}

/// The result of a raw write after the flash store (for a persistent parameter; `Ok(())` for a
/// volatile one) and the update of the value from the payload: the store's error first, then
/// the update's.
pub fn write_result<E>(stored: Result<(), E>, applied: Result<(), postcard::Error>) -> (r: Result<
    (),
    ParamWriteError<E>,
>)
    ensures
        match stored {
            Err(se) => r matches Err(ParamWriteError::Storage(e2)) && e2 == se,
            Ok(()) => match applied {
                Ok(()) => r is Ok,
                Err(ae) => r matches Err(ParamWriteError::BadPayload(e2)) && e2 == ae,
            },
        },
{
    match stored {
        Err(e) => Err(ParamWriteError::Storage(e)),
        Ok(()) => match applied {
            Ok(()) => Ok(()),
            Err(e) => Err(ParamWriteError::BadPayload(e)),
        },
    }
}

/// Whether loading a parameter reads flash: only persistent parameters are stored there.
pub fn load_reads_flash(storage: ParamStorage) -> (r: bool)
    ensures
        r == (storage == ParamStorage::Persistent),
{
    storage == ParamStorage::Persistent
}

/// The outcome of loading a parameter, from what flash held for its key (`None` when nothing)
/// and, when it held bytes, whether they decoded into the value; a volatile parameter, which
/// reads no flash, counts as loaded.
pub fn load_status(storage: ParamStorage, fetched: Option<Result<(), postcard::Error>>) -> (r:
    LoadStatus)
    ensures
        storage == ParamStorage::Volatile ==> r is Loaded,
        storage == ParamStorage::Persistent ==> match fetched {
            None => r is Missing,
            Some(Ok(())) => r is Loaded,
            Some(Err(e)) => r matches LoadStatus::BadDecode(e2) && e2 == e,
        },
{
    if storage != ParamStorage::Persistent {
        return LoadStatus::Loaded;
    }
    match fetched {
        None => LoadStatus::Missing,
        Some(Ok(())) => LoadStatus::Loaded,
        Some(Err(e)) => LoadStatus::BadDecode(e),
    }
}

/// The 32 key bytes of a path: its UTF-8 bytes followed by zero bytes.
pub open spec fn key_bytes(path: Seq<char>) -> Seq<u8> {
    let b = vstd::utf8::encode_utf8(path);
    b + Seq::new((32 - b.len()) as nat, |i: int| 0u8)
}

/// The index of the first zero byte of `k` at or after `i`, or `k.len()` when there is none.
pub open spec fn first_zero_from(k: Seq<u8>, i: int) -> int
    decreases k.len() - i,
{
    if i >= k.len() {
        k.len() as int
    } else if k[i] == 0 {
        i
    } else {
        first_zero_from(k, i + 1)
    }
}

/// The text shown for a key whose path is no valid UTF-8.
pub open spec fn invalid_key_text() -> Seq<char> {
    seq!['<', 'i', 'n', 'v', 'a', 'l', 'i', 'd', ' ', 'u', 't', 'f', '-', '8', '>']
}

/// The path of a key: its bytes before the first zero byte, decoded as UTF-8, or
/// `invalid_key_text()` when they are no valid UTF-8.
pub open spec fn key_text(k: Seq<u8>) -> Seq<char> {
    let prefix = k.take(first_zero_from(k, 0));
    if vstd::utf8::valid_utf8(prefix) {
        vstd::utf8::decode_utf8(prefix)
    } else {
        invalid_key_text()
    }
}

/// `core::str::from_utf8`: the text of `v` when its bytes are valid UTF-8 (`None` otherwise).
/// Its contract claims what the standard library documents: the call succeeds exactly on
/// valid UTF-8 and then gives a string of the same bytes.
#[verifier::external_body]
fn str_from_utf8(v: &[u8]) -> (r: Option<&str>)
    ensures
        r is Some <==> vstd::utf8::valid_utf8(v@),
        r matches Some(s) ==> vstd::utf8::encode_utf8(s@) == v@,
{
    match core::str::from_utf8(v) {
        Ok(s) => Some(s),
        Err(_) => None,
    }
}

proof fn lemma_first_zero_bounds(k: Seq<u8>, i: int)
    requires
        0 <= i <= k.len(),
    ensures
        i <= first_zero_from(k, i) <= k.len(),
        first_zero_from(k, i) < k.len() ==> k[first_zero_from(k, i)] == 0,
        forall|j: int| i <= j < first_zero_from(k, i) ==> k[j] != 0,
    decreases k.len() - i,
{
    if i < k.len() && k[i] != 0 {
        lemma_first_zero_bounds(k, i + 1);
    }
}

proof fn lemma_first_zero_skip(k: Seq<u8>, i: int, j: int)
    requires
        0 <= i <= j <= k.len(),
        forall|t: int| i <= t < j ==> k[t] != 0,
    ensures
        first_zero_from(k, i) == first_zero_from(k, j),
    decreases j - i,
{
    if i < j {
        lemma_first_zero_skip(k, i + 1, j);
    }
}

/// The path of a key: everything before the first zero byte, or `"<invalid utf-8>"` when that
/// part is not valid UTF-8.
pub fn key_str(key: &Key) -> (r: &str)
    ensures
        r@ == key_text(key@),
{
    let mut n: usize = 0;
    while n < KEY_LEN && key[n] != 0
        invariant
            n <= KEY_LEN,
            key@.len() == KEY_LEN,
            forall|j: int| 0 <= j < n ==> key@[j] != 0,
        decreases KEY_LEN - n,
    {
        n += 1;
    }
    proof {
        lemma_first_zero_skip(key@, 0, n as int);
        lemma_first_zero_bounds(key@, n as int);
    }
    let prefix = vstd::slice::slice_subrange(key.as_slice(), 0, n);
    assert(prefix@ =~= key@.take(first_zero_from(key@, 0)));
    match str_from_utf8(prefix) {
        Some(s) => {
            proof {
                vstd::utf8::encode_utf8_decode_utf8(s@);
            }
            s
        },
        None => {
            proof {
                reveal_strlit("<invalid utf-8>");
            }
            assert("<invalid utf-8>"@ =~= invalid_key_text());
            "<invalid utf-8>"
        },
    }
}

/// The key of a path: its UTF-8 bytes, zero-padded to 32 bytes. The path must fit.
pub fn make_key(path: &str) -> (k: Key)
    requires
        vstd::utf8::encode_utf8(path@).len() <= KEY_LEN,
    ensures
        k@ == key_bytes(path@),
{
    let bytes = path.as_bytes();
    let mut out = [0u8; 32];
    let mut i: usize = 0;
    while i < bytes.len()
        invariant
            bytes@ == vstd::utf8::encode_utf8(path@),
            bytes@.len() <= KEY_LEN,
            i <= bytes@.len(),
            out@.len() == KEY_LEN,
            forall|j: int| 0 <= j < i ==> out@[j] == bytes@[j],
            forall|j: int| i <= j < KEY_LEN ==> out@[j] == 0,
        decreases bytes@.len() - i,
    {
        out[i] = bytes[i];
        i += 1;
    }
    assert(out@ =~= key_bytes(path@));
    out
}

/// Building a key from a path and reading its path back gives the same path, for every path
/// that fits in a key and has no zero byte.
pub proof fn lemma_key_round_trip(path: Seq<char>)
    requires
        vstd::utf8::encode_utf8(path).len() <= KEY_LEN,
        !vstd::utf8::encode_utf8(path).contains(0u8),
    ensures
        key_text(key_bytes(path)) == path,
{
    let b = vstd::utf8::encode_utf8(path);
    let k = key_bytes(path);
    assert forall|t: int| 0 <= t < b.len() implies k[t] != 0 by {
        assert(k[t] == b[t]);
        if b[t] == 0 {
            assert(b.contains(0u8));
        }
    }
    lemma_first_zero_skip(k, 0, b.len() as int);
    lemma_first_zero_bounds(k, b.len() as int);
    if b.len() < KEY_LEN {
        assert(k[b.len() as int] == 0);
    }
    assert(first_zero_from(k, 0) == b.len());
    assert(k.take(b.len() as int) =~= b);
    vstd::utf8::encode_utf8_valid_utf8(path);
    vstd::utf8::encode_utf8_decode_utf8(path);
}

fn key_eq(a: &Key, b: &Key) -> (r: bool)
    ensures
        r == (a@ == b@),
{
    let mut i: usize = 0;
    while i < KEY_LEN
        invariant
            i <= KEY_LEN,
            a@.len() == KEY_LEN,
            b@.len() == KEY_LEN,
            forall|j: int| 0 <= j < i ==> a@[j] == b@[j],
        decreases KEY_LEN - i,
    {
        if a[i] != b[i] {
            return false;
        }
        i += 1;
    }
    assert(a@ =~= b@);
    true
}

/// The position of the first registered key equal to `key`, or `None` when it is not
/// registered.
pub fn find_key(keys: &[Key], key: &Key) -> (r: Option<usize>)
    ensures
        r matches Some(i) ==> i < keys@.len() && keys@[i as int]@ == key@ && forall|j: int|
            0 <= j < i ==> keys@[j]@ != key@,
        r is None ==> forall|j: int| 0 <= j < keys@.len() ==> keys@[j]@ != key@,
{
    let mut i: usize = 0;
    while i < keys.len()
        invariant
            i <= keys@.len(),
            forall|j: int| 0 <= j < i ==> keys@[j]@ != key@,
        decreases keys@.len() - i,
    {
        if key_eq(&keys[i], key) {
            return Some(i);
        }
        i += 1;
    }
    None
}

} // verus!
