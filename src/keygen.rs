use vstd::prelude::*;
use rand::RngCore;
use crate::codec::{base64_decoded, base64_of, encoded_len, to_base64};
use crate::error::Error;
use crate::validate::{valid_key_size, valid_num_keys, validate_key_size, validate_num_keys};

verus! {

/// Key type whose stored content is handed out as it is.
pub const KEY_TYPE_STANDARD: i32 = 0;

/// Key type whose content is handed out through the oblivious transform.
pub const KEY_TYPE_OBLIVIOUS: i32 = 1;

/// A key: its id, its base64 content, its type and its size in bits.
#[derive(Clone, Debug)]
pub struct Key {
    pub id: u128,
    pub content: String,
    pub key_type: i32,
    pub size: i32,
}

/// A key as plain values.
pub struct KeyView {
    pub id: u128,
    pub content: Seq<char>,
    pub key_type: i32,
    pub size: i32,
}

impl View for Key {
    type V = KeyView;

    open spec fn view(&self) -> KeyView {
        KeyView { id: self.id, content: self.content@, key_type: self.key_type, size: self.size }
    }
}

/// What holds of every key generated with `bits` and `key_type`: its content
/// is the base64 text of `bits / 8` bytes.
pub open spec fn generated_key(k: KeyView, bits: i32, key_type: i32) -> bool {
    &&& k.size == bits
    &&& k.key_type == key_type
    &&& exists|b: Seq<u8>| #![auto] b.len() == bits / 8 && k.content == base64_of(b)
        && base64_decoded(k.content) == Some(b)
}

/// Relies on rand's `thread_rng` and `RngCore::fill_bytes` (0.8): `n` bytes
/// from the thread's cryptographically secure generator. Nothing is known
/// of their values.
#[verifier::external_body]
fn random_key_bytes(n: usize) -> (r: Vec<u8>)
    ensures
        r@.len() == n,
{
    let mut v = vec![0u8; n];
    rand::thread_rng().fill_bytes(&mut v);
    v
}

/// Relies on uuid's `Uuid::new_v4` and `Uuid::as_u128` (1.x): a random
/// version 4 identifier as its 128-bit value. Nothing is known of it.
#[verifier::external_body]
fn new_key_id() -> (r: u128) {
    uuid::Uuid::new_v4().as_u128()
}

/// Draws `key_size_bits / 8` random bytes. A size of zero or not a whole
/// number of bytes is an invalid argument; a negative one, whose byte count
/// is no size, is an internal error.
pub fn generate_random_key_bytes(key_size_bits: i32) -> (r: Result<Vec<u8>, Error>)
    ensures
        r is Ok <==> valid_key_size(key_size_bits as int),
        r matches Ok(v) ==> v@.len() == key_size_bits / 8,
        r matches Err(e) ==> e == (if key_size_bits % 8 != 0 || key_size_bits == 0 {
            Error::InvalidArgument
        } else {
            Error::InternalError
        }),
{
    if key_size_bits % 8 != 0 || key_size_bits == 0 {
        return Err(Error::InvalidArgument);
    }
    if key_size_bits < 0 {
        return Err(Error::InternalError);
    }
    let n: usize = (key_size_bits / 8) as usize;
    Ok(random_key_bytes(n))
}

/// Draws `key_size_bits / 8` random bytes and encodes them as base64.
pub fn generate_random_key(key_size_bits: i32) -> (r: Result<String, Error>)
    ensures
        r is Ok <==> valid_key_size(key_size_bits as int),
        r matches Ok(s) ==> s@.len() == encoded_len((key_size_bits / 8) as nat)
            && exists|b: Seq<u8>| #![auto] b.len() == key_size_bits / 8 && s@ == base64_of(b)
            && base64_decoded(s@) == Some(b),
        r matches Err(e) ==> e == (if key_size_bits % 8 != 0 || key_size_bits == 0 {
            Error::InvalidArgument
        } else {
            Error::InternalError
        }),
{
    let bytes = generate_random_key_bytes(key_size_bits)?;
    let s = to_base64(bytes.as_slice());
    assert(bytes@.len() == key_size_bits / 8 && s@ == base64_of(bytes@)
        && base64_decoded(s@) == Some(bytes@));
    Ok(s)
}

/// Generates `num_keys` keys of `key_size_bits` bits and type `key_type`,
/// each with random content and a fresh random id.
pub fn generate_random_keys(key_size_bits: i32, num_keys: i32, key_type: i32) -> (r: Result<
    Vec<Key>,
    Error,
>)
    ensures
        r is Ok <==> valid_key_size(key_size_bits as int) && valid_num_keys(num_keys as int),
        r is Err ==> r == Err::<Vec<Key>, Error>(Error::InvalidArgument),
        r matches Ok(keys) ==> keys@.len() == num_keys && forall|i: int|
            0 <= i < keys@.len() ==> #[trigger] generated_key(keys@[i]@, key_size_bits, key_type),
{
    validate_key_size(key_size_bits)?;
    validate_num_keys(num_keys)?;
    let n: usize = num_keys as usize;
    let mut keys: Vec<Key> = Vec::with_capacity(n);
    let mut i: usize = 0;
    while i < n
        invariant
            n == num_keys,
            valid_key_size(key_size_bits as int),
            i <= n,
            keys@.len() == i,
            forall|j: int| 0 <= j < i ==> #[trigger] generated_key(keys@[j]@, key_size_bits, key_type),
        decreases n - i,
    {
        let content = generate_random_key(key_size_bits)?;
        let k = Key { id: new_key_id(), content, key_type, size: key_size_bits };
        assert(generated_key(k@, key_size_bits, key_type));
        keys.push(k);
        i = i + 1;
    }
    Ok(keys)
}

} // verus!
