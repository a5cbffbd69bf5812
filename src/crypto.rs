//! OpenSSL-compatible "Salted__" password encryption: an MD5-based
//! EVP_BytesToKey derivation feeding AES-256-CBC with PKCS#7 padding.
use base64::Engine;
use cipher::block_padding::Pkcs7;
use cipher::{BlockEncryptMut, KeyIvInit};
use md5::Digest;
use rand::TryRngCore;
use crate::json::append_bytes;
use vstd::prelude::*;
use vstd::string::StringSliceAdditionalSpecFns;

verus! {

/// What MD5 yields for a message.
pub uninterp spec fn md5_of(data: Seq<u8>) -> Seq<u8>;

/// What AES-256 in CBC mode with PKCS#7 padding yields for `(key, iv, data)`.
pub uninterp spec fn aes256_cbc_pkcs7_of(key: Seq<u8>, iv: Seq<u8>, data: Seq<u8>) -> Seq<u8>;

/// The standard (padded, `+/`) base64 text of some bytes.
pub uninterp spec fn base64_of(data: Seq<u8>) -> Seq<char>;

/// Length of the derived key.
pub const KEY_LEN: usize = 32;

/// Length of the derived initialisation vector.
pub const IV_LEN: usize = 16;

/// Length of the random salt.
pub const SALT_LEN: usize = 8;

/// Digest block `i` (1-based) of the derivation:
/// `D_1 = md5(password || salt)`, `D_i = md5(D_{i-1} || password || salt)`.
pub open spec fn evp_block(password: Seq<u8>, salt: Seq<u8>, i: nat) -> Seq<u8>
    decreases i,
{
    if i <= 1 {
        md5_of(password + salt)
    } else {
        md5_of(evp_block(password, salt, (i - 1) as nat) + password + salt)
    }
}

/// The concatenation `D_1 || ... || D_n`.
pub open spec fn evp_stream(password: Seq<u8>, salt: Seq<u8>, n: nat) -> Seq<u8>
    decreases n,
{
    if n == 0 {
        Seq::empty()
    } else {
        evp_stream(password, salt, (n - 1) as nat) + evp_block(password, salt, n)
    }
}

/// The 48 derived bytes: the key is the first 32, the IV the next 16.
pub open spec fn evp_key_iv(password: Seq<u8>, salt: Seq<u8>) -> Seq<u8> {
    evp_stream(password, salt, 3).take(48)
}

/// The bytes "Salted__".
pub open spec fn salted_magic() -> Seq<u8> {
    seq![83u8, 97u8, 108u8, 116u8, 101u8, 100u8, 95u8, 95u8]
}

/// The full container for `plaintext` under `password` with a given salt.
pub open spec fn salted_container(plaintext: Seq<u8>, password: Seq<u8>, salt: Seq<u8>) -> Seq<u8> {
    let kiv = evp_key_iv(password, salt);
    salted_magic() + salt + aes256_cbc_pkcs7_of(kiv.take(32), kiv.subrange(32, 48), plaintext)
}

/// Relies on `md5::Md5::digest` (md-5): the 16-byte MD5 digest of `data`.
#[verifier::external_body]
fn md5_digest(data: &[u8]) -> (r: Vec<u8>)
    ensures
        r@ == md5_of(data@),
        r@.len() == 16,
{
    md5::Md5::digest(data).to_vec()
}

/// Relies on `cbc::Encryptor::<aes::Aes256>` with `encrypt_padded_vec_mut::<Pkcs7>`:
/// AES-256-CBC encryption with PKCS#7 padding. Key and IV of other lengths panic there.
#[verifier::external_body]
fn aes256_cbc_encrypt(key: &[u8], iv: &[u8], data: &[u8]) -> (r: Vec<u8>)
    requires
        key@.len() == 32,
        iv@.len() == 16,
    ensures
        r@ == aes256_cbc_pkcs7_of(key@, iv@, data@),
        r@.len() == 16 * (data@.len() / 16 + 1),
{
    cbc::Encryptor::<aes::Aes256>::new(key.into(), iv.into()).encrypt_padded_vec_mut::<Pkcs7>(data)
}

/// Relies on `base64::engine::general_purpose::STANDARD.encode`.
#[verifier::external_body]
fn base64_encode(data: &[u8]) -> (r: String)
    ensures
        r@ == base64_of(data@),
        r@.len() == 4 * ((data@.len() + 2) / 3),
{
    base64::engine::general_purpose::STANDARD.encode(data)
}

/// Relies on `rand::rngs::OsRng::try_fill_bytes`: eight bytes from the operating
/// system's secure random source, or `None` where that source failed.
#[verifier::external_body]
pub(crate) fn os_random_salt() -> (r: Option<[u8; 8]>)
{
    let mut salt = [0u8; 8];
    match rand::rngs::OsRng.try_fill_bytes(&mut salt) {
        Ok(()) => Some(salt),
        Err(_) => None,
    }
}

/// EVP_BytesToKey with MD5 and one iteration: returns `(key, iv)` of 32 and 16 bytes.
pub fn evp_bytes_to_key(password: &[u8], salt: &[u8]) -> (r: (Vec<u8>, Vec<u8>))
    ensures
        r.0@ == evp_key_iv(password@, salt@).take(32),
        r.1@ == evp_key_iv(password@, salt@).subrange(32, 48),
        r.0@ == evp_block(password@, salt@, 1) + evp_block(password@, salt@, 2),
        r.1@ == evp_block(password@, salt@, 3),
        r.0@.len() == 32,
        r.1@.len() == 16,
{
    let mut key_iv: Vec<u8> = Vec::new();
    let mut prev: Vec<u8> = Vec::new();
    let mut n: usize = 0;
    while key_iv.len() < 48
        invariant
            n <= 3,
            key_iv@ == evp_stream(password@, salt@, n as nat),
            key_iv@.len() == 16 * n,
            n > 0 ==> prev@ == evp_block(password@, salt@, n as nat),
            n == 0 ==> prev@.len() == 0,
            n >= 1 ==> evp_block(password@, salt@, 1).len() == 16,
            n >= 2 ==> evp_block(password@, salt@, 2).len() == 16,
            n >= 3 ==> evp_block(password@, salt@, 3).len() == 16,
        decreases 3 - n,
    {
        let mut msg: Vec<u8> = Vec::new();
        append_bytes(&mut msg, prev.as_slice());
        append_bytes(&mut msg, password);
        append_bytes(&mut msg, salt);
        prev = md5_digest(msg.as_slice());
        proof {
            if n == 0 {
                assert(msg@ == password@ + salt@);
            }
        }
        append_bytes(&mut key_iv, prev.as_slice());
        n += 1;
    }
    proof {
        let b1 = evp_block(password@, salt@, 1);
        let b2 = evp_block(password@, salt@, 2);
        let b3 = evp_block(password@, salt@, 3);
        assert(evp_stream(password@, salt@, 0) == Seq::<u8>::empty());
        assert(evp_stream(password@, salt@, 1) =~= b1);
        assert(evp_stream(password@, salt@, 2) =~= b1 + b2);
        assert(evp_stream(password@, salt@, 3) =~= b1 + b2 + b3);
        assert(key_iv@.take(32) =~= b1 + b2);
        assert(key_iv@.subrange(32, 48) =~= b3);
    }
    let mut key: Vec<u8> = Vec::new();
    let mut iv: Vec<u8> = Vec::new();
    let mut i: usize = 0;
    while i < 48
        invariant
            key_iv@.len() == 48,
            i <= 48,
            key@ == key_iv@.take(if i < 32 { i as int } else { 32 }),
            i >= 32 ==> iv@ == key_iv@.subrange(32, i as int),
            i < 32 ==> iv@.len() == 0,
        decreases 48 - i,
    {
        if i < 32 {
            key.push(key_iv[i]);
        } else {
            iv.push(key_iv[i]);
        }
        i += 1;
    }
    assert(key_iv@.take(48) == key_iv@);
    (key, iv)
}

/// The length of the base64 container of a plaintext of `n` bytes: eight bytes
/// of magic, eight of salt and the padded ciphertext, in base64.
pub open spec fn sealed_len(n: nat) -> nat {
    4 * ((16 + 16 * (n / 16 + 1) + 2) / 3)
}

/// The base64 "Salted__" container of the bytes `plaintext` under `password` and `salt`.
pub fn seal(plaintext: &[u8], password: &[u8], salt: &[u8; 8]) -> (r: String)
    ensures
        r@ == base64_of(salted_container(plaintext@, password@, salt@)),
        r@.len() == sealed_len(plaintext@.len()),
{
    let (key, iv) = evp_bytes_to_key(password, salt.as_slice());
    let ciphertext = aes256_cbc_encrypt(key.as_slice(), iv.as_slice(), plaintext);
    let mut out: Vec<u8> = vec![83u8, 97u8, 108u8, 116u8, 101u8, 100u8, 95u8, 95u8];
    append_bytes(&mut out, salt.as_slice());
    append_bytes(&mut out, ciphertext.as_slice());
    assert(out@ =~= salted_container(plaintext@, password@, salt@));
    base64_encode(out.as_slice())
}

/// The base64 "Salted__" container of `plaintext` under `password` and the given salt.
pub fn encrypt_with_salt(plaintext: &str, password: &str, salt: &[u8; 8]) -> (r: String)
    ensures
        r@ == base64_of(salted_container(plaintext.spec_bytes(), password.spec_bytes(), salt@)),
        r@.len() == sealed_len(plaintext.spec_bytes().len()),
{
    seal(plaintext.as_bytes(), password.as_bytes(), salt)
}

/// Encrypts `plaintext` under `password` with a fresh random salt; `None` when the
/// operating system's random source fails.
pub fn encrypt(plaintext: &str, password: &str) -> (r: Option<String>)
    ensures
        r matches Some(s) ==> exists|salt: Seq<u8>|
            salt.len() == 8 && s@ == base64_of(
                salted_container(plaintext.spec_bytes(), password.spec_bytes(), salt),
            ),
        r matches Some(s) ==> s@.len() == sealed_len(plaintext.spec_bytes().len()),
{
    match os_random_salt() {
        Some(salt) => Some(encrypt_with_salt(plaintext, password, &salt)),
        None => None,
    }
}

} // verus!
