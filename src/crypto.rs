//! The decryption and encryption pipelines shared by pastes and comments.
use vstd::prelude::*;
use vstd::string::*;
use vstd::utf8::encode_utf8;
use crate::aead::{aes256_gcm_seal, is_sealed_plaintext, nonce_len_supported, open, seal, A_MAX, OPEN_CT_LIMIT, SEAL_MSG_LIMIT};
use crate::compression::{compress, decompress, deflate_of, inflate_of, is_decompression_of, COMPRESSION_LEVEL};
use crate::encoding::{base64_decode, base64_decoded, base64_encode, base64_of};
use crate::error::{PasteError, PbResult};
use crate::kdf::{derive_key, derived_key, kdf_accepts};
use crate::privatebin::Cipher;

verus! {

/// What a paste and a comment share for decryption: ciphertext, cipher
/// parameters and the serialized metadata that the encryption authenticated.
pub trait Decryptable {
    /// The ciphertext, as base64 text.
    spec fn ct_view(&self) -> Seq<char>;

    /// The cipher parameters.
    spec fn cipher_view(&self) -> Cipher;

    /// The serialized metadata (adata).
    spec fn adata_view(&self) -> Seq<char>;

    /// Get ciphertext. Borrowed, not copied, since it may be large.
    fn get_ct(&self) -> (r: &str)
        ensures
            r@ == self.ct_view(),
    ;

    /// Additional authenticated (but not encrypted) data. Sensitive to any
    /// change of formatting.
    fn get_adata_str(&self) -> (r: String)
        ensures
            r@ == self.adata_view(),
    ;

    /// Cipher parameters.
    fn get_cipher(&self) -> (r: &Cipher)
        ensures
            *r == self.cipher_view(),
    ;
}

/// The only algorithm, mode and key size with a codec path: AES-256 in GCM mode.
pub open spec fn cipher_supported(c: Cipher) -> bool {
    &&& c.cipher_algo@ == "aes"@
    &&& c.cipher_mode@ == "gcm"@
    &&& c.kdf_keysize == 256
}

/// `r` is the outcome of opening `ct` and inflating what it held: the payload
/// when some plaintext sealed `ct`, an authentication error when none did.
pub open spec fn is_payload_recovery(r: PbResult<Vec<u8>>, key: Seq<u8>, nonce: Seq<u8>, aad: Seq<u8>, ct: Seq<u8>) -> bool {
    &&& forall|m: Seq<u8>| #[trigger] is_sealed_plaintext(key, nonce, aad, ct, m) ==> is_decompression_of(r, m)
    &&& (forall|m: Seq<u8>| !is_sealed_plaintext(key, nonce, aad, ct, m)) ==> r matches Err(PasteError::Aes(_))
}

/// `r` is what `decrypt_with_password` returns for a record with ciphertext
/// text `ct`, parameters `c` and metadata `adata`, under the shared secret and
/// the password. Steps in order: decode the salt, derive the key, check the
/// cipher, decode ciphertext and nonce, check their sizes, open, inflate.
pub open spec fn is_decryption(
    r: PbResult<Vec<u8>>,
    ct: Seq<char>,
    c: Cipher,
    adata: Seq<char>,
    secret: Seq<u8>,
    password: Seq<char>,
) -> bool {
    match base64_decoded(c.kdf_salt@) {
        None => r matches Err(PasteError::Base64Error(_)),
        Some(salt) => if !kdf_accepts(c.kdf_iterations, salt, secret, password) {
            r matches Err(PasteError::InvalidData)
        } else if !cipher_supported(c) {
            r matches Err(PasteError::CipherNotImplemented { cipher_algo, cipher_mode, keysize })
                && cipher_algo == c.cipher_algo && cipher_mode == c.cipher_mode && keysize == c.kdf_keysize
        } else {
            match base64_decoded(ct) {
                None => r matches Err(PasteError::Base64Error(_)),
                Some(ct_bytes) => match base64_decoded(c.cipher_iv@) {
                    None => r matches Err(PasteError::Base64Error(_)),
                    Some(nonce) => if !nonce_len_supported(nonce.len()) || ct_bytes.len() >= OPEN_CT_LIMIT {
                        r matches Err(PasteError::InvalidData)
                    } else {
                        is_payload_recovery(
                            r,
                            derived_key(c.kdf_iterations, salt, secret, password),
                            nonce,
                            encode_utf8(adata),
                            ct_bytes,
                        )
                    },
                },
            }
        },
    }
}

/// A decryption either succeeds or fails: the same inputs never allow both.
pub proof fn lemma_decryption_outcome_kind(
    out: Vec<u8>,
    e: PasteError,
    ct: Seq<char>,
    c: Cipher,
    adata: Seq<char>,
    secret: Seq<u8>,
    password: Seq<char>,
)
    requires
        is_decryption(Ok::<Vec<u8>, PasteError>(out), ct, c, adata, secret, password),
    ensures
        !is_decryption(Err::<Vec<u8>, PasteError>(e), ct, c, adata, secret, password),
{
    let salt = base64_decoded(c.kdf_salt@)->Some_0;
    let nonce = base64_decoded(c.cipher_iv@)->Some_0;
    let ct_bytes = base64_decoded(ct)->Some_0;
    let key = derived_key(c.kdf_iterations, salt, secret, password);
    let aad = encode_utf8(adata);
    if is_decryption(Err::<Vec<u8>, PasteError>(e), ct, c, adata, secret, password) {
        if exists|m: Seq<u8>| is_sealed_plaintext(key, nonce, aad, ct_bytes, m) {
            let m = choose|m: Seq<u8>| is_sealed_plaintext(key, nonce, aad, ct_bytes, m);
            assert(is_decompression_of(Ok::<Vec<u8>, PasteError>(out), m));
            assert(is_decompression_of(Err::<Vec<u8>, PasteError>(e), m));
        }
    }
}

fn is_aes(s: &String) -> (r: bool)
    ensures
        r == (s@ == "aes"@),
{
    *s == String::from_str("aes")
}

fn is_gcm(s: &String) -> (r: bool)
    ensures
        r == (s@ == "gcm"@),
{
    *s == String::from_str("gcm")
}

/// Decrypts a paste or comment with the shared secret and a password (empty
/// for none) and returns the decompressed payload bytes. No plaintext is
/// returned unless the authentication tag verifies over the record's own
/// serialized metadata.
pub fn decrypt_with_password<D: Decryptable>(decryptable: &D, key: &[u8], password: &str) -> (r: PbResult<Vec<u8>>)
    ensures
        is_decryption(r, decryptable.ct_view(), decryptable.cipher_view(), decryptable.adata_view(), key@, password@),
{
    let cipher = decryptable.get_cipher();
    let salt = match cipher.vec_kdf_salt() {
        Ok(s) => s,
        Err(e) => return Err(e),
    };
    let derived = match derive_key(cipher.kdf_iterations, salt.as_slice(), key, password) {
        Some(k) => k,
        None => return Err(PasteError::InvalidData),
    };
    if !(is_aes(&cipher.cipher_algo) && is_gcm(&cipher.cipher_mode) && cipher.kdf_keysize == 256) {
        return Err(PasteError::CipherNotImplemented {
            cipher_algo: cipher.cipher_algo.clone(),
            cipher_mode: cipher.cipher_mode.clone(),
            keysize: cipher.kdf_keysize,
        });
    }
    decrypt_aes_256_gcm(decryptable, derived.as_slice())
}

fn decrypt_aes_256_gcm<D: Decryptable>(decryptable: &D, derived_key: &[u8]) -> (r: PbResult<Vec<u8>>)
    requires
        derived_key@.len() == 32,
    ensures
        match base64_decoded(decryptable.ct_view()) {
            None => r matches Err(PasteError::Base64Error(_)),
            Some(ct_bytes) => match base64_decoded(decryptable.cipher_view().cipher_iv@) {
                None => r matches Err(PasteError::Base64Error(_)),
                Some(nonce) => if !nonce_len_supported(nonce.len()) || ct_bytes.len() >= OPEN_CT_LIMIT {
                    r matches Err(PasteError::InvalidData)
                } else {
                    is_payload_recovery(r, derived_key@, nonce, encode_utf8(decryptable.adata_view()), ct_bytes)
                },
            },
        },
{
    let ciphertext = match base64_decode(decryptable.get_ct()) {
        Ok(c) => c,
        Err(e) => return Err(PasteError::Base64Error(e)),
    };
    let nonce = match decryptable.get_cipher().vec_cipher_iv() {
        Ok(n) => n,
        Err(e) => return Err(e),
    };
    if nonce.len() != 12 && nonce.len() != 16 || ciphertext.len() as u64 >= OPEN_CT_LIMIT {
        return Err(PasteError::InvalidData);
    }
    let adata_str = decryptable.get_adata_str();
    let data = match open(derived_key, nonce.as_slice(), adata_str.as_str().as_bytes(), ciphertext.as_slice()) {
        Ok(d) => d,
        Err(e) => return Err(PasteError::Aes(e)),
    };
    decompress(data.as_slice())
}

/// The inputs of an encryption fit the key derivation and the nonce has a codec path.
pub open spec fn encryption_accepts(secret: Seq<u8>, password: Seq<char>, salt: Seq<u8>, nonce: Seq<u8>, iterations: u32) -> bool {
    &&& kdf_accepts(iterations, salt, secret, password)
    &&& nonce_len_supported(nonce.len())
}

/// The compressed payload is short enough for AES-GCM's block counter.
pub open spec fn blob_fits_gcm(content: Seq<char>) -> bool {
    deflate_of(encode_utf8(content), COMPRESSION_LEVEL).len() < SEAL_MSG_LIMIT
}

/// The metadata text is within what AES-GCM authenticates.
pub open spec fn aad_fits_gcm(aad: Seq<char>) -> bool {
    encode_utf8(aad).len() <= A_MAX
}

/// The ciphertext of a payload: its DEFLATE stream sealed under the derived key,
/// authenticating the metadata text `aad`.
pub open spec fn sealed_payload(
    content: Seq<char>,
    secret: Seq<u8>,
    password: Seq<char>,
    salt: Seq<u8>,
    nonce: Seq<u8>,
    iterations: u32,
    aad: Seq<char>,
) -> Seq<u8> {
    aes256_gcm_seal(
        derived_key(iterations, salt, secret, password),
        nonce,
        encode_utf8(aad),
        deflate_of(encode_utf8(content), COMPRESSION_LEVEL),
    )
}

/// `r` is what `encrypt` returns for a payload.
pub open spec fn is_encryption(
    r: PbResult<Vec<u8>>,
    content: Seq<char>,
    secret: Seq<u8>,
    password: Seq<char>,
    salt: Seq<u8>,
    nonce: Seq<u8>,
    iterations: u32,
    aad: Seq<char>,
) -> bool {
    let blob = deflate_of(encode_utf8(content), COMPRESSION_LEVEL);
    if !encryption_accepts(secret, password, salt, nonce, iterations) || !blob_fits_gcm(content) {
        r matches Err(PasteError::InvalidData)
    } else {
        &&& inflate_of(blob) == Some(encode_utf8(content))
        &&& if aad_fits_gcm(aad) {
            r matches Ok(c) && c@ == sealed_payload(content, secret, password, salt, nonce, iterations, aad)
                && c@.len() == blob.len() + 16
        } else {
            r matches Err(PasteError::Aes(_))
        }
    }
}

/// Compresses the payload, derives the key from the shared secret and the
/// password, and seals the result with AES-256-GCM, authenticating `aad`. The
/// result is the compressed payload followed by the 16-byte tag.
pub fn encrypt(
    content: &str,
    key: &[u8],
    password: &str,
    salt: &[u8],
    nonce: &[u8],
    iterations: u32,
    aad: &str,
) -> (r: PbResult<Vec<u8>>)
    ensures
        is_encryption(r, content@, key@, password@, salt@, nonce@, iterations, aad@),
{
    let paste_blob = compress(content.as_bytes());
    let derived = match derive_key(iterations, salt, key, password) {
        Some(k) => k,
        None => return Err(PasteError::InvalidData),
    };
    if nonce.len() != 12 && nonce.len() != 16 || paste_blob.len() as u64 >= SEAL_MSG_LIMIT {
        return Err(PasteError::InvalidData);
    }
    match seal(derived.as_slice(), nonce, aad.as_bytes(), paste_blob.as_slice()) {
        Ok(c) => Ok(c),
        Err(e) => Err(PasteError::Aes(e)),
    }
}

/// `r` is what `encrypt_record` returns: the base64 text of what `encrypt`
/// gives with the salt and nonce that the parameters `c` hold, or its error.
pub open spec fn is_record_encryption(
    r: PbResult<String>,
    content: Seq<char>,
    secret: Seq<u8>,
    password: Seq<char>,
    c: Cipher,
    aad: Seq<char>,
) -> bool {
    match base64_decoded(c.kdf_salt@) {
        None => r matches Err(PasteError::Base64Error(_)),
        Some(salt) => match base64_decoded(c.cipher_iv@) {
            None => r matches Err(PasteError::Base64Error(_)),
            Some(nonce) => if !encryption_accepts(secret, password, salt, nonce, c.kdf_iterations) || !blob_fits_gcm(content) {
                r matches Err(PasteError::InvalidData)
            } else {
                let blob = deflate_of(encode_utf8(content), COMPRESSION_LEVEL);
                let ct = sealed_payload(content, secret, password, salt, nonce, c.kdf_iterations, aad);
                &&& inflate_of(blob) == Some(encode_utf8(content))
                &&& if aad_fits_gcm(aad) {
                    r matches Ok(t) && t@ == base64_of(ct) && base64_decoded(t@) == Some(ct) && ct.len() == blob.len() + 16
                } else {
                    r matches Err(PasteError::Aes(_))
                }
            },
        },
    }
}

/// Encrypts `content` for a record with cipher parameters `cipher` whose
/// serialized metadata is `aad`, and returns the ciphertext as base64 text.
pub fn encrypt_record(content: &str, secret: &[u8], password: &str, cipher: &Cipher, aad: &str) -> (r: PbResult<String>)
    ensures
        is_record_encryption(r, content@, secret@, password@, *cipher, aad@),
{
    let salt = match cipher.vec_kdf_salt() {
        Ok(s) => s,
        Err(e) => return Err(e),
    };
    let nonce = match cipher.vec_cipher_iv() {
        Ok(n) => n,
        Err(e) => return Err(e),
    };
    match encrypt(content, secret, password, salt.as_slice(), nonce.as_slice(), cipher.kdf_iterations, aad) {
        Ok(ct) => Ok(base64_encode(ct.as_slice())),
        Err(err) => Err(err),
    }
}

/// Round trip: a record whose ciphertext text is what `encrypt_record` produced
/// for `content` under its own cipher parameters and its own serialized
/// metadata decrypts, with the same shared secret and password (the empty one
/// included), back to the bytes of `content`.
pub proof fn lemma_round_trip<D: Decryptable>(
    record: D,
    content: Seq<char>,
    secret: Seq<u8>,
    password: Seq<char>,
    sealed: PbResult<String>,
    opened: PbResult<Vec<u8>>,
)
    requires
        is_record_encryption(sealed, content, secret, password, record.cipher_view(), record.adata_view()),
        sealed matches Ok(t) && t@ == record.ct_view(),
        cipher_supported(record.cipher_view()),
        is_decryption(opened, record.ct_view(), record.cipher_view(), record.adata_view(), secret, password),
    ensures
        opened matches Ok(p) && p@ == encode_utf8(content),
{
    let c = record.cipher_view();
    let salt = base64_decoded(c.kdf_salt@)->Some_0;
    let nonce = base64_decoded(c.cipher_iv@)->Some_0;
    let key = derived_key(c.kdf_iterations, salt, secret, password);
    let blob = deflate_of(encode_utf8(content), COMPRESSION_LEVEL);
    let ct = sealed_payload(content, secret, password, salt, nonce, c.kdf_iterations, record.adata_view());
    assert(is_sealed_plaintext(key, nonce, encode_utf8(record.adata_view()), ct, blob));
}

/// Decryption returns only authenticated plaintext: whenever it succeeds, the
/// decoded ciphertext is exactly the AES-256-GCM sealing, under the derived key,
/// the record's own nonce and the record's own serialized metadata, of a DEFLATE
/// stream that inflates to the returned payload. A changed ciphertext, tag,
/// nonce or metadata text yields a payload only if it is itself such a sealing.
pub proof fn lemma_decryption_is_authenticated<D: Decryptable>(
    record: D,
    secret: Seq<u8>,
    password: Seq<char>,
    opened: PbResult<Vec<u8>>,
)
    requires
        is_decryption(opened, record.ct_view(), record.cipher_view(), record.adata_view(), secret, password),
        opened is Ok,
    ensures
        ({
            let c = record.cipher_view();
            let salt = base64_decoded(c.kdf_salt@)->Some_0;
            let nonce = base64_decoded(c.cipher_iv@)->Some_0;
            let ct = base64_decoded(record.ct_view())->Some_0;
            let key = derived_key(c.kdf_iterations, salt, secret, password);
            exists|m: Seq<u8>| #[trigger] is_sealed_plaintext(key, nonce, encode_utf8(record.adata_view()), ct, m)
                && inflate_of(m) == Some(opened->Ok_0@)
        }),
{
    let c = record.cipher_view();
    let salt = base64_decoded(c.kdf_salt@)->Some_0;
    let nonce = base64_decoded(c.cipher_iv@)->Some_0;
    let ct = base64_decoded(record.ct_view())->Some_0;
    let key = derived_key(c.kdf_iterations, salt, secret, password);
    let aad = encode_utf8(record.adata_view());
    if !exists|m: Seq<u8>| is_sealed_plaintext(key, nonce, aad, ct, m) {
        assert(false);
    }
    let m = choose|m: Seq<u8>| is_sealed_plaintext(key, nonce, aad, ct, m);
    assert(is_decompression_of(opened, m));
}

} // verus!
