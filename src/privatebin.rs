//! Paste and comment records, their positional metadata encoding, and the per-record decrypt and encrypt operations.
use vstd::prelude::*;
use vstd::string::*;
use crate::crypto::{lemma_decryption_outcome_kind, aad_fits_gcm, blob_fits_gcm, decrypt_with_password, encrypt_record, is_decryption, is_record_encryption, lemma_round_trip, Decryptable};
use crate::encoding::{base58_decode, base58_decoded, base58_encode, base64_decode, base64_decoded, base64_encode, base64_of, decimal, json_string, json_string_of, push_decimal};
use crate::random::{random_bytes, seeded_rng};
use crate::kdf::KDF_INPUT_LIMIT;
use vstd::utf8::encode_utf8;
use crate::error::{PasteError, PbResult};

verus! {

/// How the payload is compressed before encryption.
#[derive(Debug, Clone, Copy, PartialEq, Eq, Structural)]
pub enum CompressionType {
    Uncompressed,
    Zlib,
}

/// How a paste's text is meant to be displayed.
#[derive(Debug, Clone, Copy, PartialEq, Eq, Structural)]
pub enum PasteFormat {
    Plaintext,
    Syntax,
    Markdown,
}

/// Server-side bookkeeping of a paste or comment; every field may be absent.
#[derive(Debug)]
pub struct Meta {
    pub created: Option<i32>,
    pub expire: Option<String>,
    pub time_to_live: Option<i32>,
    pub icon: Option<String>,
}

/// Cipher parameters of one record. The nonce and the salt are held as base64 text.
#[derive(Debug)]
pub struct Cipher {
    pub cipher_iv: String,
    pub kdf_salt: String,
    pub kdf_iterations: u32,
    pub kdf_keysize: u32,
    pub cipher_tag_size: u32,
    pub cipher_algo: String,
    pub cipher_mode: String,
    pub compression_type: CompressionType,
}

/// The authenticated metadata ("adata") of a paste: its cipher parameters and flags.
#[derive(Debug)]
pub struct Data {
    pub cipher: Cipher,
    pub format: PasteFormat,
    pub discuss: u8,
    pub burn: u8,
}

/// An encrypted paste as the service stores it.
#[derive(Debug)]
pub struct Paste {
    pub status: Option<i32>,
    pub id: String,
    pub url: Option<String>,
    pub v: i32,
    pub ct: String,
    pub meta: Meta,
    pub adata: Data,
    pub comments: Option<Vec<Comment>>,
}

/// An encrypted comment on a paste; its cipher parameters are its whole adata.
#[derive(Debug)]
pub struct Comment {
    pub id: String,
    pub pasteid: String,
    pub parentid: String,
    pub v: i32,
    pub ct: String,
    pub meta: Meta,
    pub adata: Cipher,
}

/// The plaintext of a paste.
#[derive(Debug)]
pub struct DecryptedPaste {
    pub paste: String,
    pub attachment: Option<String>,
    pub attachment_name: Option<String>,
}

/// The plaintext of a comment.
#[derive(Debug)]
pub struct DecryptedComment {
    pub comment: String,
    pub nickname: Option<String>,
}

/// The service's answer to a new comment.
#[derive(Debug)]
pub struct PostCommentResponse {
    pub id: String,
    pub status: u32,
    pub url: String,
}

/// Wire name of a compression type, as a JSON string.
pub open spec fn compression_json(c: CompressionType) -> Seq<char> {
    match c {
        CompressionType::Uncompressed => "\"none\""@,
        CompressionType::Zlib => "\"zlib\""@,
    }
}

/// Wire name of a paste format, as a JSON string.
pub open spec fn format_json(f: PasteFormat) -> Seq<char> {
    match f {
        PasteFormat::Plaintext => "\"plaintext\""@,
        PasteFormat::Syntax => "\"syntaxhighlighting\""@,
        PasteFormat::Markdown => "\"markdown\""@,
    }
}

/// The cipher parameters as the fixed eight-element JSON array, in wire order:
/// nonce, salt, iterations, key size, tag size, algorithm, mode, compression.
pub open spec fn cipher_json(c: Cipher) -> Seq<char> {
    "["@ + json_string_of(c.cipher_iv@) + ","@ + json_string_of(c.kdf_salt@) + ","@
        + decimal(c.kdf_iterations as nat) + ","@ + decimal(c.kdf_keysize as nat) + ","@
        + decimal(c.cipher_tag_size as nat) + ","@ + json_string_of(c.cipher_algo@) + ","@
        + json_string_of(c.cipher_mode@) + ","@ + compression_json(c.compression_type) + "]"@
}

/// A paste's adata as the fixed four-element JSON array, in wire order:
/// cipher parameters, format, discussion flag, burn flag.
pub open spec fn data_json(d: Data) -> Seq<char> {
    "["@ + cipher_json(d.cipher) + ","@ + format_json(d.format) + ","@
        + decimal(d.discuss as nat) + ","@ + decimal(d.burn as nat) + "]"@
}

impl CompressionType {
    /// The wire name, as a JSON string.
    pub fn to_json(&self) -> (r: &'static str)
        ensures
            r@ == compression_json(*self),
    {
        match self {
            CompressionType::Uncompressed => "\"none\"",
            CompressionType::Zlib => "\"zlib\"",
        }
    }
}

impl PasteFormat {
    /// The wire name, as a JSON string.
    pub fn to_json(&self) -> (r: &'static str)
        ensures
            r@ == format_json(*self),
    {
        match self {
            PasteFormat::Plaintext => "\"plaintext\"",
            PasteFormat::Syntax => "\"syntaxhighlighting\"",
            PasteFormat::Markdown => "\"markdown\"",
        }
    }
}

impl Cipher {
    /// Serializes the parameters as a positional JSON array; this exact text is
    /// what a comment's encryption authenticates.
    pub fn serialize(&self) -> (r: String)
        ensures
            r@ == cipher_json(*self),
    {
        let mut out = String::from_str("[");
        out.append(json_string(self.cipher_iv.as_str()).as_str());
        out.append(",");
        out.append(json_string(self.kdf_salt.as_str()).as_str());
        out.append(",");
        push_decimal(&mut out, self.kdf_iterations);
        out.append(",");
        push_decimal(&mut out, self.kdf_keysize);
        out.append(",");
        push_decimal(&mut out, self.cipher_tag_size);
        out.append(",");
        out.append(json_string(self.cipher_algo.as_str()).as_str());
        out.append(",");
        out.append(json_string(self.cipher_mode.as_str()).as_str());
        out.append(",");
        out.append(self.compression_type.to_json());
        out.append("]");
        out
    }
}

/// `r` is what decoding the base64 text `t` gives: its bytes, or the decoder's error.
pub open spec fn is_base64_decoding(r: PbResult<Vec<u8>>, t: Seq<char>) -> bool {
    match base64_decoded(t) {
        Some(b) => r matches Ok(v) && v@ == b,
        None => r matches Err(PasteError::Base64Error(_)),
    }
}

impl Cipher {
    /// The nonce as bytes.
    pub fn vec_cipher_iv(&self) -> (r: PbResult<Vec<u8>>)
        ensures
            is_base64_decoding(r, self.cipher_iv@),
    {
        match base64_decode(self.cipher_iv.as_str()) {
            Ok(v) => Ok(v),
            Err(e) => Err(PasteError::Base64Error(e)),
        }
    }

    /// The key-derivation salt as bytes.
    pub fn vec_kdf_salt(&self) -> (r: PbResult<Vec<u8>>)
        ensures
            is_base64_decoding(r, self.kdf_salt@),
    {
        match base64_decode(self.kdf_salt.as_str()) {
            Ok(v) => Ok(v),
            Err(e) => Err(PasteError::Base64Error(e)),
        }
    }
}

impl Data {
    /// Serializes the adata as a positional JSON array; this exact text is what
    /// a paste's encryption authenticates.
    pub fn serialize(&self) -> (r: String)
        ensures
            r@ == data_json(*self),
    {
        let mut out = String::from_str("[");
        out.append(self.cipher.serialize().as_str());
        out.append(",");
        out.append(self.format.to_json());
        out.append(",");
        push_decimal(&mut out, self.discuss as u32);
        out.append(",");
        push_decimal(&mut out, self.burn as u32);
        out.append("]");
        out
    }
}

impl Decryptable for Paste {
    open spec fn ct_view(&self) -> Seq<char> {
        self.ct@
    }

    open spec fn cipher_view(&self) -> Cipher {
        self.adata.cipher
    }

    open spec fn adata_view(&self) -> Seq<char> {
        data_json(self.adata)
    }

    fn get_ct(&self) -> (r: &str) {
        self.ct.as_str()
    }

    fn get_adata_str(&self) -> (r: String) {
        self.adata.serialize()
    }

    fn get_cipher(&self) -> (r: &Cipher) {
        &self.adata.cipher
    }
}

impl Decryptable for Comment {
    open spec fn ct_view(&self) -> Seq<char> {
        self.ct@
    }

    open spec fn cipher_view(&self) -> Cipher {
        self.adata
    }

    open spec fn adata_view(&self) -> Seq<char> {
        cipher_json(self.adata)
    }

    fn get_ct(&self) -> (r: &str) {
        self.ct.as_str()
    }

    fn get_adata_str(&self) -> (r: String) {
        self.adata.serialize()
    }

    fn get_cipher(&self) -> (r: &Cipher) {
        &self.adata
    }
}

/// `r` is what decrypting record `d` gives under the base58 key text and the password.
pub open spec fn is_keyed_decryption<D: Decryptable>(r: PbResult<Vec<u8>>, d: D, bs58_key: Seq<char>, password: Seq<char>) -> bool {
    match base58_decoded(bs58_key) {
        None => r matches Err(PasteError::Base58Error(_)),
        Some(secret) => is_decryption(r, d.ct_view(), d.cipher_view(), d.adata_view(), secret, password),
    }
}

/// The comments of a paste, the empty list when it has none.
pub open spec fn comment_list(p: Paste) -> Seq<Comment> {
    match p.comments {
        Some(v) => v@,
        None => Seq::empty(),
    }
}

/// Decrypting record `d` under the shared secret and the password gives some payload.
pub open spec fn decrypts_with<D: Decryptable>(d: D, secret: Seq<u8>, password: Seq<char>) -> bool {
    exists|out: Vec<u8>| is_decryption(Ok::<Vec<u8>, PasteError>(out), d.ct_view(), d.cipher_view(), d.adata_view(), secret, password)
}

/// `v` lists, in list order, exactly the comments of `cs` that decrypt under the
/// secret and the password, each id with its payload; the others are left out.
pub open spec fn is_comment_payloads(v: Seq<(String, Vec<u8>)>, cs: Seq<Comment>, secret: Seq<u8>, password: Seq<char>) -> bool
    decreases cs.len(),
{
    if cs.len() == 0 {
        v.len() == 0
    } else if decrypts_with(cs.last(), secret, password) {
        &&& v.len() > 0
        &&& v.last().0@ == cs.last().id@
        &&& is_decryption(Ok::<Vec<u8>, PasteError>(v.last().1), cs.last().ct@, cs.last().adata, cipher_json(cs.last().adata), secret, password)
        &&& is_comment_payloads(v.drop_last(), cs.drop_last(), secret, password)
    } else {
        is_comment_payloads(v, cs.drop_last(), secret, password)
    }
}

/// `r` is what decrypting the comments of `p` gives: an error only when the key
/// text is not base58; otherwise the comments that decrypt, in list order, with
/// their payloads. A comment that does not decrypt is left out, so that a thread
/// shows it as a placeholder.
pub open spec fn is_comments_decryption(r: PbResult<Vec<(String, Vec<u8>)>>, p: Paste, bs58_key: Seq<char>, password: Seq<char>) -> bool {
    match base58_decoded(bs58_key) {
        None => r matches Err(PasteError::Base58Error(_)),
        Some(secret) => r matches Ok(v) && is_comment_payloads(v@, comment_list(p), secret, password),
    }
}

impl Paste {
    /// Decrypts the paste with the base58 key text and no password; the result
    /// is the payload (the JSON text of the paste body and attachment).
    pub fn decrypt(&self, bs58_key: &str) -> (r: PbResult<Vec<u8>>)
        ensures
            is_keyed_decryption(r, *self, bs58_key@, Seq::empty()),
    {
        proof {
            reveal_strlit("");
        }
        self.decrypt_with_password(bs58_key, "")
    }

    /// Decrypts the paste with the base58 key text and a password.
    pub fn decrypt_with_password(&self, bs58_key: &str, password: &str) -> (r: PbResult<Vec<u8>>)
        ensures
            is_keyed_decryption(r, *self, bs58_key@, password@),
    {
        let key = match base58_decode(bs58_key) {
            Ok(k) => k,
            Err(e) => return Err(PasteError::Base58Error(e)),
        };
        decrypt_with_password(self, key.as_slice(), password)
    }

    /// Decrypts every comment with the base58 key text and no password.
    pub fn decrypt_comments(&self, bs58_key: &str) -> (r: PbResult<Vec<(String, Vec<u8>)>>)
        ensures
            is_comments_decryption(r, *self, bs58_key@, Seq::empty()),
    {
        proof {
            reveal_strlit("");
            assert(""@ =~= Seq::<char>::empty());
        }
        self.decrypt_comments_with_password(bs58_key, "")
    }

    /// Decrypts the comments, in list order, with the base58 key text and a
    /// password; a comment that does not decrypt is left out.
    pub fn decrypt_comments_with_password(&self, bs58_key: &str, password: &str) -> (r: PbResult<Vec<(String, Vec<u8>)>>)
        ensures
            is_comments_decryption(r, *self, bs58_key@, password@),
    {
        let key = match base58_decode(bs58_key) {
            Ok(k) => k,
            Err(e) => return Err(PasteError::Base58Error(e)),
        };
        let mut decrypted: Vec<(String, Vec<u8>)> = Vec::new();
        match &self.comments {
            None => Ok(decrypted),
            Some(comments) => {
                let ghost cs = comment_list(*self);
                let mut i: usize = 0;
                while i < comments.len()
                    invariant
                        cs == comments@,
                        i <= comments.len(),
                        is_comment_payloads(decrypted@, cs.take(i as int), key@, password@),
                    decreases comments.len() - i,
                {
                    let comment = &comments[i];
                    let ghost before = decrypted@;
                    proof {
                        assert(cs.take(i + 1).drop_last() =~= cs.take(i as int));
                        assert(cs.take(i + 1).last() == cs[i as int]);
                    }
                    match decrypt_with_password(comment, key.as_slice(), password) {
                        Ok(payload) => {
                            decrypted.push((comment.id.clone(), payload));
                            proof {
                                assert(decrypted@.drop_last() =~= before);
                                assert(decrypts_with(cs[i as int], key@, password@));
                            }
                        },
                        Err(e) => {
                            proof {
                                if decrypts_with(cs[i as int], key@, password@) {
                                    let out = choose|out: Vec<u8>| is_decryption(Ok::<Vec<u8>, PasteError>(out), comment.ct@, comment.adata, cipher_json(comment.adata), key@, password@);
                                    lemma_decryption_outcome_kind(out, e, comment.ct@, comment.adata, cipher_json(comment.adata), key@, password@);
                                }
                            }
                        },
                    }
                    i += 1;
                }
                proof {
                    assert(cs.take(cs.len() as int) =~= cs);
                }
                Ok(decrypted)
            },
        }
    }
}

impl Comment {
    /// Decrypts the comment with the base58 key text and no password.
    pub fn decrypt(&self, bs58_key: &str) -> (r: PbResult<Vec<u8>>)
        ensures
            is_keyed_decryption(r, *self, bs58_key@, Seq::empty()),
    {
        proof {
            reveal_strlit("");
        }
        self.decrypt_with_password(bs58_key, "")
    }

    /// Decrypts the comment with the base58 key text and a password.
    pub fn decrypt_with_password(&self, bs58_key: &str, password: &str) -> (r: PbResult<Vec<u8>>)
        ensures
            is_keyed_decryption(r, *self, bs58_key@, password@),
    {
        let key = match base58_decode(bs58_key) {
            Ok(k) => k,
            Err(e) => return Err(PasteError::Base58Error(e)),
        };
        decrypt_with_password(self, key.as_slice(), password)
    }
}

/// Iteration count of the key derivation for new records.
pub const KDF_ITERATIONS: u32 = 100000;

/// Length in bytes of the shared secret of a new paste.
pub const SECRET_LEN: usize = 32;

/// Length in bytes of the key-derivation salt of a new record.
pub const SALT_LEN: usize = 8;

/// Length in bytes of the nonce of a new record.
pub const NONCE_LEN: usize = 16;

/// The parameters given to new records: AES-256-GCM with a 128-bit tag,
/// PBKDF2 over 100000 rounds, zlib compression, and salt and nonce held as base64.
pub open spec fn is_standard_cipher(c: Cipher, salt: Seq<u8>, nonce: Seq<u8>) -> bool {
    &&& c.kdf_salt@ == base64_of(salt)
    &&& c.cipher_iv@ == base64_of(nonce)
    &&& base64_decoded(c.kdf_salt@) == Some(salt)
    &&& base64_decoded(c.cipher_iv@) == Some(nonce)
    &&& c.kdf_iterations == KDF_ITERATIONS
    &&& c.kdf_keysize == 256
    &&& c.cipher_tag_size == 128
    &&& c.cipher_algo@ == "aes"@
    &&& c.cipher_mode@ == "gcm"@
    &&& c.compression_type == CompressionType::Zlib
}

impl Cipher {
    /// The parameters of a new record with the given salt and nonce.
    pub fn new(salt: &[u8], nonce: &[u8]) -> (r: Cipher)
        ensures
            is_standard_cipher(r, salt@, nonce@),
    {
        Cipher {
            cipher_iv: base64_encode(nonce),
            kdf_salt: base64_encode(salt),
            kdf_iterations: KDF_ITERATIONS,
            kdf_keysize: 256,
            cipher_tag_size: 128,
            cipher_algo: String::from_str("aes"),
            cipher_mode: String::from_str("gcm"),
            compression_type: CompressionType::Zlib,
        }
    }
}

/// The flags of a new paste as the service stores them: 1 for on, 0 for off.
pub open spec fn flag_byte(b: bool) -> u8 {
    if b { 1 } else { 0 }
}

/// `p` is a new, not yet posted paste: version 2, the given metadata and expiry,
/// no id, no comments.
pub open spec fn is_unposted_paste(p: Paste, adata: Data, expire: String) -> bool {
    &&& p.v == 2
    &&& p.adata == adata
    &&& p.id@ == Seq::<char>::empty()
    &&& p.status is None
    &&& p.url is None
    &&& p.comments is None
    &&& p.meta.expire == Some(expire)
    &&& p.meta.created is None
    &&& p.meta.time_to_live is None
    &&& p.meta.icon is None
}

/// `r` is what encrypting a new paste gives: the paste with `content` sealed
/// under its own parameters and its own serialized metadata, or the error.
pub open spec fn is_paste_encryption(
    r: PbResult<Paste>,
    content: Seq<char>,
    secret: Seq<u8>,
    password: Seq<char>,
    adata: Data,
    expire: String,
) -> bool {
    match r {
        Ok(p) => is_unposted_paste(p, adata, expire)
            && is_record_encryption(Ok::<String, PasteError>(p.ct), content, secret, password, adata.cipher, data_json(adata)),
        Err(e) => is_record_encryption(Err::<String, PasteError>(e), content, secret, password, adata.cipher, data_json(adata)),
    }
}

/// `p` and the base58 `key` text are what `Paste::encrypt_new` produced for
/// `content` and `password`: a fresh 32-byte secret behind the key, standard
/// parameters with an 8-byte salt and a 16-byte nonce, and the flags asked for.
pub open spec fn is_new_paste(
    p: Paste,
    key: Seq<char>,
    content: Seq<char>,
    password: Seq<char>,
    format: PasteFormat,
    discuss: bool,
    burn: bool,
    expire: String,
) -> bool {
    exists|secret: Seq<u8>, salt: Seq<u8>, nonce: Seq<u8>|
        #![trigger is_standard_cipher(p.adata.cipher, salt, nonce), is_paste_encryption(Ok::<Paste, PasteError>(p), content, secret, password, p.adata, expire)]
        {
            &&& secret.len() == SECRET_LEN
            &&& salt.len() == SALT_LEN
            &&& nonce.len() == NONCE_LEN
            &&& base58_decoded(key) == Some(secret)
            &&& is_standard_cipher(p.adata.cipher, salt, nonce)
            &&& p.adata.format == format
            &&& p.adata.discuss == flag_byte(discuss)
            &&& p.adata.burn == flag_byte(burn)
            &&& is_paste_encryption(Ok::<Paste, PasteError>(p), content, secret, password, p.adata, expire)
        }
}

/// `d` is the metadata of a new paste: standard parameters with an 8-byte salt
/// and a 16-byte nonce, and the flags asked for.
pub open spec fn is_fresh_data(d: Data, format: PasteFormat, discuss: bool, burn: bool) -> bool {
    &&& exists|salt: Seq<u8>, nonce: Seq<u8>| #[trigger] is_standard_cipher(d.cipher, salt, nonce)
        && salt.len() == SALT_LEN && nonce.len() == NONCE_LEN
    &&& d.format == format
    &&& d.discuss == flag_byte(discuss)
    &&& d.burn == flag_byte(burn)
}

/// The ways encrypting a new paste can fail: the random source fails, the
/// secret and password or the compressed payload are too long for the
/// primitives, or the serialized metadata is longer than AES-GCM authenticates.
pub open spec fn is_new_paste_failure(e: PasteError, content: Seq<char>, password: Seq<char>, format: PasteFormat, discuss: bool, burn: bool) -> bool {
    ||| e is RandomSource
    ||| e is InvalidData && (SECRET_LEN + encode_utf8(password).len() >= KDF_INPUT_LIMIT || !blob_fits_gcm(content))
    ||| e is Aes && exists|d: Data| #[trigger] is_fresh_data(d, format, discuss, burn) && !aad_fits_gcm(data_json(d))
}

impl Paste {
    /// Builds a new version-2 paste around `adata` whose ciphertext seals
    /// `content` (the JSON text of the paste) under the shared secret and the
    /// password, authenticating the paste's own serialized metadata.
    pub fn new_encrypted(content: &str, password: &str, secret: &[u8], adata: Data, expire: String) -> (r: PbResult<Paste>)
        ensures
            is_paste_encryption(r, content@, secret@, password@, adata, expire),
    {
        let aad = adata.serialize();
        let ct = match encrypt_record(content, secret, password, &adata.cipher, aad.as_str()) {
            Ok(t) => t,
            Err(e) => return Err(e),
        };
        Ok(Paste {
            status: None,
            id: String::new(),
            url: None,
            v: 2,
            ct,
            meta: Meta { created: None, expire: Some(expire), time_to_live: None, icon: None },
            adata,
            comments: None,
        })
    }

    /// Encrypts `content` (the JSON text of the paste) as a new paste with a
    /// fresh random shared secret, salt and nonce. Returns the paste and the
    /// secret as base58 text: the only way to decrypt it later.
    pub fn encrypt_new(
        content: &str,
        password: &str,
        format: PasteFormat,
        discuss: bool,
        burn: bool,
        expire: String,
    ) -> (r: PbResult<(Paste, String)>)
        ensures
            r matches Ok((p, key)) ==> is_new_paste(p, key@, content@, password@, format, discuss, burn, expire),
            r matches Err(e) ==> is_new_paste_failure(e, content@, password@, format, discuss, burn),
    {
        let mut rng = match seeded_rng() {
            Ok(g) => g,
            Err(e) => return Err(PasteError::RandomSource(e)),
        };
        let secret = random_bytes(&mut rng, SECRET_LEN);
        let salt = random_bytes(&mut rng, SALT_LEN);
        let nonce = random_bytes(&mut rng, NONCE_LEN);
        let adata = Data {
            cipher: Cipher::new(salt.as_slice(), nonce.as_slice()),
            format,
            discuss: if discuss { 1 } else { 0 },
            burn: if burn { 1 } else { 0 },
        };
        let ghost adata_v = adata;
        let ghost expire_v = expire;
        proof {
            assert(is_standard_cipher(adata_v.cipher, salt@, nonce@));
            assert(is_fresh_data(adata_v, format, discuss, burn));
        }
        let paste = match Paste::new_encrypted(content, password, secret.as_slice(), adata, expire) {
            Ok(p) => p,
            Err(e) => return Err(e),
        };
        let key = base58_encode(secret.as_slice());
        proof {
            assert(is_standard_cipher(paste.adata.cipher, salt@, nonce@));
            assert(base58_decoded(key@) == Some(secret@));
            assert(is_paste_encryption(Ok::<Paste, PasteError>(paste), content@, secret@, password@, paste.adata, expire_v));
        }
        Ok((paste, key))
    }
}

/// `r` is what encrypting a new comment gives: the comment on `pasteid` replying
/// to `parentid`, with `content` sealed under its parameters, which are also
/// its whole authenticated metadata; or the error.
pub open spec fn is_comment_encryption(
    r: PbResult<Comment>,
    content: Seq<char>,
    secret: Seq<u8>,
    password: Seq<char>,
    cipher: Cipher,
    pasteid: String,
    parentid: String,
) -> bool {
    match r {
        Ok(c) => {
            &&& c.v == 2
            &&& c.adata == cipher
            &&& c.pasteid == pasteid
            &&& c.parentid == parentid
            &&& c.id@ == Seq::<char>::empty()
            &&& is_record_encryption(Ok::<String, PasteError>(c.ct), content, secret, password, cipher, cipher_json(cipher))
        },
        Err(e) => is_record_encryption(Err::<String, PasteError>(e), content, secret, password, cipher, cipher_json(cipher)),
    }
}

/// The ways encrypting a new comment can fail: the key text is not base58, the
/// random source fails, the secret and password or the compressed payload are
/// too long for the primitives, or the serialized parameters are longer than
/// AES-GCM authenticates.
pub open spec fn is_new_comment_failure(e: PasteError, content: Seq<char>, bs58_key: Seq<char>, password: Seq<char>) -> bool {
    ||| e is Base58Error && base58_decoded(bs58_key) is None
    ||| e is RandomSource
    ||| e is InvalidData && base58_decoded(bs58_key) is Some && (base58_decoded(bs58_key)->Some_0.len()
        + encode_utf8(password).len() >= KDF_INPUT_LIMIT || !blob_fits_gcm(content))
    ||| e is Aes && exists|c: Cipher, salt: Seq<u8>, nonce: Seq<u8>| #[trigger] is_standard_cipher(c, salt, nonce)
        && salt.len() == SALT_LEN && nonce.len() == NONCE_LEN && !aad_fits_gcm(cipher_json(c))
}

impl Comment {
    /// Builds a new version-2 comment on `pasteid` replying to `parentid` whose
    /// ciphertext seals `content` (the JSON text of the comment), authenticating
    /// the comment's serialized cipher parameters.
    pub fn new_encrypted(
        content: &str,
        password: &str,
        secret: &[u8],
        cipher: Cipher,
        pasteid: String,
        parentid: String,
    ) -> (r: PbResult<Comment>)
        ensures
            is_comment_encryption(r, content@, secret@, password@, cipher, pasteid, parentid),
    {
        let aad = cipher.serialize();
        let ct = match encrypt_record(content, secret, password, &cipher, aad.as_str()) {
            Ok(t) => t,
            Err(e) => return Err(e),
        };
        Ok(Comment {
            id: String::new(),
            pasteid,
            parentid,
            v: 2,
            ct,
            meta: Meta { created: None, expire: None, time_to_live: None, icon: None },
            adata: cipher,
        })
    }

    /// Encrypts `content` (the JSON text of the comment) as a new comment on a
    /// paste, under the paste's base58 key text and a password, with a fresh
    /// random salt and nonce.
    pub fn encrypt_new(
        content: &str,
        pasteid: String,
        parentid: String,
        bs58_key: &str,
        password: &str,
    ) -> (r: PbResult<Comment>)
        ensures
            base58_decoded(bs58_key@) is None ==> r matches Err(PasteError::Base58Error(_)),
            r matches Err(e) ==> is_new_comment_failure(e, content@, bs58_key@, password@),
            r matches Ok(c) ==> exists|secret: Seq<u8>, salt: Seq<u8>, nonce: Seq<u8>|
                #![trigger is_standard_cipher(c.adata, salt, nonce), is_comment_encryption(Ok::<Comment, PasteError>(c), content@, secret, password@, c.adata, pasteid, parentid)]
                {
                    &&& base58_decoded(bs58_key@) == Some(secret)
                    &&& salt.len() == SALT_LEN
                    &&& nonce.len() == NONCE_LEN
                    &&& is_standard_cipher(c.adata, salt, nonce)
                    &&& is_comment_encryption(Ok::<Comment, PasteError>(c), content@, secret, password@, c.adata, pasteid, parentid)
                },
    {
        let secret = match base58_decode(bs58_key) {
            Ok(k) => k,
            Err(e) => return Err(PasteError::Base58Error(e)),
        };
        let mut rng = match seeded_rng() {
            Ok(g) => g,
            Err(e) => return Err(PasteError::RandomSource(e)),
        };
        let salt = random_bytes(&mut rng, SALT_LEN);
        let nonce = random_bytes(&mut rng, NONCE_LEN);
        let cipher = Cipher::new(salt.as_slice(), nonce.as_slice());
        let ghost pasteid_v = pasteid;
        let ghost parentid_v = parentid;
        let ghost cipher_v = cipher;
        proof {
            assert(is_standard_cipher(cipher_v, salt@, nonce@));
        }
        let comment = match Comment::new_encrypted(content, password, secret.as_slice(), cipher, pasteid, parentid) {
            Ok(c) => c,
            Err(e) => return Err(e),
        };
        proof {
            assert(is_standard_cipher(comment.adata, salt@, nonce@));
            assert(base58_decoded(bs58_key@) == Some(secret@));
            assert(is_comment_encryption(Ok::<Comment, PasteError>(comment), content@, secret@, password@, comment.adata, pasteid_v, parentid_v));
        }
        Ok(comment)
    }
}

/// Round trip for a new paste: decrypting it with the key text that
/// `Paste::encrypt_new` returned and the same password gives back the bytes of
/// the content.
pub proof fn lemma_new_paste_round_trip(
    p: Paste,
    key: Seq<char>,
    content: Seq<char>,
    password: Seq<char>,
    format: PasteFormat,
    discuss: bool,
    burn: bool,
    expire: String,
    opened: PbResult<Vec<u8>>,
)
    requires
        is_new_paste(p, key, content, password, format, discuss, burn, expire),
        is_keyed_decryption(opened, p, key, password),
    ensures
        opened matches Ok(b) && b@ == encode_utf8(content),
{
    let (secret, salt, nonce) = choose|secret: Seq<u8>, salt: Seq<u8>, nonce: Seq<u8>|
        #![trigger is_standard_cipher(p.adata.cipher, salt, nonce), is_paste_encryption(Ok::<Paste, PasteError>(p), content, secret, password, p.adata, expire)]
        {
            &&& secret.len() == SECRET_LEN
            &&& salt.len() == SALT_LEN
            &&& nonce.len() == NONCE_LEN
            &&& base58_decoded(key) == Some(secret)
            &&& is_standard_cipher(p.adata.cipher, salt, nonce)
            &&& p.adata.format == format
            &&& p.adata.discuss == flag_byte(discuss)
            &&& p.adata.burn == flag_byte(burn)
            &&& is_paste_encryption(Ok::<Paste, PasteError>(p), content, secret, password, p.adata, expire)
        };
    lemma_round_trip(p, content, secret, password, Ok::<String, PasteError>(p.ct), opened);
}

} // verus!
