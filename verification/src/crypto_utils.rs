//! Hashing, key derivation and encoding helpers. The digests themselves
//! come from outside crates; what the library proves is how their named
//! results are combined and compared.

use vstd::prelude::*;
use sha2::Digest;
use hmac::{Mac, KeyInit};
use base64::Engine;
use ed25519_dalek::{Signer, Verifier};

verus! {

/// The SHA-256 digest of a byte sequence.
pub uninterp spec fn sha256_of(data: Seq<u8>) -> Seq<u8>;

/// The SHA-512 digest of a byte sequence.
pub uninterp spec fn sha512_of(data: Seq<u8>) -> Seq<u8>;

/// The HMAC-SHA256 tag of a message under a key.
pub uninterp spec fn hmac_sha256_of(key: Seq<u8>, data: Seq<u8>) -> Seq<u8>;

/// The HMAC-SHA512 tag of a message under a key.
pub uninterp spec fn hmac_sha512_of(key: Seq<u8>, data: Seq<u8>) -> Seq<u8>;

/// The PBKDF2-HMAC-SHA256 key of the given length derived from a
/// password and salt over a round count.
pub uninterp spec fn pbkdf2_of(password: Seq<u8>, salt: Seq<u8>, rounds: u32, length: int) -> Seq<
    u8,
>;

/// The lowercase hex rendering of a byte sequence.
pub uninterp spec fn hex_of(data: Seq<u8>) -> Seq<char>;

/// The standard base64 rendering of a byte sequence.
pub uninterp spec fn base64_of(data: Seq<u8>) -> Seq<char>;

/// The bytes a canonical base64 string decodes to.
pub uninterp spec fn unbase64_of(encoded: Seq<char>) -> Seq<u8>;

/// The AES-256 encryption of one 16-byte block under a 32-byte key.
pub uninterp spec fn aes256_enc_block_of(key: Seq<u8>, block: Seq<u8>) -> Seq<u8>;

/// The AES-256 decryption of one 16-byte block under a 32-byte key.
pub uninterp spec fn aes256_dec_block_of(key: Seq<u8>, block: Seq<u8>) -> Seq<u8>;

/// A byte string padded for block encryption: whole blocks go as they
/// are; a trailing partial block is filled to 16 bytes, each filler
/// byte holding the filler count.
pub open spec fn spec_pkcs7_pad(data: Seq<u8>) -> Seq<u8> {
    let rem = data.len() % 16;
    if rem == 0 {
        data
    } else {
        data + Seq::new((16 - rem) as nat, |i: int| (16 - rem) as u8)
    }
}

/// A well-formed padding tail stripped back off: when the last byte `b`
/// lies in 1..=16 and the last `b` bytes all hold `b`, they leave;
/// anything else is returned unchanged.
pub open spec fn spec_strip_pkcs7(p: Seq<u8>) -> Seq<u8> {
    if p.len() == 0 {
        p
    } else {
        let b = p.last() as int;
        if 1 <= b <= 16 && p.len() >= b && (forall|i: int|
            p.len() - b <= i < p.len() ==> p[i] == p.last()) {
            p.take(p.len() - b)
        } else {
            p
        }
    }
}

/// A whole-block byte string encrypted block by block.
pub open spec fn spec_ecb_encrypt(key: Seq<u8>, padded: Seq<u8>) -> Seq<u8>
    decreases padded.len(),
{
    if padded.len() < 16 {
        Seq::empty()
    } else {
        aes256_enc_block_of(key, padded.take(16)) + spec_ecb_encrypt(key, padded.skip(16))
    }
}

/// The Ed25519 signature of a message under a 32-byte secret key.
pub uninterp spec fn ed25519_sig_of(secret: Seq<u8>, message: Seq<u8>) -> Seq<u8>;

/// The Ed25519 public key derived from a 32-byte secret key.
pub uninterp spec fn ed25519_pub_of(secret: Seq<u8>) -> Seq<u8>;

/// Whether 32 bytes decompress to a valid Ed25519 public key.
pub uninterp spec fn ed25519_valid_pub(public: Seq<u8>) -> bool;

/// Whether a signature verifies for a message under a public key.
pub uninterp spec fn ed25519_verify_of(public: Seq<u8>, message: Seq<u8>, signature: Seq<u8>) -> bool;

/// A whole-block byte string decrypted block by block.
pub open spec fn spec_ecb_decrypt(key: Seq<u8>, data: Seq<u8>) -> Seq<u8>
    decreases data.len(),
{
    if data.len() < 16 {
        Seq::empty()
    } else {
        aes256_dec_block_of(key, data.take(16)) + spec_ecb_decrypt(key, data.skip(16))
    }
}

/// General-purpose hashing and randomness helpers.
pub struct CryptoUtils;

impl CryptoUtils {
    /// Relies on `sha2::Sha256` (`Digest::update`, `Digest::finalize`):
    /// the 32-byte SHA-256 digest, a function of the input alone.
    #[verifier::external_body]
    pub fn sha256(data: &[u8]) -> (r: Vec<u8>)
        ensures
            r@ == sha256_of(data@),
            r@.len() == 32,
    {
        let mut hasher = sha2::Sha256::new();
        hasher.update(data);
        hasher.finalize().to_vec()
    }

    /// Relies on `sha2::Sha512`: the 64-byte SHA-512 digest, a function
    /// of the input alone.
    #[verifier::external_body]
    pub fn sha512(data: &[u8]) -> (r: Vec<u8>)
        ensures
            r@ == sha512_of(data@),
            r@.len() == 64,
    {
        let mut hasher = sha2::Sha512::new();
        hasher.update(data);
        hasher.finalize().to_vec()
    }

    /// Relies on `hmac::Hmac` over SHA-256 (`Mac::new_from_slice` accepts
    /// keys of any length): the 32-byte tag, a function of key and
    /// message alone.
    #[verifier::external_body]
    pub fn hmac_sha256(key: &[u8], data: &[u8]) -> (r: Vec<u8>)
        ensures
            r@ == hmac_sha256_of(key@, data@),
            r@.len() == 32,
    {
        let mut mac = hmac::Hmac::<sha2::Sha256>::new_from_slice(key)
            .expect("HMAC can take key of any size");
        mac.update(data);
        mac.finalize().into_bytes().to_vec()
    }

    /// Relies on `hmac::Hmac` over SHA-512: the 64-byte tag, a function
    /// of key and message alone.
    #[verifier::external_body]
    pub fn hmac_sha512(key: &[u8], data: &[u8]) -> (r: Vec<u8>)
        ensures
            r@ == hmac_sha512_of(key@, data@),
            r@.len() == 64,
    {
        let mut mac = hmac::Hmac::<sha2::Sha512>::new_from_slice(key)
            .expect("HMAC can take key of any size");
        mac.update(data);
        mac.finalize().into_bytes().to_vec()
    }

    /// Relies on `rand::fill` over the thread generator: `length` bytes
    /// of randomness. Nothing can be promised about which bytes; the
    /// generator aborts the process if the operating system's randomness
    /// source fails, a condition no input causes.
    #[verifier::external_body]
    pub fn random_bytes(length: usize) -> (r: Vec<u8>)
        ensures
            r@.len() == length,
    {
        let mut bytes = vec![0u8; length];
        rand::fill(&mut bytes[..]);
        bytes
    }

    /// A fresh random record id in hyphenated UUID form.
    pub fn random_uuid() -> (r: String)
        ensures
            r@.len() == 36,
    {
        crate::ids::new_uuid_string()
    }

    /// Relies on `base64::engine::general_purpose::STANDARD`
    /// (`Engine::encode`): the canonical base64 rendering, a function of
    /// the input alone, which decodes back to the input.
    #[verifier::external_body]
    pub fn base64_encode(data: &[u8]) -> (r: String)
        ensures
            r@ == base64_of(data@),
            unbase64_of(r@) == data@,
    {
        base64::engine::general_purpose::STANDARD.encode(data)
    }

    /// Relies on `base64::engine::general_purpose::STANDARD`
    /// (`Engine::decode`): canonical encodings decode to their bytes;
    /// any valid encoding is accepted.
    #[verifier::external_body]
    pub fn base64_decode(encoded: &str) -> (r: Result<Vec<u8>, String>)
        ensures
            r is Ok ==> r->Ok_0@ == unbase64_of(encoded@),
            (exists|data: Seq<u8>| encoded@ == base64_of(data)) ==> r is Ok,
    {
        base64::engine::general_purpose::STANDARD.decode(encoded).map_err(|e| e.to_string())
    }

    /// The PBKDF2 password hash at the stock cost: 10000 rounds,
    /// 32 bytes.
    pub fn hash_password(password: &[u8], salt: &[u8]) -> (r: Vec<u8>)
        ensures
            r@ == pbkdf2_of(password@, salt@, 10_000, 32),
            r@.len() == 32,
    {
        KeyDerivationUtils::derive_key_from_password(password, salt, 10_000, 32)
    }

    /// Whether a password matches a stored hash: its stock-cost PBKDF2
    /// hash equals the stored bytes.
    pub fn verify_password(password: &[u8], salt: &[u8], hash: &[u8]) -> (r: bool)
        ensures
            r == (pbkdf2_of(password@, salt@, 10_000, 32) == hash@),
    {
        let computed = Self::hash_password(password, salt);
        Self::secure_compare(computed.as_slice(), hash)
    }

    /// A fresh 32-byte random salt.
    pub fn generate_salt() -> (r: Vec<u8>)
        ensures
            r@.len() == 32,
    {
        Self::random_bytes(32)
    }

    /// Constant-time-style byte comparison: true exactly when the two
    /// slices hold the same bytes.
    pub fn secure_compare(a: &[u8], b: &[u8]) -> (r: bool)
        ensures
            r == (a@ == b@),
    {
        if a.len() != b.len() {
            proof {
                assert(a@.len() != b@.len());
            }
            return false;
        }
        let mut acc: u8 = 0;
        let mut i: usize = 0;
        while i < a.len()
            invariant
                0 <= i <= a@.len(),
                a@.len() == b@.len(),
                acc == 0 <==> (forall|j: int| 0 <= j < i ==> a@[j] == b@[j]),
            decreases a@.len() - i,
        {
            let x = a[i];
            let y = b[i];
            proof {
                assert((x ^ y) == 0 <==> x == y) by (bit_vector);
                assert((acc | (x ^ y)) == 0 <==> acc == 0 && (x ^ y) == 0) by (bit_vector);
            }
            acc = acc | (x ^ y);
            i = i + 1;
        }
        proof {
            if acc == 0 {
                assert(a@ =~= b@);
            } else {
                let w = choose|j: int| 0 <= j < a@.len() && a@[j] != b@[j];
                assert(a@[w] != b@[w]);
            }
        }
        acc == 0
    }
}

/// Symmetric-key helpers: raw AES-256 blocks with the original's
/// tail-block padding.
pub struct AesUtils;

impl AesUtils {
    /// A fresh 32-byte random AES-256 key.
    pub fn generate_aes_key() -> (r: Vec<u8>)
        ensures
            r@.len() == 32,
    {
        CryptoUtils::random_bytes(32)
    }

    /// Relies on `aes::Aes256` (`KeyInit::new_from_slice`, which accepts
    /// exactly 32-byte keys, and `BlockCipherEncrypt::encrypt_block`):
    /// one block encrypted, a function of key and block alone, which the
    /// cipher's `decrypt_block` inverts.
    #[verifier::external_body]
    fn encrypt_block(key: &[u8], block: &[u8]) -> (r: Vec<u8>)
        requires
            key@.len() == 32,
            block@.len() == 16,
        ensures
            r@ == aes256_enc_block_of(key@, block@),
            r@.len() == 16,
            aes256_dec_block_of(key@, r@) == block@,
    {
        let cipher = <aes::Aes256 as aes::cipher::KeyInit>::new_from_slice(key)
            .expect("AES-256 keys are 32 bytes");
        let mut buf = [0u8; 16];
        buf.copy_from_slice(block);
        let mut buf = aes::cipher::Array::from(buf);
        aes::cipher::BlockCipherEncrypt::encrypt_block(&cipher, &mut buf);
        buf.to_vec()
    }

    /// Relies on `aes::Aes256` (`BlockCipherDecrypt::decrypt_block`):
    /// one block decrypted, a function of key and block alone, which the
    /// cipher's `encrypt_block` inverts.
    #[verifier::external_body]
    fn decrypt_block(key: &[u8], block: &[u8]) -> (r: Vec<u8>)
        requires
            key@.len() == 32,
            block@.len() == 16,
        ensures
            r@ == aes256_dec_block_of(key@, block@),
            r@.len() == 16,
            aes256_enc_block_of(key@, r@) == block@,
    {
        let cipher = <aes::Aes256 as aes::cipher::KeyInit>::new_from_slice(key)
            .expect("AES-256 keys are 32 bytes");
        let mut buf = [0u8; 16];
        buf.copy_from_slice(block);
        let mut buf = aes::cipher::Array::from(buf);
        aes::cipher::BlockCipherDecrypt::decrypt_block(&cipher, &mut buf);
        buf.to_vec()
    }

    /// Encrypt data block by block, the trailing partial block filled
    /// out; empty input encrypts to nothing.
    pub fn encrypt_aes256(key: &[u8], data: &[u8]) -> (r: Result<Vec<u8>, String>)
        requires
            key@.len() == 32,
        ensures
            r is Ok,
            r is Ok ==> r->Ok_0@ == spec_ecb_encrypt(key@, spec_pkcs7_pad(data@)),
    {
        if data.len() == 0 {
            proof {
                assert(spec_pkcs7_pad(data@) =~= data@);
                assert(spec_ecb_encrypt(key@, data@) =~= Seq::<u8>::empty());
            }
            return Ok(Vec::new());
        }
        let mut padded: Vec<u8> = Vec::new();
        let mut i: usize = 0;
        while i < data.len()
            invariant
                0 <= i <= data@.len(),
                padded@ =~= data@.take(i as int),
            decreases data@.len() - i,
        {
            padded.push(data[i]);
            i = i + 1;
        }
        proof {
            assert(padded@ =~= data@);
        }
        let rem: usize = data.len() % 16;
        if rem != 0 {
            let filler: u8 = (16 - rem) as u8;
            let mut f: usize = 0;
            while f < 16 - rem
                invariant
                    0 < rem < 16,
                    filler == (16 - rem) as u8,
                    0 <= f <= 16 - rem,
                    rem == data@.len() % 16,
                    padded@ =~= data@ + Seq::new(f as nat, |x: int| filler),
                decreases 16 - rem - f,
            {
                padded.push(filler);
                proof {
                    assert(padded@ =~= data@ + Seq::new((f + 1) as nat, |x: int| filler));
                }
                f = f + 1;
            }
        }
        proof {
            assert(padded@ =~= spec_pkcs7_pad(data@));
            assert(padded@.len() % 16 == 0) by {
                if data@.len() % 16 != 0 {
                    assert(padded@.len() == data@.len() + (16 - data@.len() % 16));
                }
            }
        }
        let mut out: Vec<u8> = Vec::new();
        let mut off: usize = 0;
        let ghost padded_view = padded@;
        proof {
            assert(padded_view.skip(0) =~= padded_view);
        }
        while off < padded.len()
            invariant
                0 <= off <= padded@.len(),
                off % 16 == 0,
                padded@.len() % 16 == 0,
                padded@ == padded_view,
                key@.len() == 32,
                spec_ecb_encrypt(key@, padded_view) =~= out@ + spec_ecb_encrypt(
                    key@,
                    padded_view.skip(off as int),
                ),
            decreases padded@.len() - off,
        {
            proof {
                assert(off + 16 <= padded@.len()) by (nonlinear_arith)
                    requires
                        off % 16 == 0,
                        padded@.len() % 16 == 0,
                        off < padded@.len(),
                ;
            }
            let mut block: Vec<u8> = Vec::new();
            let mut j: usize = 0;
            while j < 16
                invariant
                    0 <= j <= 16,
                    off + 16 <= padded@.len(),
                    off + 16 <= usize::MAX,
                    padded@ == padded_view,
                    block@ =~= padded_view.subrange(off as int, off + j),
                decreases 16 - j,
            {
                block.push(padded[off + j]);
                j = j + 1;
            }
            proof {
                assert(block@ =~= padded_view.skip(off as int).take(16));
            }
            let cipher_block = Self::encrypt_block(key, block.as_slice());
            let mut t: usize = 0;
            let ghost out_before = out@;
            while t < cipher_block.len()
                invariant
                    0 <= t <= cipher_block@.len(),
                    out@ =~= out_before + cipher_block@.take(t as int),
                decreases cipher_block@.len() - t,
            {
                out.push(cipher_block[t]);
                t = t + 1;
            }
            proof {
                assert(out@ =~= out_before + cipher_block@);
                assert(padded_view.skip(off as int).skip(16) =~= padded_view.skip(off + 16));
            }
            off = off + 16;
        }
        proof {
            assert(padded_view.skip(off as int) =~= Seq::<u8>::empty());
            assert(spec_ecb_encrypt(key@, padded_view) =~= out@);
        }
        Ok(out)
    }

    /// Decrypt whole blocks and strip a well-formed padding tail; fails
    /// exactly when the input is not whole blocks.
    pub fn decrypt_aes256(key: &[u8], encrypted_data: &[u8]) -> (r: Result<Vec<u8>, String>)
        requires
            key@.len() == 32,
        ensures
            r is Ok <==> encrypted_data@.len() % 16 == 0,
            r is Ok ==> r->Ok_0@ == spec_strip_pkcs7(spec_ecb_decrypt(key@, encrypted_data@)),
    {
        if encrypted_data.len() == 0 {
            proof {
                assert(spec_ecb_decrypt(key@, encrypted_data@) =~= Seq::<u8>::empty());
            }
            return Ok(Vec::new());
        }
        if encrypted_data.len() % 16 != 0 {
            return Err(String::from_str("Encrypted data length must be multiple of 16"));
        }
        let mut plain: Vec<u8> = Vec::new();
        let mut off: usize = 0;
        proof {
            assert(encrypted_data@.skip(0) =~= encrypted_data@);
        }
        while off < encrypted_data.len()
            invariant
                0 <= off <= encrypted_data@.len(),
                off % 16 == 0,
                encrypted_data@.len() % 16 == 0,
                key@.len() == 32,
                plain@.len() == off,
                spec_ecb_decrypt(key@, encrypted_data@) =~= plain@ + spec_ecb_decrypt(
                    key@,
                    encrypted_data@.skip(off as int),
                ),
            decreases encrypted_data@.len() - off,
        {
            proof {
                assert(off + 16 <= encrypted_data@.len()) by (nonlinear_arith)
                    requires
                        off % 16 == 0,
                        encrypted_data@.len() % 16 == 0,
                        off < encrypted_data@.len(),
                ;
            }
            let mut block: Vec<u8> = Vec::new();
            let mut j: usize = 0;
            while j < 16
                invariant
                    0 <= j <= 16,
                    off + 16 <= encrypted_data@.len(),
                    off + 16 <= usize::MAX,
                    block@ =~= encrypted_data@.subrange(off as int, off + j),
                decreases 16 - j,
            {
                block.push(encrypted_data[off + j]);
                j = j + 1;
            }
            proof {
                assert(block@ =~= encrypted_data@.skip(off as int).take(16));
            }
            let plain_block = Self::decrypt_block(key, block.as_slice());
            let mut t: usize = 0;
            let ghost plain_before = plain@;
            while t < plain_block.len()
                invariant
                    0 <= t <= plain_block@.len(),
                    plain@ =~= plain_before + plain_block@.take(t as int),
                decreases plain_block@.len() - t,
            {
                plain.push(plain_block[t]);
                t = t + 1;
            }
            proof {
                assert(plain@ =~= plain_before + plain_block@);
                assert(encrypted_data@.skip(off as int).skip(16) =~= encrypted_data@.skip(
                    off + 16,
                ));
            }
            off = off + 16;
        }
        proof {
            assert(encrypted_data@.skip(off as int) =~= Seq::<u8>::empty());
            assert(spec_ecb_decrypt(key@, encrypted_data@) =~= plain@);
        }
        let last_byte: u8 = plain[plain.len() - 1];
        if last_byte >= 1 && last_byte <= 16 && plain.len() >= last_byte as usize {
            let padding_start: usize = plain.len() - last_byte as usize;
            let mut ok: bool = true;
            let mut c: usize = padding_start;
            while c < plain.len()
                invariant
                    padding_start <= c <= plain@.len(),
                    ok == (forall|x: int| padding_start <= x < c ==> plain@[x] == last_byte),
                    last_byte == plain@.last(),
                    padding_start == plain@.len() - last_byte,
                    1 <= last_byte <= 16,
                    plain@.len() >= last_byte,
                decreases plain@.len() - c,
            {
                if plain[c] != last_byte {
                    ok = false;
                }
                c = c + 1;
            }
            if ok {
                let ghost full_plain = plain@;
                plain.truncate(padding_start);
                proof {
                    assert(plain@ =~= spec_strip_pkcs7(full_plain));
                }
                return Ok(plain);
            }
            proof {
                let w = choose|x: int|
                    padding_start <= x < plain@.len() && plain@[x] != last_byte;
                assert(plain@ =~= spec_strip_pkcs7(plain@));
            }
            return Ok(plain);
        }
        proof {
            assert(plain@ =~= spec_strip_pkcs7(plain@));
        }
        Ok(plain)
    }
}

/// Password-based key derivation.
pub struct KeyDerivationUtils;

impl KeyDerivationUtils {
    /// Relies on `pbkdf2::pbkdf2_hmac` over SHA-256: a key of the asked
    /// length, a function of password, salt and round count alone.
    #[verifier::external_body]
    pub fn derive_key_from_password(
        password: &[u8],
        salt: &[u8],
        iterations: u32,
        key_length: usize,
    ) -> (r: Vec<u8>)
        ensures
            r@ == pbkdf2_of(password@, salt@, iterations, key_length as int),
            r@.len() == key_length,
    {
        let mut key = vec![0u8; key_length];
        pbkdf2::pbkdf2_hmac::<sha2::Sha256>(password, salt, iterations, &mut key);
        key
    }

    /// A fresh random salt of the asked length.
    pub fn generate_salt(length: usize) -> (r: Vec<u8>)
        ensures
            r@.len() == length,
    {
        CryptoUtils::random_bytes(length)
    }

    /// A fresh random key of the asked length.
    pub fn generate_secure_key(length: usize) -> (r: Vec<u8>)
        ensures
            r@.len() == length,
    {
        CryptoUtils::random_bytes(length)
    }
}

/// Rendered-digest helpers.
pub struct HashUtils;

impl HashUtils {
    /// Relies on `hex::encode`: two lowercase digits per byte, a
    /// function of the input alone.
    #[verifier::external_body]
    fn hex_encode(data: &[u8]) -> (r: String)
        ensures
            r@ == hex_of(data@),
            r@.len() == 2 * data@.len(),
    {
        hex::encode(data)
    }

    /// The hex-rendered SHA-256 digest of a byte string.
    pub fn hash_string(input: &[u8]) -> (r: String)
        ensures
            r@ == hex_of(sha256_of(input@)),
            r@.len() == 64,
    {
        let digest = CryptoUtils::sha256(input);
        Self::hex_encode(digest.as_slice())
    }

    /// Whether a byte string's hex-rendered SHA-256 digest equals the
    /// expected rendering.
    pub fn verify_string_hash(input: &[u8], expected_hash: &String) -> (r: bool)
        ensures
            r == (hex_of(sha256_of(input@)) == expected_hash@),
    {
        let actual = Self::hash_string(input);
        actual == *expected_hash
    }
}

/// Digital signatures over plain byte strings.
pub struct SignatureUtils;

impl SignatureUtils {
    /// Relies on `ed25519_dalek::SigningKey` (`from_bytes` on a 32-byte
    /// secret, `Signer::sign`, deterministic Ed25519): the 64-byte
    /// signature, a function of key and message alone, which verifies
    /// under the derived public key.
    #[verifier::external_body]
    fn sign_bytes(private_key: &[u8], data: &[u8]) -> (r: Vec<u8>)
        requires
            private_key@.len() == 32,
        ensures
            r@ == ed25519_sig_of(private_key@, data@),
            r@.len() == 64,
            ed25519_verify_of(ed25519_pub_of(private_key@), data@, r@),
    {
        let mut secret = [0u8; 32];
        secret.copy_from_slice(private_key);
        let signing_key = ed25519_dalek::SigningKey::from_bytes(&secret);
        signing_key.sign(data).to_bytes().to_vec()
    }

    /// Relies on `ed25519_dalek::SigningKey::verifying_key`: the 32-byte
    /// public key, a function of the secret alone and always a valid
    /// curve point.
    #[verifier::external_body]
    fn derive_public_key(private_key: &[u8]) -> (r: Vec<u8>)
        requires
            private_key@.len() == 32,
        ensures
            r@ == ed25519_pub_of(private_key@),
            r@.len() == 32,
            ed25519_valid_pub(r@),
    {
        let mut secret = [0u8; 32];
        secret.copy_from_slice(private_key);
        let signing_key = ed25519_dalek::SigningKey::from_bytes(&secret);
        signing_key.verifying_key().to_bytes().to_vec()
    }

    /// Relies on `ed25519_dalek::VerifyingKey` (`from_bytes`, which
    /// accepts exactly the valid curve points, and `Verifier::verify`):
    /// the verification verdict; an invalid public key is an error.
    #[verifier::external_body]
    fn verify_bytes(public_key: &[u8], data: &[u8], signature: &[u8]) -> (r: Result<bool, String>)
        requires
            public_key@.len() == 32,
            signature@.len() == 64,
        ensures
            ed25519_valid_pub(public_key@) <==> r is Ok,
            r is Ok ==> r->Ok_0 == ed25519_verify_of(public_key@, data@, signature@),
    {
        let mut key_bytes = [0u8; 32];
        key_bytes.copy_from_slice(public_key);
        let verifying_key = match ed25519_dalek::VerifyingKey::from_bytes(&key_bytes) {
            Ok(key) => key,
            Err(e) => {
                return Err(format!("Invalid public key: {e}"));
            },
        };
        let mut sig_bytes = [0u8; 64];
        sig_bytes.copy_from_slice(signature);
        let sig = ed25519_dalek::Signature::from_bytes(&sig_bytes);
        Ok(verifying_key.verify(data, &sig).is_ok())
    }

    /// Sign a message; fails exactly when the secret key is not 32
    /// bytes. The signature verifies under the matching public key.
    pub fn create_signature(private_key: &[u8], data: &[u8]) -> (r: Result<Vec<u8>, String>)
        ensures
            r is Ok <==> private_key@.len() == 32,
            r is Ok ==> r->Ok_0@ == ed25519_sig_of(private_key@, data@),
            r is Ok ==> ed25519_verify_of(
                ed25519_pub_of(private_key@),
                data@,
                r->Ok_0@,
            ),
    {
        if private_key.len() != 32 {
            return Err(String::from_str("Invalid private key"));
        }
        Ok(Self::sign_bytes(private_key, data))
    }

    /// Verify a signature; mis-sized keys or signatures and public keys
    /// off the curve are errors, a valid well-sized key always gets a
    /// verdict.
    pub fn verify_signature(public_key: &[u8], data: &[u8], signature: &[u8]) -> (r: Result<
        bool,
        String,
    >)
        ensures
            public_key@.len() != 32 || signature@.len() != 64 ==> r is Err,
            public_key@.len() == 32 && signature@.len() == 64 ==> (r is Ok
                <==> ed25519_valid_pub(public_key@)),
            r is Ok ==> r->Ok_0 == ed25519_verify_of(public_key@, data@, signature@),
    {
        if public_key.len() != 32 {
            return Err(String::from_str("Invalid public key"));
        }
        if signature.len() != 64 {
            return Err(String::from_str("Invalid signature"));
        }
        Self::verify_bytes(public_key, data, signature)
    }

    /// A fresh random keypair: the 32-byte secret and its 32-byte public
    /// key.
    pub fn generate_keypair() -> (r: (Vec<u8>, Vec<u8>))
        ensures
            r.0@.len() == 32,
            r.1@ == ed25519_pub_of(r.0@),
            r.1@.len() == 32,
            ed25519_valid_pub(r.1@),
    {
        let secret = CryptoUtils::random_bytes(32);
        let public = Self::derive_public_key(secret.as_slice());
        (secret, public)
    }
}

} // verus!
