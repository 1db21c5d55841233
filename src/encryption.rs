//! CRUID encryption keys.
use crate::cruid::{format_text, lemma_format_round_trip, lemma_format_valid, text_raw, valid_text, Cruid};
use crate::error::{Error, Result};
use aes::cipher::{BlockDecrypt, BlockEncrypt, KeyInit};
use aes::Aes128;
use vstd::prelude::*;

verus! {

#[verifier::external_type_specification]
#[verifier::external_body]
pub struct ExAes128(Aes128);

/// The key bytes that the AES-128 cipher state `c` was set up from.
pub uninterp spec fn aes128_key(c: Aes128) -> Seq<u8>;

/// The AES-128 encryption of the 16-byte `block` under `key`.
pub uninterp spec fn aes128_encrypt(key: Seq<u8>, block: Seq<u8>) -> Seq<u8>;

/// The AES-128 decryption of the 16-byte `block` under `key`.
pub uninterp spec fn aes128_decrypt(key: Seq<u8>, block: Seq<u8>) -> Seq<u8>;

/// Relies on `KeyInit::new` for `aes::Aes128`: the cipher state it returns
/// encrypts and decrypts under the given key.
#[verifier::external_body]
fn new_cipher(key: &[u8; 16]) -> (r: Aes128)
    ensures
        aes128_key(r) == key@,
{
    Aes128::new(key.into())
}

/// The little-endian bytes of `v`.
pub open spec fn le_bytes(v: u64) -> Seq<u8> {
    seq![
        v as u8,
        (v >> 8) as u8,
        (v >> 16) as u8,
        (v >> 24) as u8,
        (v >> 32) as u8,
        (v >> 40) as u8,
        (v >> 48) as u8,
        (v >> 56) as u8,
    ]
}

/// The integer whose little-endian bytes are the eight bytes `b`.
pub open spec fn le_value(b: Seq<u8>) -> u64 {
    (b[0] as u64) | ((b[1] as u64) << 8) | ((b[2] as u64) << 16) | ((b[3] as u64) << 24) | ((
    b[4] as u64) << 32) | ((b[5] as u64) << 40) | ((b[6] as u64) << 48) | ((b[7] as u64) << 56)
}

/// The block that encrypts `v`: its eight little-endian bytes, then an
/// all-zero eight-byte tag.
pub open spec fn plain_block(v: u64) -> Seq<u8> {
    le_bytes(v) + le_bytes(0)
}

/// The text of the CRUID that encrypts `v` under `key`.
pub open spec fn encrypt_text(key: Seq<u8>, v: u64) -> Seq<u8> {
    format_text(aes128_encrypt(key, plain_block(v)))
}

/// What decrypting the CRUID text `text` under `key` gives: the value in the
/// low eight bytes of the decrypted block when its high eight bytes (the tag)
/// are zero, and a decryption error otherwise.
pub open spec fn decrypt_result(key: Seq<u8>, text: Seq<u8>) -> Result<u64> {
    let block = aes128_decrypt(key, text_raw(text));
    if le_value(block.subrange(8, 16)) == 0 {
        Ok(le_value(block.subrange(0, 8)))
    } else {
        Err(Error::Decryption)
    }
}

/// Reading the little-endian bytes of an integer gives the integer back.
pub proof fn lemma_le_round_trip(v: u64)
    ensures
        le_value(le_bytes(v)) == v,
{
    let b = le_bytes(v);
    assert(b[0] == v as u8 && b[1] == (v >> 8) as u8 && b[2] == (v >> 16) as u8 && b[3] == (v
        >> 24) as u8 && b[4] == (v >> 32) as u8 && b[5] == (v >> 40) as u8 && b[6] == (v
        >> 48) as u8 && b[7] == (v >> 56) as u8);
    assert(((v as u8) as u64) | ((((v >> 8) as u8) as u64) << 8) | ((((v >> 16) as u8) as u64)
        << 16) | ((((v >> 24) as u8) as u64) << 24) | ((((v >> 32) as u8) as u64) << 32) | ((((v
        >> 40) as u8) as u64) << 40) | ((((v >> 48) as u8) as u64) << 48) | ((((v
        >> 56) as u8) as u64) << 56) == v) by (bit_vector);
}

/// Eight bytes are the little-endian bytes of the integer they encode.
pub proof fn lemma_le_bytes_of_value(b: Seq<u8>)
    requires
        b.len() == 8,
    ensures
        le_bytes(le_value(b)) == b,
{
    let (b0, b1, b2, b3, b4, b5, b6, b7) = (b[0], b[1], b[2], b[3], b[4], b[5], b[6], b[7]);
    let v = le_value(b);
    assert(v == (b0 as u64) | ((b1 as u64) << 8) | ((b2 as u64) << 16) | ((b3 as u64) << 24) | ((
    b4 as u64) << 32) | ((b5 as u64) << 40) | ((b6 as u64) << 48) | ((b7 as u64) << 56));
    assert(v as u8 == b0 && (v >> 8) as u8 == b1 && (v >> 16) as u8 == b2 && (v >> 24) as u8 == b3
        && (v >> 32) as u8 == b4 && (v >> 40) as u8 == b5 && (v >> 48) as u8 == b6 && (v
        >> 56) as u8 == b7) by (bit_vector)
        requires
            v == (b0 as u64) | ((b1 as u64) << 8) | ((b2 as u64) << 16) | ((b3 as u64) << 24) | ((
            b4 as u64) << 32) | ((b5 as u64) << 40) | ((b6 as u64) << 48) | ((b7 as u64) << 56),
    ;
    assert(le_bytes(v) =~= b);
}

/// Decrypting the encryption of `v` under one key with another key fails,
/// unless the decrypted block happens to end in a zero tag (the collision
/// case, which a random 16-byte block meets with probability 2^-64).
pub proof fn lemma_other_key_rejected(k1: Seq<u8>, k2: Seq<u8>, v: u64)
    requires
        aes128_encrypt(k1, plain_block(v)).len() == 16,
        le_value(aes128_decrypt(k2, aes128_encrypt(k1, plain_block(v))).subrange(8, 16)) != 0,
    ensures
        decrypt_result(k2, encrypt_text(k1, v)) == Result::<u64>::Err(Error::Decryption),
{
    lemma_format_round_trip(aes128_encrypt(k1, plain_block(v)));
}

/// Reads the little-endian integer in the eight bytes of `b` from `at`.
fn read_le_u64(b: &[u8; 16], at: usize) -> (r: u64)
    requires
        at <= 8,
    ensures
        r == le_value(b@.subrange(at as int, at + 8)),
{
    (b[at] as u64) | ((b[at + 1] as u64) << 8) | ((b[at + 2] as u64) << 16) | ((b[at + 3] as u64)
        << 24) | ((b[at + 4] as u64) << 32) | ((b[at + 5] as u64) << 40) | ((b[at + 6] as u64)
        << 48) | ((b[at + 7] as u64) << 56)
}

/// CRUID-AES-128 encryption key.
pub struct EncryptionKey {
    cipher: Aes128,
    key: Ghost<Seq<u8>>,
}

impl View for EncryptionKey {
    type V = Seq<u8>;

    /// The 16 bytes of the key.
    closed spec fn view(&self) -> Seq<u8> {
        self.key@
    }
}

impl EncryptionKey {
    /// Size of an encryption key in bytes.
    pub const BYTE_SIZE: usize = 16;

    #[verifier::type_invariant]
    spec fn well_formed(self) -> bool {
        &&& self.key@.len() == 16
        &&& aes128_key(self.cipher) == self.key@
    }

    /// Create a new encryption key from the given bytes.
    pub fn new(bytes: &[u8; 16]) -> (r: Self)
        ensures
            r@ == bytes@,
    {
        EncryptionKey { cipher: new_cipher(bytes), key: Ghost(bytes@) }
    }

    /// Relies on `BlockEncrypt::encrypt_block` for `aes::Aes128`: the block
    /// is replaced by its AES-128 encryption, which decryption under the same
    /// key undoes.
    #[verifier::external_body]
    fn encrypt_block(&self, block: &[u8; 16]) -> (r: [u8; 16])
        requires
            aes128_key(self.cipher) == self.key@,
        ensures
            r@ == aes128_encrypt(self.key@, block@),
            aes128_decrypt(self.key@, r@) == block@,
    {
        let mut b = aes::Block::from(*block);
        self.cipher.encrypt_block(&mut b);
        b.into()
    }

    /// Relies on `BlockDecrypt::decrypt_block` for `aes::Aes128`: the block
    /// is replaced by its AES-128 decryption, which encryption under the same
    /// key undoes.
    #[verifier::external_body]
    fn decrypt_block(&self, block: &[u8; 16]) -> (r: [u8; 16])
        requires
            aes128_key(self.cipher) == self.key@,
        ensures
            r@ == aes128_decrypt(self.key@, block@),
            aes128_encrypt(self.key@, r@) == block@,
    {
        let mut b = aes::Block::from(*block);
        self.cipher.decrypt_block(&mut b);
        b.into()
    }

    /// Encrypt the given 64-bit integer, returning a [`Cruid`].
    ///
    /// Decrypting the result under the same key gives `plaintext` back.
    pub fn encrypt(&self, plaintext: u64) -> (r: Cruid)
        ensures
            r@ == encrypt_text(self@, plaintext),
            valid_text(r@),
            aes128_encrypt(self@, plain_block(plaintext)).len() == 16,
            decrypt_result(self@, r@) == Result::<u64>::Ok(plaintext),
    {
        proof {
            use_type_invariant(self);
        }
        let mut block: [u8; 16] = [0u8; 16];
        block[0] = plaintext as u8;
        block[1] = (plaintext >> 8) as u8;
        block[2] = (plaintext >> 16) as u8;
        block[3] = (plaintext >> 24) as u8;
        block[4] = (plaintext >> 32) as u8;
        block[5] = (plaintext >> 40) as u8;
        block[6] = (plaintext >> 48) as u8;
        block[7] = (plaintext >> 56) as u8;
        assert(0u64 as u8 == 0 && (0u64 >> 8) as u8 == 0 && (0u64 >> 16) as u8 == 0 && (0u64
            >> 24) as u8 == 0 && (0u64 >> 32) as u8 == 0 && (0u64 >> 40) as u8 == 0 && (0u64
            >> 48) as u8 == 0 && (0u64 >> 56) as u8 == 0) by (bit_vector);
        assert(block@ =~= plain_block(plaintext));
        let sealed = self.encrypt_block(&block);
        let r = Cruid::from_bytes(&sealed);
        proof {
            lemma_format_valid(sealed@);
            lemma_format_round_trip(sealed@);
            lemma_le_round_trip(plaintext);
            lemma_le_round_trip(0);
            assert(plain_block(plaintext).subrange(0, 8) =~= le_bytes(plaintext));
            assert(plain_block(plaintext).subrange(8, 16) =~= le_bytes(0));
        }
        r
    }

    /// Decrypt the given [`Cruid`], returning a 64-bit integer if it
    /// authenticates successfully under this key.
    pub fn decrypt(&self, cruid: &Cruid) -> (r: Result<u64>)
        ensures
            r == decrypt_result(self@, cruid@),
            aes128_decrypt(self@, text_raw(cruid@)).len() == 16,
            r matches Ok(v) ==> aes128_encrypt(self@, plain_block(v)) == text_raw(cruid@),
    {
        proof {
            use_type_invariant(self);
        }
        let raw = cruid.to_bytes();
        let block = self.decrypt_block(&raw);
        let value = read_le_u64(&block, 0);
        let tag = read_le_u64(&block, 8);
        if tag == 0 {
            proof {
                lemma_le_bytes_of_value(block@.subrange(0, 8));
                lemma_le_bytes_of_value(block@.subrange(8, 16));
                lemma_le_round_trip(0);
                assert(block@ =~= plain_block(value));
            }
            Ok(value)
        } else {
            Err(Error::Decryption)
        }
    }
}

} // verus!
