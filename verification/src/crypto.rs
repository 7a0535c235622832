//! Encryption of everything that crosses the tunnel: ChaCha20-Poly1305 under a key
//! derived from the shared password with Argon2id.

use crate::wire;
use chacha20poly1305::aead::{Aead, KeyInit};
use rand::RngCore;
use std::sync::atomic::{AtomicU64, Ordering};
use vstd::prelude::*;

verus! {

broadcast use vstd::seq::group_seq_axioms;

/// Bytes of the nonce in front of a sealed message.
pub const NONCE_SIZE: usize = 12;

/// Bytes of the authentication tag at the end of a sealed message.
pub const TAG_SIZE: usize = 16;

/// The longest message that the keystream covers: all of its 64-byte blocks but the
/// one that yields the authentication key.
pub const MAX_PLAINTEXT: u64 = 0x3f_ffff_ff80;

/// Argon2id memory, in KiB.
pub const MEMORY_COST: u32 = 19456;

/// Argon2id iterations.
pub const TIME_COST: u32 = 2;

/// Argon2id threads.
pub const PARALLEL_COST: u32 = 1;

/// The salt is fixed, so that both ends derive the same key from the password.
pub const SALT: &'static str = "tunnix-salt-v1-fixed-32bytes!!!!";

/// Why a message could not be sealed or opened, or a key could not be derived.
#[derive(Debug)]
pub enum CryptoError {
    EncryptionFailed,
    DecryptionFailed,
    KeyDerivationFailed(String),
    InvalidNonce,
}

impl CryptoError {
    /// What the error says to a user.
    pub open spec fn text(&self) -> Seq<char> {
        match *self {
            CryptoError::EncryptionFailed => "Encryption failed"@,
            CryptoError::DecryptionFailed => "Decryption failed"@,
            CryptoError::KeyDerivationFailed(e) => "Key derivation failed: "@ + e@,
            CryptoError::InvalidNonce => "Invalid nonce"@,
        }
    }

    /// What the error says to a user.
    pub fn message(&self) -> (r: String)
        ensures
            r@ == self.text(),
    {
        match self {
            CryptoError::EncryptionFailed => String::from_str("Encryption failed"),
            CryptoError::DecryptionFailed => String::from_str("Decryption failed"),
            CryptoError::KeyDerivationFailed(e) => String::from_str(
                "Key derivation failed: ",
            ).concat(e.as_str()),
            CryptoError::InvalidNonce => String::from_str("Invalid nonce"),
        }
    }
}

/// Why the cipher could not seal or open a message; it says no more than that.
#[verifier::external_type_specification]
#[verifier::external_body]
pub struct ExAeadError(chacha20poly1305::aead::Error);

/// What Argon2id (version 0x13, 32 bytes of output) yields for a password, a salt
/// and the three cost parameters: the output, if there is one, or what went wrong.
pub uninterp spec fn argon2id_hash(
    password: Seq<u8>,
    salt: Seq<u8>,
    m_cost: u32,
    t_cost: u32,
    p_cost: u32,
) -> Result<Option<Seq<u8>>, Seq<char>>;

/// What ChaCha20-Poly1305 makes of a message under a key and a nonce: the
/// ciphertext with its tag.
pub uninterp spec fn chacha_seal(key: Seq<u8>, nonce: Seq<u8>, plaintext: Seq<u8>) -> Seq<u8>;

/// What ChaCha20-Poly1305 reads out of a ciphertext with its tag under a key and a
/// nonce, or nothing where the tag does not belong to it.
pub uninterp spec fn chacha_open(key: Seq<u8>, nonce: Seq<u8>, ciphertext: Seq<u8>) -> Option<
    Seq<u8>,
>;

/// `Argon2::hash_password` with the algorithm Argon2id, version 0x13 and the given
/// costs. It works in `m_cost` KiB of memory, here less than 2 GiB. For a password of
/// less than 4 GiB it yields 32 bytes. The result depends on the arguments alone; how
/// it comes about is not stated.
#[verifier::external_body]
fn argon2id(password: &[u8], salt: &[u8], m_cost: u32, t_cost: u32, p_cost: u32) -> (r: Result<
    Option<Vec<u8>>,
    String,
>)
    requires
        8 <= salt@.len() <= 48,
        1 <= t_cost,
        1 <= p_cost <= 0xff_ffff,
        8 * p_cost <= m_cost <= 0x1f_ffff,
    ensures
        match r {
            Ok(None) => argon2id_hash(password@, salt@, m_cost, t_cost, p_cost)
                == Ok::<Option<Seq<u8>>, Seq<char>>(None),
            Ok(Some(h)) => argon2id_hash(password@, salt@, m_cost, t_cost, p_cost)
                == Ok::<Option<Seq<u8>>, Seq<char>>(Some(h@)) && h@.len() == 32,
            Err(e) => argon2id_hash(password@, salt@, m_cost, t_cost, p_cost)
                == Err::<Option<Seq<u8>>, Seq<char>>(e@),
        },
        password@.len() <= u32::MAX ==> r is Ok && r->Ok_0 is Some,
{
    let salt = argon2::password_hash::SaltString::encode_b64(salt).map_err(|e| e.to_string())?;
    let params = argon2::ParamsBuilder::new()
        .m_cost(m_cost)
        .t_cost(t_cost)
        .p_cost(p_cost)
        .build()
        .map_err(|e| e.to_string())?;
    argon2::PasswordHasher::hash_password(
        &argon2::Argon2::new(argon2::Algorithm::Argon2id, argon2::Version::V0x13, params),
        password,
        &salt,
    ).map(|h| h.hash.map(|o| o.as_bytes().to_vec())).map_err(|e| e.to_string())
}

/// `ChaCha20Poly1305::encrypt` without associated data. It succeeds on every message
/// that the keystream covers, appends a tag of 16 bytes, and what it returns is
/// opened again under the same key and nonce. Which bytes it returns depends on the
/// arguments alone and is not stated.
#[verifier::external_body]
fn seal(key: &[u8], nonce: &[u8], plaintext: &[u8]) -> (r: Result<
    Vec<u8>,
    chacha20poly1305::aead::Error,
>)
    requires
        key@.len() == 32,
        nonce@.len() == NONCE_SIZE,
        plaintext@.len() <= MAX_PLAINTEXT,
    ensures
        r is Ok,
        r->Ok_0@ == chacha_seal(key@, nonce@, plaintext@),
        r->Ok_0@.len() == plaintext@.len() + TAG_SIZE,
        chacha_open(key@, nonce@, r->Ok_0@) == Some(plaintext@),
{
    chacha20poly1305::ChaCha20Poly1305::new(chacha20poly1305::Key::from_slice(key))
        .encrypt(chacha20poly1305::Nonce::from_slice(nonce), plaintext)
}

/// `ChaCha20Poly1305::decrypt` without associated data. It returns the message, 16
/// bytes shorter than the ciphertext with its tag, or an error where the tag does not
/// belong to it. Which of the two, and which message, depends on the arguments alone
/// and is not stated.
#[verifier::external_body]
fn open(key: &[u8], nonce: &[u8], ciphertext: &[u8]) -> (r: Result<
    Vec<u8>,
    chacha20poly1305::aead::Error,
>)
    requires
        key@.len() == 32,
        nonce@.len() == NONCE_SIZE,
        TAG_SIZE <= ciphertext@.len() <= MAX_PLAINTEXT + TAG_SIZE,
    ensures
        match r {
            Ok(p) => chacha_open(key@, nonce@, ciphertext@) == Some(p@) && p@.len() + TAG_SIZE
                == ciphertext@.len(),
            Err(_) => chacha_open(key@, nonce@, ciphertext@) is None,
        },
{
    chacha20poly1305::ChaCha20Poly1305::new(chacha20poly1305::Key::from_slice(key))
        .decrypt(chacha20poly1305::Nonce::from_slice(nonce), ciphertext)
}

/// Four bytes from `OsRng::fill_bytes`. Nothing is known of them.
#[verifier::external_body]
fn random_bytes() -> (r: [u8; 4]) {
    let mut bytes = [0u8; 4];
    chacha20poly1305::aead::OsRng.fill_bytes(&mut bytes);
    bytes
}

/// A nonce: the counter, the least significant byte first, and four random bytes.
pub open spec fn nonce_bytes(counter: u64, random: Seq<u8>) -> Seq<u8> {
    wire::le_bytes(counter as nat, 8) + random
}

/// A sealed message: the nonce, the ciphertext, the tag.
pub open spec fn sealed(key: Seq<u8>, nonce: Seq<u8>, plaintext: Seq<u8>) -> Seq<u8> {
    nonce + chacha_seal(key, nonce, plaintext)
}

/// What a sealed message opens to, where it is whole and was sealed with the key.
pub open spec fn opened(key: Seq<u8>, data: Seq<u8>) -> Option<Seq<u8>> {
    if NONCE_SIZE + TAG_SIZE <= data.len() <= NONCE_SIZE + TAG_SIZE + MAX_PLAINTEXT {
        chacha_open(key, data.take(NONCE_SIZE as int), data.skip(NONCE_SIZE as int))
    } else {
        None
    }
}

/// What `Crypto` makes of the outcome of the password hash.
pub open spec fn key_of_hash(hash: Result<Option<Seq<u8>>, Seq<char>>) -> Result<
    Seq<u8>,
    Seq<char>,
> {
    match hash {
        Ok(Some(h)) => Ok(h.take(32)),
        Ok(None) => Err("No hash output"@),
        Err(e) => Err(e),
    }
}

/// The key that a password stands for.
pub open spec fn derived_key(password: Seq<char>) -> Result<Seq<u8>, Seq<char>> {
    key_of_hash(
        argon2id_hash(
            vstd::utf8::encode_utf8(password),
            vstd::utf8::encode_utf8(SALT@),
            MEMORY_COST,
            TIME_COST,
            PARALLEL_COST,
        ),
    )
}

/// The nonce for a counter and four random bytes.
pub fn make_nonce(counter: u64, random: [u8; 4]) -> (r: Vec<u8>)
    ensures
        r@ == nonce_bytes(counter, random@),
        r@.len() == NONCE_SIZE,
{
    let mut out: Vec<u8> = Vec::new();
    let mut n: u64 = counter;
    let mut i: usize = 0;
    assert(out@ + wire::le_bytes(n as nat, 8) =~= wire::le_bytes(counter as nat, 8));
    while i < 8
        invariant
            i <= 8,
            out@ + wire::le_bytes(n as nat, (8 - i) as nat) == wire::le_bytes(counter as nat, 8),
        decreases 8 - i,
    {
        let ghost before = out@;
        let b: u8 = (n % 256) as u8;
        out.push(b);
        assert(before + wire::le_bytes(n as nat, (8 - i) as nat) =~= out@ + wire::le_bytes(
            (n / 256) as nat,
            (7 - i) as nat,
        ));
        n = n / 256;
        i += 1;
    }
    assert(out@ =~= wire::le_bytes(counter as nat, 8));
    proof {
        wire::le_bytes_len(counter as nat, 8);
    }
    let mut j: usize = 0;
    while j < 4
        invariant
            j <= 4,
            out@ == wire::le_bytes(counter as nat, 8) + random@.take(j as int),
            random@.len() == 4,
        decreases 4 - j,
    {
        out.push(random[j]);
        assert(random@.take(j + 1) =~= random@.take(j as int).push(random@[j as int]));
        j += 1;
    }
    assert(random@.take(4) =~= random@);
    out
}

/// The key out of the outcome of the password hash: its first 32 bytes.
pub fn key_from_hash(hash: Result<Option<Vec<u8>>, String>) -> (r: Result<[u8; 32], CryptoError>)
    requires
        hash is Ok && hash->Ok_0 is Some ==> hash->Ok_0->0@.len() >= 32,
    ensures
        match (hash, r) {
            (Ok(Some(h)), Ok(key)) => key@ == h@.take(32),
            (Ok(None), Err(CryptoError::KeyDerivationFailed(m))) => m@ == "No hash output"@,
            (Err(e), Err(CryptoError::KeyDerivationFailed(m))) => m@ == e@,
            _ => false,
        },
{
    match hash {
        Ok(Some(h)) => {
            let mut key: [u8; 32] = [0u8;32];
            let mut i: usize = 0;
            while i < 32
                invariant
                    i <= 32,
                    h@.len() >= 32,
                    key@.len() == 32,
                    forall|j: int| 0 <= j < i ==> key@[j] == h@[j],
                decreases 32 - i,
            {
                key[i] = h[i];
                i += 1;
            }
            assert(key@ =~= h@.take(32));
            Ok(key)
        },
        Ok(None) => Err(CryptoError::KeyDerivationFailed(String::from_str("No hash output"))),
        Err(e) => Err(CryptoError::KeyDerivationFailed(e)),
    }
}

/// The nonce and the rest of a sealed message, where it is long enough for a nonce
/// and a tag.
pub fn split_sealed(data: &[u8]) -> (r: Option<(&[u8], &[u8])>)
    ensures
        match r {
            Some((nonce, rest)) => {
                &&& data@.len() >= NONCE_SIZE + TAG_SIZE
                &&& nonce@ == data@.take(NONCE_SIZE as int)
                &&& rest@ == data@.skip(NONCE_SIZE as int)
            },
            None => data@.len() < NONCE_SIZE + TAG_SIZE,
        },
{
    if data.len() < NONCE_SIZE + TAG_SIZE {
        return None;
    }
    let (nonce, rest) = data.split_at(NONCE_SIZE);
    assert(nonce@ =~= data@.take(NONCE_SIZE as int));
    assert(rest@ =~= data@.skip(NONCE_SIZE as int));
    Some((nonce, rest))
}

/// Encrypts and decrypts messages under one key.
pub struct Crypto {
    key: [u8; 32],
    nonce_counter: AtomicU64,
}

impl Crypto {
    /// The key.
    pub closed spec fn key(&self) -> Seq<u8> {
        self.key@
    }

    /// Create a handler for a password.
    pub fn new(password: &str) -> (r: Result<Self, CryptoError>)
        ensures
            match (derived_key(password@), r) {
                (Ok(key), Ok(c)) => c.key() == key && key.len() == 32,
                (Err(e), Err(CryptoError::KeyDerivationFailed(m))) => m@ == e,
                _ => false,
            },
            vstd::utf8::encode_utf8(password@).len() <= u32::MAX ==> r is Ok,
    {
        let key = match Self::derive_key(password) {
            Ok(key) => key,
            Err(e) => {
                return Err(e);
            },
        };
        Ok(Crypto { key, nonce_counter: AtomicU64::new(0) })
    }

    /// Derive the key from the password with Argon2id.
    pub fn derive_key(password: &str) -> (r: Result<[u8; 32], CryptoError>)
        ensures
            match (derived_key(password@), r) {
                (Ok(key), Ok(k)) => k@ == key,
                (Err(e), Err(CryptoError::KeyDerivationFailed(m))) => m@ == e,
                _ => false,
            },
            vstd::utf8::encode_utf8(password@).len() <= u32::MAX ==> r is Ok,
    {
        proof {
            reveal_strlit("tunnix-salt-v1-fixed-32bytes!!!!");
            vstd::string::is_ascii_spec_bytes(SALT);
        }
        key_from_hash(
            argon2id(
                password.as_bytes(),
                SALT.as_bytes(),
                MEMORY_COST,
                TIME_COST,
                PARALLEL_COST,
            ),
        )
    }

    /// A nonce that starts with the counter, which goes up by one with each call. That no
    /// two calls see the same count is up to the atomic counter and is not stated.
    fn generate_nonce(&self) -> (r: Vec<u8>)
        ensures
            exists|counter: u64, random: Seq<u8>|
                r@ == #[trigger] nonce_bytes(counter, random) && random.len() == 4,
            r@.len() == NONCE_SIZE,
    {
        let counter: u64 = self.nonce_counter.fetch_add(1, Ordering::SeqCst);
        make_nonce(counter, random_bytes())
    }

    /// Seal a message under a given nonce.
    ///
    /// Returns `[nonce (12 bytes)][ciphertext][tag (16 bytes)]`; fails exactly on a
    /// message that is longer than the keystream.
    pub fn encrypt_with_nonce(&self, nonce: &[u8], plaintext: &[u8]) -> (r: Result<
        Vec<u8>,
        CryptoError,
    >)
        requires
            nonce@.len() == NONCE_SIZE,
        ensures
            match r {
                Ok(data) => {
                    &&& plaintext@.len() <= MAX_PLAINTEXT
                    &&& data@ == sealed(self.key(), nonce@, plaintext@)
                    &&& data@.len() == NONCE_SIZE + plaintext@.len() + TAG_SIZE
                    &&& opened(self.key(), data@) == Some(plaintext@)
                },
                Err(e) => e is EncryptionFailed && plaintext@.len() > MAX_PLAINTEXT,
            },
    {
        if plaintext.len() as u64 > MAX_PLAINTEXT {
            return Err(CryptoError::EncryptionFailed);
        }
        let mut ciphertext = match seal(self.key.as_slice(), nonce, plaintext) {
            Ok(c) => c,
            Err(_) => {
                return Err(CryptoError::EncryptionFailed);
            },
        };
        let ghost body = ciphertext@;
        let mut data: Vec<u8> = Vec::new();
        data.extend_from_slice(nonce);
        data.append(&mut ciphertext);
        assert(data@.take(NONCE_SIZE as int) =~= nonce@);
        assert(data@.skip(NONCE_SIZE as int) =~= body);
        Ok(data)
    }

    /// Seal a message under a fresh nonce.
    ///
    /// Returns `[nonce (12 bytes)][ciphertext][tag (16 bytes)]`; fails exactly on a
    /// message that is longer than the keystream.
    pub fn encrypt(&self, plaintext: &[u8]) -> (r: Result<Vec<u8>, CryptoError>)
        ensures
            match r {
                Ok(data) => {
                    &&& plaintext@.len() <= MAX_PLAINTEXT
                    &&& exists|counter: u64, random: Seq<u8>|
                        random.len() == 4 && data@ == sealed(
                            self.key(),
                            #[trigger] nonce_bytes(counter, random),
                            plaintext@,
                        )
                    &&& data@.len() == NONCE_SIZE + plaintext@.len() + TAG_SIZE
                    &&& opened(self.key(), data@) == Some(plaintext@)
                },
                Err(e) => e is EncryptionFailed && plaintext@.len() > MAX_PLAINTEXT,
            },
    {
        let nonce = self.generate_nonce();
        self.encrypt_with_nonce(nonce.as_slice(), plaintext)
    }

    /// Open a sealed message, `[nonce (12 bytes)][ciphertext][tag (16 bytes)]`.
    ///
    /// What is too short for a nonce and a tag has an invalid nonce; what was not
    /// sealed with this key, or was changed since, fails to decrypt.
    pub fn decrypt(&self, data: &[u8]) -> (r: Result<Vec<u8>, CryptoError>)
        ensures
            match r {
                Ok(p) => opened(self.key(), data@) == Some(p@),
                Err(e) => {
                    &&& opened(self.key(), data@) is None
                    &&& e is InvalidNonce <==> data@.len() < NONCE_SIZE + TAG_SIZE
                    &&& e is DecryptionFailed <==> data@.len() >= NONCE_SIZE + TAG_SIZE
                },
            },
    {
        match split_sealed(data) {
            None => Err(CryptoError::InvalidNonce),
            Some((nonce, rest)) => {
                if rest.len() as u64 > MAX_PLAINTEXT + TAG_SIZE as u64 {
                    return Err(CryptoError::DecryptionFailed);
                }
                match open(self.key.as_slice(), nonce, rest) {
                    Ok(p) => Ok(p),
                    Err(_) => Err(CryptoError::DecryptionFailed),
                }
            },
        }
    }
}

/// Two ends that share a password share the key: what one seals the other opens.
pub proof fn one_password_opens_both_ways(
    password: Seq<char>,
    key1: Seq<u8>,
    key2: Seq<u8>,
    data: Seq<u8>,
)
    requires
        derived_key(password) == Ok::<Seq<u8>, Seq<char>>(key1),
        derived_key(password) == Ok::<Seq<u8>, Seq<char>>(key2),
    ensures
        opened(key1, data) == opened(key2, data),
{
}

/// Nonces made from different counters differ, whatever the random bytes.
pub proof fn counters_make_nonces_distinct(
    counter1: u64,
    random1: Seq<u8>,
    counter2: u64,
    random2: Seq<u8>,
)
    requires
        counter1 != counter2,
    ensures
        nonce_bytes(counter1, random1) != nonce_bytes(counter2, random2),
{
    if nonce_bytes(counter1, random1) == nonce_bytes(counter2, random2) {
        let b = nonce_bytes(counter1, random1);
        wire::byte_ranges();
        wire::prefix_of_concat(wire::le_bytes(counter1 as nat, 8), random1, b);
        wire::prefix_of_concat(wire::le_bytes(counter2 as nat, 8), random2, b);
        assert(b.is_prefix_of(b)) by {
            assert(b =~= b.subrange(0, b.len() as int));
        }
        wire::le_bytes_unique(counter1 as nat, counter2 as nat, 8, b);
    }
}

/// The same message sealed under two counters yields two different byte strings.
pub proof fn sealing_twice_differs(
    key: Seq<u8>,
    counter1: u64,
    random1: Seq<u8>,
    counter2: u64,
    random2: Seq<u8>,
    plaintext: Seq<u8>,
)
    requires
        counter1 != counter2,
        random1.len() == 4,
        random2.len() == 4,
    ensures
        sealed(key, nonce_bytes(counter1, random1), plaintext) != sealed(
            key,
            nonce_bytes(counter2, random2),
            plaintext,
        ),
{
    let n1 = nonce_bytes(counter1, random1);
    let n2 = nonce_bytes(counter2, random2);
    counters_make_nonces_distinct(counter1, random1, counter2, random2);
    wire::le_bytes_len(counter1 as nat, 8);
    wire::le_bytes_len(counter2 as nat, 8);
    if sealed(key, n1, plaintext) == sealed(key, n2, plaintext) {
        assert(sealed(key, n1, plaintext).take(12) =~= n1);
        assert(sealed(key, n2, plaintext).take(12) =~= n2);
    }
}

/// A sealed message is taken apart where it was put together: the nonce is its first twelve
/// bytes, and it opens to what the cipher reads out of the rest under that nonce. What is
/// too short for a nonce and a tag opens to nothing.
pub proof fn sealed_messages_hold_their_nonce(
    key: Seq<u8>,
    nonce: Seq<u8>,
    plaintext: Seq<u8>,
    data: Seq<u8>,
)
    requires
        nonce.len() == 12,
    ensures
        sealed(key, nonce, plaintext).take(12) == nonce,
        sealed(key, nonce, plaintext).skip(12) == chacha_seal(key, nonce, plaintext),
        data.len() < 28 ==> opened(key, data) is None,
        28 <= data.len() <= 0x3f_ffff_ff9c ==> opened(key, data) == chacha_open(
            key,
            data.take(12),
            data.skip(12),
        ),
{
    assert(sealed(key, nonce, plaintext).take(12) =~= nonce);
    assert(sealed(key, nonce, plaintext).skip(12) =~= chacha_seal(key, nonce, plaintext));
}

/// A nonce is the count in eight bytes, the least significant first, and the random bytes
/// behind it.
pub proof fn nonces_start_with_the_count(counter: u64, random: Seq<u8>)
    requires
        random.len() == 4,
    ensures
        nonce_bytes(counter, random).len() == 12,
        wire::le_value(nonce_bytes(counter, random).take(8)) == counter,
        nonce_bytes(counter, random).skip(8) == random,
{
    wire::byte_ranges();
    wire::le_bytes_len(counter as nat, 8);
    wire::le_value_of_le_bytes(counter as nat, 8);
    assert(nonce_bytes(counter, random).take(8) =~= wire::le_bytes(counter as nat, 8));
    assert(nonce_bytes(counter, random).skip(8) =~= random);
}

/// The key is the first thirty-two bytes that Argon2id makes of the password under the
/// fixed salt, with 19456 KiB, two rounds and one thread; what goes wrong there is told.
pub proof fn keys_come_from_the_password(password: Seq<char>)
    ensures
        ({
            let hash = argon2id_hash(
                vstd::utf8::encode_utf8(password),
                vstd::utf8::encode_utf8("tunnix-salt-v1-fixed-32bytes!!!!"@),
                19456,
                2,
                1,
            );
            &&& hash is Ok && hash->Ok_0 is Some ==> derived_key(password) == Ok::<
                Seq<u8>,
                Seq<char>,
            >(hash->Ok_0->0.take(32))
            &&& hash is Ok && hash->Ok_0 is None ==> derived_key(password) == Err::<
                Seq<u8>,
                Seq<char>,
            >("No hash output"@)
            &&& hash is Err ==> derived_key(password) == Err::<Seq<u8>, Seq<char>>(hash->Err_0)
        }),
{
}

/// What errors say.
pub proof fn crypto_errors_speak(e: String)
    ensures
        CryptoError::EncryptionFailed.text() == "Encryption failed"@,
        CryptoError::DecryptionFailed.text() == "Decryption failed"@,
        CryptoError::KeyDerivationFailed(e).text() == "Key derivation failed: "@ + e@,
        CryptoError::InvalidNonce.text() == "Invalid nonce"@,
        NONCE_SIZE == 12,
        TAG_SIZE == 16,
{
}

} // verus!
