//! The identifier of a chunk: 32 bytes, and their name in hexadecimal.

use vstd::prelude::*;
use vstd::string::StringExecFns;
use std::sync::Arc;
use crate::layout::ID_LENGTH;

verus! {

/// `rand::rngs::ThreadRng`, the random number generator of the thread.
#[verifier::external_type_specification]
#[verifier::external_body]
pub struct ExThreadRng(rand::rngs::ThreadRng);

/// The sixteen digits of lower-case hexadecimal.
pub open spec fn hex_digits() -> Seq<char> {
    seq!['0', '1', '2', '3', '4', '5', '6', '7', '8', '9', 'a', 'b', 'c', 'd', 'e', 'f']
}

/// `bytes` in lower-case hexadecimal: two digits for each byte, the high
/// half first.
pub open spec fn lower_hex(bytes: Seq<u8>) -> Seq<char> {
    Seq::new(
        2 * bytes.len(),
        |i: int|
            if i % 2 == 0 {
                hex_digits()[bytes[i / 2] as int / 16]
            } else {
                hex_digits()[bytes[i / 2] as int % 16]
            },
    )
}

/// The lowest `width` bytes of `value`, the lowest first.
pub open spec fn le_bytes(value: nat, width: nat) -> Seq<u8>
    decreases width,
{
    if width == 0 {
        Seq::empty()
    } else {
        seq![(value % 256) as u8] + le_bytes(value / 256, (width - 1) as nat)
    }
}

/// The BLAKE3 hash of `input` under the key `key`, which has 32 bytes.
pub uninterp spec fn keyed_hash(key: Seq<u8>, input: Seq<u8>) -> Seq<u8>;

/// `hex::encode`: the bytes in lower-case hexadecimal, two digits for each
/// byte with the high half first, which is what `lower_hex` says.
#[verifier::external_body]
fn hex_encode(bytes: &[u8; ID_LENGTH]) -> (text: String)
    ensures
        text@ == lower_hex(bytes@),
{
    hex::encode(bytes)
}

/// `blake3::keyed_hash`: the 32 bytes of the BLAKE3 hash of `input` under
/// `key`. The hash is a function of the key and the input alone; no more is
/// claimed of it.
#[verifier::external_body]
fn blake3_keyed_hash(key: &[u8; ID_LENGTH], input: &[u8]) -> (digest: [u8; ID_LENGTH])
    ensures
        digest@ == keyed_hash(key@, input@),
{
    *blake3::keyed_hash(key, input).as_bytes()
}

/// `rand::thread_rng`: the random number generator of the calling thread.
#[verifier::external_body]
fn thread_rng() -> rand::rngs::ThreadRng {
    rand::thread_rng()
}

/// `RngCore::fill_bytes` of `ThreadRng`: overwrites `dest` with random
/// bytes. Nothing is claimed of them.
#[verifier::external_body]
fn fill_bytes(rng: &mut rand::rngs::ThreadRng, dest: &mut [u8; ID_LENGTH]) {
    rand::RngCore::fill_bytes(rng, dest)
}

/// The bytes of `value` in memory order on a little-endian machine: as many
/// as a `usize` has, the lowest first.
pub fn usize_le_bytes(value: usize) -> (bytes: Vec<u8>)
    ensures
        bytes@ == le_bytes(value as nat, (usize::BITS / 8) as nat),
{
    let width: usize = (usize::BITS / 8) as usize;
    let mut bytes: Vec<u8> = Vec::new();
    let mut rest: usize = value;
    let mut i: usize = 0;
    while i < width
        invariant
            i <= width,
            width == usize::BITS / 8,
            bytes@ + le_bytes(rest as nat, (width - i) as nat) == le_bytes(
                value as nat,
                width as nat,
            ),
        decreases width - i,
    {
        let ghost before = bytes@;
        bytes.push((rest % 256) as u8);
        assert(before + le_bytes(rest as nat, (width - i) as nat) =~= bytes@ + le_bytes(
            (rest / 256) as nat,
            (width - i - 1) as nat,
        ));
        rest = rest / 256;
        i = i + 1;
    }
    assert(bytes@ + le_bytes(rest as nat, 0) =~= bytes@);
    bytes
}

/// The identifier of a chunk. It is cheap to copy: the copies share the
/// bytes.
#[derive(Clone, Debug, PartialEq, Eq, PartialOrd, Ord, Hash)]
pub struct Id {
    inner: Arc<[u8; ID_LENGTH]>,
}

impl View for Id {
    type V = Seq<u8>;

    closed spec fn view(&self) -> Seq<u8> {
        self.inner@
    }
}

impl Id {
    /// The identifier with the bytes `id`.
    pub fn new(id: [u8; ID_LENGTH]) -> (r: Self)
        ensures
            r@ == id@,
    {
        Id { inner: Arc::new(id) }
    }

    /// An identifier of 32 random bytes.
    pub fn new_random() -> Self {
        let mut rng = thread_rng();
        let mut id = [0u8; ID_LENGTH];
        fill_bytes(&mut rng, &mut id);
        Id::new(id)
    }

    /// The hexadecimal name of an identifier has 64 characters, all of them
    /// ASCII.
    pub proof fn lemma_hex_ascii(&self)
        ensures
            lower_hex(self@).len() == 2 * ID_LENGTH,
            vstd::utf8::is_ascii_chars(lower_hex(self@)),
    {
        let text = lower_hex(self@);
        assert forall|i: int| 0 <= i < text.len() implies '\0' <= #[trigger] text[i] <= '\u{7f}' by {
            let digit = if i % 2 == 0 {
                self@[i / 2] as int / 16
            } else {
                self@[i / 2] as int % 16
            };
            assert(0 <= digit < 16);
            assert(text[i] == hex_digits()[digit]);
        }
    }

    /// The identifier in lower-case hexadecimal: 64 digits.
    pub fn hex(&self) -> (text: String)
        ensures
            text@ == lower_hex(self@),
    {
        hex_encode(&self.inner)
    }

    /// The `n`-th identifier derived from this one: the BLAKE3 hash of the
    /// bytes of `n`, lowest first, under this identifier as the key.
    pub fn derive_n(&self, n: usize) -> (derived: [u8; ID_LENGTH])
        ensures
            derived@ == keyed_hash(self@, le_bytes(n as nat, (usize::BITS / 8) as nat)),
    {
        let input = usize_le_bytes(n);
        blake3_keyed_hash(&self.inner, input.as_slice())
    }

    /// The identifier as text: `Id(`, its 64 hexadecimal digits, and `)`.
    pub fn to_string(&self) -> (text: String)
        ensures
            text@ == "Id("@ + lower_hex(self@) + ")"@,
    {
        let mut text = String::from_str("Id(");
        text.append(self.hex().as_str());
        text.append(")");
        text
    }
}

impl From<[u8; ID_LENGTH]> for Id {
    fn from(inner: [u8; ID_LENGTH]) -> (id: Id) {
        Id { inner: Arc::new(inner) }
    }
}

impl vstd::std_specs::convert::FromSpecImpl<[u8; ID_LENGTH]> for Id {
    open spec fn obeys_from_spec() -> bool {
        true
    }

    closed spec fn from_spec(inner: [u8; ID_LENGTH]) -> Id {
        Id { inner: Arc::new(inner) }
    }
}

impl std::ops::Deref for Id {
    type Target = [u8; ID_LENGTH];

    fn deref(&self) -> (bytes: &[u8; ID_LENGTH])
        ensures
            bytes@ == self@,
    {
        &self.inner
    }
}

impl AsRef<[u8]> for Id {
    fn as_ref(&self) -> (bytes: &[u8])
        ensures
            bytes@ == self@,
    {
        self.inner.as_slice()
    }
}

} // verus!
