//! SHA-256 digests of files and their hexadecimal form.

use crate::text;
use sha2::Digest;
use vstd::prelude::*;

verus! {

/// The hasher of the `sha2` crate.
#[verifier::external_type_specification]
#[verifier::external_body]
pub struct ExSha256(sha2::Sha256);

/// The bytes that a hasher has taken in.
pub uninterp spec fn absorbed(hasher: sha2::Sha256) -> Seq<u8>;

/// The SHA-256 digest of `data`.
pub uninterp spec fn sha256(data: Seq<u8>) -> Seq<u8>;

/// The number of bytes at which a message is too long for SHA-256, whose
/// padding holds the length in bits as a 64-bit number.
pub const MESSAGE_LIMIT: u64 = 0x2000_0000_0000_0000;

/// Calls `Sha256::new`. Claims that a new hasher has taken in no bytes.
#[verifier::external_body]
fn sha2_new() -> (hasher: sha2::Sha256)
    ensures
        absorbed(hasher) == Seq::<u8>::empty(),
{
    sha2::Sha256::new()
}

/// Calls `Digest::update`. Claims that the hasher takes in `data` after what it
/// had.
#[verifier::external_body]
fn sha2_update(hasher: &mut sha2::Sha256, data: &[u8])
    requires
        absorbed(*old(hasher)).len() + data@.len() < MESSAGE_LIMIT,
    ensures
        absorbed(*final(hasher)) == absorbed(*old(hasher)) + data@,
{
    hasher.update(data);
}

/// Calls `Digest::finalize`. Claims that the result is the digest, of 32 bytes,
/// of what the hasher has taken in.
#[verifier::external_body]
fn sha2_finalize(hasher: sha2::Sha256) -> (digest: Vec<u8>)
    requires
        absorbed(hasher).len() < MESSAGE_LIMIT,
    ensures
        digest@ == sha256(absorbed(hasher)),
        digest@.len() == 32,
{
    hasher.finalize().to_vec()
}

/// The lower-case hexadecimal digit of value `d`.
pub open spec fn hex_digit(d: int) -> char {
    if d < 10 {
        ('0' as int + d) as char
    } else {
        ('a' as int + (d - 10)) as char
    }
}

/// The hexadecimal form of `data`: two lower-case digits for each byte.
pub open spec fn hex(data: Seq<u8>) -> Seq<char> {
    Seq::new(
        2 * data.len(),
        |i: int|
            if i % 2 == 0 {
                hex_digit(data[i / 2] as int / 16)
            } else {
                hex_digit(data[i / 2] as int % 16)
            },
    )
}

/// The hexadecimal form of bytes is made of hexadecimal digits, and already in
/// lower case.
pub proof fn hex_is_lowercase(data: Seq<u8>)
    ensures
        forall|i: int|
            0 <= i < hex(data).len() ==> ('0' <= #[trigger] hex(data)[i] <= '9' || 'a' <= hex(
                data,
            )[i] <= 'f'),
        vstd::utf8::is_ascii_chars(hex(data)),
        text::lowercase(hex(data)) == hex(data),
{
    let h = hex(data);
    assert forall|i: int| 0 <= i < h.len() implies ('0' <= #[trigger] h[i] <= '9' || 'a' <= h[i]
        <= 'f') by {
        let b = data[i / 2] as int;
        assert(0 <= b / 16 < 16);
        assert(0 <= b % 16 < 16);
    }
    assert(text::ascii_lowercase(h) == h);
}

/// Calls `hex::encode`. Claims that it writes each byte as two lower-case
/// hexadecimal digits, in order.
#[verifier::external_body]
fn hex_encode(data: &[u8]) -> (text: String)
    requires
        2 * data@.len() <= isize::MAX,
    ensures
        text@ == hex(data@),
{
    hex::encode(data)
}

/// A SHA-256 digest in the making. It takes a file in piece by piece, so that
/// a large file need not be held in memory.
pub struct FileHasher {
    hasher: sha2::Sha256,
    length: u64,
}

impl View for FileHasher {
    type V = Seq<u8>;

    /// The bytes taken in so far.
    closed spec fn view(&self) -> Seq<u8> {
        absorbed(self.hasher)
    }
}

impl FileHasher {
    /// The count is right, and what was taken in is not too long for SHA-256.
    #[verifier::type_invariant]
    spec fn counts(self) -> bool {
        &&& self.length == absorbed(self.hasher).len()
        &&& self.length < MESSAGE_LIMIT
    }

    /// A hasher that has taken in nothing.
    pub fn new() -> (r: FileHasher)
        ensures
            r@ == Seq::<u8>::empty(),
    {
        FileHasher { hasher: sha2_new(), length: 0 }
    }

    /// Whether a piece of `length` bytes can still be taken in.
    pub fn has_room_for(&self, length: usize) -> (r: bool)
        ensures
            r == (self@.len() + length < MESSAGE_LIMIT),
    {
        proof {
            use_type_invariant(self);
        }
        (length as u64) < MESSAGE_LIMIT - self.length
    }

    /// Takes in the next piece of the file.
    pub fn update(self, piece: &[u8]) -> (r: FileHasher)
        requires
            self@.len() + piece@.len() < MESSAGE_LIMIT,
        ensures
            r@ == self@ + piece@,
    {
        proof {
            use_type_invariant(&self);
        }
        let length: u64 = self.length + piece.len() as u64;
        let mut hasher = self.hasher;
        sha2_update(&mut hasher, piece);
        FileHasher { hasher, length }
    }

    /// The digest of the file, in hexadecimal.
    pub fn finish(self) -> (r: String)
        ensures
            r@ == hex(sha256(self@)),
            r@.len() == 64,
    {
        proof {
            use_type_invariant(&self);
        }
        let digest = sha2_finalize(self.hasher);
        hex_encode(digest.as_slice())
    }
}

} // verus!
