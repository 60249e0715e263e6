//! Fingerprints: the bits that a hash algorithm emits, and their canonical
//! byte and text forms.
//!
//! The byte form packs eight bits to a byte, the first bit of each group in
//! the highest place, and pads the last byte with zero bits. The text form is
//! the lowercase hexadecimal rendering of the bytes.

use vstd::prelude::*;
use vstd::utf8::is_ascii_chars;
use bitvec::vec::BitVec;

verus! {

/// The bit at position `i` as a number; positions past the end count as the
/// zero bits that pad the last byte.
pub open spec fn bit_value(bits: Seq<bool>, i: int) -> int {
    if 0 <= i < bits.len() && bits[i] {
        1
    } else {
        0
    }
}

/// Number of bytes that hold `len` bits: `len / 8`, rounded up.
pub open spec fn packed_len(len: nat) -> nat {
    (len + 7) / 8
}

/// Byte `k` of the packed form: the bits `8 * k` to `8 * k + 7` read as a
/// binary number, the first of them the most significant.
pub open spec fn packed_byte(bits: Seq<bool>, k: int) -> int {
    128 * bit_value(bits, 8 * k) + 64 * bit_value(bits, 8 * k + 1) + 32 * bit_value(
        bits,
        8 * k + 2,
    ) + 16 * bit_value(bits, 8 * k + 3) + 8 * bit_value(bits, 8 * k + 4) + 4 * bit_value(
        bits,
        8 * k + 5,
    ) + 2 * bit_value(bits, 8 * k + 6) + bit_value(bits, 8 * k + 7)
}

/// The packed form of a bit sequence.
pub open spec fn packed(bits: Seq<bool>) -> Seq<u8> {
    Seq::new(packed_len(bits.len()), |k: int| packed_byte(bits, k) as u8)
}

/// The lowercase hexadecimal digit for a value from 0 to 15.
pub open spec fn hex_digit(n: int) -> char {
    "0123456789abcdef"@[n]
}

/// The lowercase hexadecimal rendering of bytes: two digits per byte, the
/// high half first.
pub open spec fn hex_of(bytes: Seq<u8>) -> Seq<char> {
    Seq::new(
        2 * bytes.len(),
        |i: int|
            if i % 2 == 0 {
                hex_digit(bytes[i / 2] as int / 16)
            } else {
                hex_digit(bytes[i / 2] as int % 16)
            },
    )
}

/// The value of a lowercase hexadecimal digit. On other characters it has no
/// meaning.
pub open spec fn hex_value(c: char) -> int {
    if '0' <= c <= '9' {
        c as int - '0' as int
    } else {
        c as int - 'a' as int + 10
    }
}

/// The bytes that a hexadecimal text stands for.
pub open spec fn unhex(text: Seq<char>) -> Seq<u8> {
    Seq::new(
        text.len() / 2,
        |k: int| (16 * hex_value(text[2 * k]) + hex_value(text[2 * k + 1])) as u8,
    )
}

/// The weight in its byte of the bit at place `j`, counted from the highest.
pub open spec fn bit_weight(j: int) -> int {
    if j == 0 {
        128
    } else if j == 1 {
        64
    } else if j == 2 {
        32
    } else if j == 3 {
        16
    } else if j == 4 {
        8
    } else if j == 5 {
        4
    } else if j == 6 {
        2
    } else if j == 7 {
        1
    } else {
        0
    }
}

/// The first `len` bits that bytes hold, highest bit of each byte first.
pub open spec fn unpacked(bytes: Seq<u8>, len: nat) -> Seq<bool> {
    Seq::new(len, |i: int| (bytes[i / 8] as int / bit_weight(i % 8)) % 2 == 1)
}

/// Number of set bits.
pub open spec fn ones(bits: Seq<bool>) -> nat
    decreases bits.len(),
{
    if bits.len() == 0 {
        0
    } else {
        ones(bits.drop_last()) + if bits.last() {
            1nat
        } else {
            0nat
        }
    }
}

/// A bit vector of the `bitvec` crate. The parameters of `BitVec` are bound by
/// traits of that crate, which keeps the type itself out of contracts; so it
/// is held here, and Verus sees it only through [`bits_of`] and the functions
/// below it.
#[verifier::external_body]
#[derive(Debug)]
pub struct Bits {
    inner: BitVec,
}

/// The bits that a bit vector holds, in order.
pub uninterp spec fn bits_of(v: Bits) -> Seq<bool>;

/// Calls `BitVec::new`, which gives an empty bit vector.
#[verifier::external_body]
fn bits_new() -> (v: Bits)
    ensures
        bits_of(v) == Seq::<bool>::empty(),
{
    Bits { inner: BitVec::new() }
}

/// Calls `BitVec::len`, the number of bits held.
#[verifier::external_body]
fn bits_len(v: &Bits) -> (n: usize)
    ensures
        n == bits_of(*v).len(),
{
    v.inner.len()
}

/// Calls `BitVec::push`, which appends one bit. It panics once the length
/// would pass the most that a bit vector can address, an eighth of the
/// address space; the precondition keeps below that.
#[verifier::external_body]
fn bits_push(v: &mut Bits, bit: bool)
    requires
        bits_of(*old(v)).len() < usize::MAX / 8,
    ensures
        bits_of(*final(v)) == bits_of(*old(v)).push(bit),
{
    v.inner.push(bit)
}

/// Reads one bit through `Index<usize>` of the bit vector's slice, which
/// panics past the end; the precondition keeps inside.
#[verifier::external_body]
fn bits_get(v: &Bits, i: usize) -> (bit: bool)
    requires
        i < bits_of(*v).len(),
    ensures
        bit == bits_of(*v)[i as int],
{
    v.inner[i]
}

/// Calls `hex::encode`, which renders each byte as two lowercase
/// hexadecimal digits, the high half first.
#[verifier::external_body]
fn hex_encode(bytes: &Vec<u8>) -> (text: String)
    ensures
        text@ == hex_of(bytes@),
{
    hex::encode(bytes)
}

/// A fingerprint: the bits that a hash algorithm emitted, in order.
#[derive(Debug)]
pub struct Hash {
    bits: Bits,
}

impl View for Hash {
    type V = Seq<bool>;

    closed spec fn view(&self) -> Seq<bool> {
        bits_of(self.bits)
    }
}

/// Sum of the weights of the set bits among the first `j` of group `k`.
spec fn group_prefix(bits: Seq<bool>, k: int, j: int) -> int
    decreases j,
{
    if j <= 0 {
        0
    } else {
        group_prefix(bits, k, j - 1) + bit_weight(j - 1) * bit_value(bits, 8 * k + j - 1)
    }
}

proof fn lemma_group_prefix_full(bits: Seq<bool>, k: int)
    ensures
        group_prefix(bits, k, 8) == packed_byte(bits, k),
        0 <= packed_byte(bits, k) <= 255,
{
    reveal_with_fuel(group_prefix, 9);
}

impl Hash {
    /// The fingerprint of no bits.
    pub(crate) fn empty() -> (h: Hash)
        ensures
            h@ == Seq::<bool>::empty(),
    {
        Hash { bits: bits_new() }
    }

    /// Appends one bit.
    pub(crate) fn push(&mut self, bit: bool)
        requires
            old(self)@.len() < usize::MAX / 8,
        ensures
            final(self)@ == old(self)@.push(bit),
    {
        bits_push(&mut self.bits, bit);
    }

    /// The fingerprint that holds the given bits.
    pub fn from_bits(bits: &Vec<bool>) -> (h: Hash)
        requires
            bits@.len() <= usize::MAX / 8,
        ensures
            h@ == bits@,
    {
        let mut h = Hash::empty();
        let mut i: usize = 0;
        while i < bits.len()
            invariant
                i <= bits@.len() <= usize::MAX / 8,
                h@ == bits@.take(i as int),
            decreases bits@.len() - i,
        {
            h.push(bits[i]);
            assert(bits@.take(i as int).push(bits@[i as int]) =~= bits@.take(i + 1));
            i += 1;
        }
        assert(bits@.take(i as int) =~= bits@);
        h
    }

    /// Number of bits.
    pub fn len(&self) -> (n: usize)
        ensures
            n == self@.len(),
    {
        bits_len(&self.bits)
    }

    /// The bits, in order.
    pub fn bits(&self) -> (bits: Vec<bool>)
        ensures
            bits@ == self@,
    {
        let len = bits_len(&self.bits);
        let mut out: Vec<bool> = Vec::new();
        let mut i: usize = 0;
        while i < len
            invariant
                len == self@.len(),
                i <= len,
                out@ == self@.take(i as int),
            decreases len - i,
        {
            out.push(bits_get(&self.bits, i));
            assert(self@.take(i as int).push(self@[i as int]) =~= self@.take(i + 1));
            i += 1;
        }
        assert(self@.take(i as int) =~= self@);
        out
    }

    /// Byte `k` of the packed form.
    fn byte_at(&self, k: usize, len: usize) -> (byte: u8)
        requires
            len == self@.len(),
            8 * k <= len,
        ensures
            byte == packed_byte(self@, k as int),
    {
        let base = 8 * k;
        let mut byte: u8 = 0;
        let mut weight: u8 = 128;
        let mut j: usize = 0;
        while j < 8
            invariant
                len == self@.len(),
                base == 8 * k,
                base <= len,
                j <= 8,
                weight == bit_weight(j as int),
                byte == group_prefix(self@, k as int, j as int),
                byte + 2 * weight <= 256,
            decreases 8 - j,
        {
            if j < len - base && bits_get(&self.bits, base + j) {
                byte = byte + weight;
            }
            weight = weight / 2;
            j += 1;
        }
        proof {
            lemma_group_prefix_full(self@, k as int);
        }
        byte
    }

    /// The packed form: eight bits to a byte, the first bit of each group in
    /// the highest place, the last group padded with zero bits.
    pub fn to_bytes(self) -> (bytes: Vec<u8>)
        ensures
            bytes@ == packed(self@),
            bytes@.len() == packed_len(self@.len()),
    {
        let len = bits_len(&self.bits);
        let count = if len % 8 == 0 {
            len / 8
        } else {
            len / 8 + 1
        };
        let mut bytes: Vec<u8> = Vec::new();
        let mut k: usize = 0;
        while k < count
            invariant
                len == self@.len(),
                count == packed_len(len as nat),
                k <= count,
                bytes@.len() == k,
                forall|t: int| 0 <= t < k ==> bytes@[t] == packed_byte(self@, t) as u8,
            decreases count - k,
        {
            let byte = self.byte_at(k, len);
            bytes.push(byte);
            k += 1;
        }
        assert(bytes@ =~= packed(self@));
        bytes
    }

    /// The text form: the packed bytes in lowercase hexadecimal, two digits
    /// per byte, nothing before, between or after them.
    pub fn to_hex(self) -> (text: String)
        ensures
            text@ == hex_of(packed(self@)),
            text@.len() == 2 * packed_len(self@.len()),
            is_ascii_chars(text@),
    {
        proof {
            lemma_serialized_lengths(self@);
        }
        let bytes = self.to_bytes();
        hex_encode(&bytes)
    }
}

/// Every hexadecimal digit is read back as the value it was written for.
pub proof fn lemma_hex_digit_value(n: int)
    requires
        0 <= n < 16,
    ensures
        hex_value(hex_digit(n)) == n,
        '\0' <= hex_digit(n) <= '\u{7f}',
{
    reveal_strlit("0123456789abcdef");
}

/// Reading a hexadecimal rendering back gives the bytes that were rendered.
pub proof fn lemma_unhex_hex(bytes: Seq<u8>)
    ensures
        unhex(hex_of(bytes)) == bytes,
{
    let text = hex_of(bytes);
    assert forall|k: int| 0 <= k < bytes.len() implies unhex(text)[k] == bytes[k] by {
        let b = bytes[k] as int;
        lemma_hex_digit_value(b / 16);
        lemma_hex_digit_value(b % 16);
        assert(text[2 * k] == hex_digit(b / 16));
        assert(text[2 * k + 1] == hex_digit(b % 16));
    }
    assert(unhex(text) =~= bytes);
}

/// Every bit can be read back from the byte that it was packed into.
pub proof fn lemma_packed_bit(bits: Seq<bool>, i: int)
    requires
        0 <= i < bits.len(),
    ensures
        0 <= packed_byte(bits, i / 8) <= 255,
        ((packed_byte(bits, i / 8) / bit_weight(i % 8)) % 2 == 1) == bits[i],
{
    let k = i / 8;
    let j = i % 8;
    let byte = packed_byte(bits, k);
    assert(bit_value(bits, 8 * k + j) == if bits[i] { 1int } else { 0int });
    if j == 0 {
        assert((byte / 128) % 2 == bit_value(bits, 8 * k));
    } else if j == 1 {
        assert((byte / 64) % 2 == bit_value(bits, 8 * k + 1));
    } else if j == 2 {
        assert((byte / 32) % 2 == bit_value(bits, 8 * k + 2));
    } else if j == 3 {
        assert((byte / 16) % 2 == bit_value(bits, 8 * k + 3));
    } else if j == 4 {
        assert((byte / 8) % 2 == bit_value(bits, 8 * k + 4));
    } else if j == 5 {
        assert((byte / 4) % 2 == bit_value(bits, 8 * k + 5));
    } else if j == 6 {
        assert((byte / 2) % 2 == bit_value(bits, 8 * k + 6));
    } else {
        assert((byte / 1) % 2 == bit_value(bits, 8 * k + 7));
    }
}

/// Unpacking the packed form, cut to the number of bits, gives the bits back.
pub proof fn lemma_unpacked_packed(bits: Seq<bool>)
    ensures
        unpacked(packed(bits), bits.len()) == bits,
{
    let bytes = packed(bits);
    assert forall|i: int| 0 <= i < bits.len() implies unpacked(bytes, bits.len())[i] == bits[i] by {
        lemma_packed_bit(bits, i);
        assert(bytes[i / 8] == packed_byte(bits, i / 8) as u8);
    }
    assert(unpacked(bytes, bits.len()) =~= bits);
}

/// Round trip of the text form: reading the hexadecimal text back into bits,
/// highest bit of each byte first, and keeping as many bits as the
/// fingerprint has, gives the fingerprint's bits.
pub proof fn lemma_hex_round_trip(bits: Seq<bool>)
    ensures
        unpacked(unhex(hex_of(packed(bits))), bits.len()) == bits,
{
    lemma_unhex_hex(packed(bits));
    lemma_unpacked_packed(bits);
}

/// Lengths of the two forms: a fingerprint of `L` bits packs into `L / 8`
/// bytes, rounded up, and its text has two characters for each of them, all
/// of them ASCII.
pub proof fn lemma_serialized_lengths(bits: Seq<bool>)
    ensures
        packed(bits).len() == packed_len(bits.len()),
        8 * packed_len(bits.len()) >= bits.len() > 8 * packed_len(bits.len()) - 8,
        hex_of(packed(bits)).len() == 2 * packed_len(bits.len()),
        is_ascii_chars(hex_of(packed(bits))),
{
    let text = hex_of(packed(bits));
    assert forall|i: int| 0 <= i < text.len() implies '\0' <= #[trigger] text[i] <= '\u{7f}' by {
        let b = packed(bits)[i / 2] as int;
        lemma_hex_digit_value(b / 16);
        lemma_hex_digit_value(b % 16);
    }
}

/// The bits alone determine both forms: fingerprints of the same length that
/// agree bit by bit have the same bytes and the same text.
pub proof fn lemma_forms_determined(a: Seq<bool>, b: Seq<bool>)
    requires
        a.len() == b.len(),
        forall|i: int| 0 <= i < a.len() ==> a[i] == b[i],
    ensures
        packed(a) == packed(b),
        hex_of(packed(a)) == hex_of(packed(b)),
{
    assert(a =~= b);
}

} // verus!
