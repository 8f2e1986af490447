//! A HyperLogLog sketch: an array of small registers from which the number of
//! distinct strings added so far can be estimated.
use std::hash::Hash;
use std::hash::Hasher;
use vstd::prelude::*;
use vstd::std_specs::bits::axiom_u64_trailing_zeros;
use vstd::std_specs::bits::u64_trailing_zeros;
use vstd::utf8::encode_utf8;

verus! {

/// What a sketch holds: its precision and its registers.
pub struct HllView {
    /// How many leading bits of a digest select the register.
    pub bits: u8,
    /// One counter per register, `2^bits` of them.
    pub registers: Seq<u8>,
}

impl HllView {
    /// Between 1 and 15 index bits, and one register for each value of them.
    pub open spec fn valid(self) -> bool {
        &&& 1 <= self.bits <= 15
        &&& self.registers.len() == (1u64 << (self.bits as u64))
    }
}

/// The bit mask that isolates the leading `bits` bits of a 64-bit digest.
pub open spec fn leading_mask(bits: u8) -> u64 {
    (((1u64 << (bits as u64)) - 1) as u64) << ((64 - bits) as u64)
}

/// The register that a digest falls into: its leading `bits` bits.
pub open spec fn register_of(digest: u64, bits: u8) -> int {
    (digest >> ((64 - bits) as u64)) as int
}

/// The rank of a digest: one more than the number of zero bits at the low end
/// of what remains below the leading `bits` bits.
pub open spec fn rank_of(digest: u64, bits: u8) -> u8 {
    (u64_trailing_zeros(digest | leading_mask(bits)) + 1) as u8
}

/// The registers after a digest has been recorded: its register is raised to
/// the digest's rank, if it was lower.
pub open spec fn record(registers: Seq<u8>, bits: u8, digest: u64) -> Seq<u8> {
    let j = register_of(digest, bits);
    if registers[j] < rank_of(digest, bits) {
        registers.update(j, rank_of(digest, bits))
    } else {
        registers
    }
}

/// The registers of an empty sketch: `2^bits` of them, all zero.
pub open spec fn empty_registers(bits: u8) -> Seq<u8> {
    Seq::new((1u64 << (bits as u64)) as nat, |i: int| 0u8)
}

/// The registers after the digests of the texts have been recorded, one
/// after another.
pub open spec fn recorded(registers: Seq<u8>, bits: u8, texts: Seq<Seq<char>>) -> Seq<u8>
    decreases texts.len(),
{
    if texts.len() == 0 {
        registers
    } else {
        record(recorded(registers, bits, texts.drop_last()), bits, digest_of(texts.last()))
    }
}

/// How many of the registers are zero.
pub open spec fn zeros_in(registers: Seq<u8>) -> nat
    decreases registers.len(),
{
    if registers.len() == 0 {
        0
    } else {
        zeros_in(registers.drop_last()) + if registers.last() == 0 {
            1nat
        } else {
            0nat
        }
    }
}

/// The number of bytes from which on a text is too long to be hashed.
pub const DIGEST_LIMIT: usize = 0x7FFF_FFFF;

/// Whether a text is short enough to be hashed: its UTF-8 form and the one
/// byte that is hashed behind it must have a length that fits 31 bits, which
/// is how the hash function takes the length.
pub open spec fn hashable(text: Seq<char>) -> bool {
    encode_utf8(text).len() < DIGEST_LIMIT
}

/// The digest of a string that is short enough to be hashed: the low 64 bits
/// of the 128-bit MurmurHash3 (x64 variant, seed 0) of what the string's
/// `Hash` impl feeds a hasher.
pub uninterp spec fn digest_of(text: Seq<char>) -> u64;

/// Calls `fasthash::murmur3::Hasher128_x64` through `std::hash::Hash` for
/// `str`, and `Hasher::finish`. Trusted: the digest is a function of the
/// string alone. The hasher is made with no seed, buffers what it is fed, and
/// `finish` hashes that buffer in one piece. The buffer's length is handed
/// to the hash function as a signed 32-bit number, so a longer text is left
/// out.
#[verifier::external_body]
fn digest(text: &str) -> (h: u64)
    requires
        hashable(text@),
    ensures
        h == digest_of(text@),
{
    let mut hasher: fasthash::murmur3::Hasher128_x64 = Default::default();
    text.hash(&mut hasher);
    hasher.finish().to_le()
}

/// A HyperLogLog sketch.
pub struct HLL {
    registers: Vec<u8>,
    register_split_bits: u8,
}

impl View for HLL {
    type V = HllView;

    closed spec fn view(&self) -> HllView {
        HllView { bits: self.register_split_bits, registers: self.registers@ }
    }
}

/// With between 1 and 15 leading bits, a digest's register is below `2^bits`,
/// and the digest with those bits set is not zero.
pub proof fn lemma_leading_bits(digest: u64, bits: u8)
    requires
        1 <= bits <= 15,
    ensures
        0 <= register_of(digest, bits) < (1u64 << (bits as u64)),
        register_of(digest, bits) == ((digest & leading_mask(bits)) >> ((64 - bits) as u64)),
        2 <= (1u64 << (bits as u64)) <= 32768,
        (digest | leading_mask(bits)) != 0,
{
    let b = bits as u64;
    assert((digest >> ((64 - b) as u64)) < (1u64 << b)) by (bit_vector)
        requires
            1 <= b <= 15,
    ;
    assert(2 <= (1u64 << b) <= 32768) by (bit_vector)
        requires
            1 <= b <= 15,
    ;
    assert((digest & ((((1u64 << b) - 1) as u64) << ((64 - b) as u64))) >> ((64 - b) as u64)
        == digest >> ((64 - b) as u64)) by (bit_vector)
        requires
            1 <= b <= 15,
    ;
    assert((digest | ((((1u64 << b) - 1) as u64) << ((64 - b) as u64))) != 0) by (bit_vector)
        requires
            1 <= b <= 15,
    ;
}

impl HLL {
    /// An empty sketch with `2^bucket_bits` registers, or `None` where
    /// `bucket_bits` is not between 1 and 15.
    pub fn new(bucket_bits: u8) -> (r: Option<Self>)
        ensures
            r.is_some() <==> 1 <= bucket_bits <= 15,
            r matches Some(h) ==> h@.valid() && h@ == (HllView {
                bits: bucket_bits,
                registers: empty_registers(bucket_bits),
            }),
    {
        if bucket_bits < 1 || bucket_bits > 15 {
            return None;
        }
        proof {
            lemma_leading_bits(0, bucket_bits);
        }
        let m: u64 = 1u64 << (bucket_bits as u64);
        let registers: Vec<u8> = vec![0u8; m as usize];
        assert(registers@ =~= empty_registers(bucket_bits));
        Some(HLL { registers, register_split_bits: bucket_bits })
    }

    /// Records one string: its digest is taken and recorded. The string must
    /// be short enough to be hashed.
    pub fn add(&mut self, text: &str)
        requires
            old(self)@.valid(),
            hashable(text@),
        ensures
            final(self)@.valid(),
            final(self)@.bits == old(self)@.bits,
            final(self)@.registers == record(
                old(self)@.registers,
                old(self)@.bits,
                digest_of(text@),
            ),
    {
        let h: u64 = digest(text);
        self.add_digest(h);
    }

    /// Records one digest: raises the register that the digest's leading bits
    /// select to the digest's rank, if it was lower.
    pub fn add_digest(&mut self, digest: u64)
        requires
            old(self)@.valid(),
        ensures
            final(self)@.valid(),
            final(self)@.bits == old(self)@.bits,
            final(self)@.registers == record(old(self)@.registers, old(self)@.bits, digest),
    {
        let bits: u8 = self.register_split_bits;
        proof {
            lemma_leading_bits(digest, bits);
            axiom_u64_trailing_zeros(digest | leading_mask(bits));
        }
        let split_mask: u64 = ((1u64 << (bits as u64)) - 1) << ((64 - bits) as u64);
        let register_pos: usize = ((digest & split_mask) >> ((64 - bits) as u64)) as usize;
        let zero_run_masked: u64 = digest | split_mask;
        let rank: u8 = (zero_run_masked.trailing_zeros() + 1) as u8;
        if self.registers[register_pos] < rank {
            self.registers.set(register_pos, rank);
        }
    }

    /// Sets every register back to zero.
    pub fn reset(&mut self)
        requires
            old(self)@.valid(),
        ensures
            final(self)@.valid(),
            final(self)@ == (HllView {
                bits: old(self)@.bits,
                registers: empty_registers(old(self)@.bits),
            }),
    {
        let m: usize = self.registers.len();
        self.registers = vec![0u8; m];
        assert(self.registers@ =~= empty_registers(self.register_split_bits));
    }

    /// The number of registers that are still zero.
    pub fn zero_registers(&self) -> (n: u16)
        requires
            self@.valid(),
        ensures
            n == zeros_in(self@.registers),
    {
        proof {
            lemma_leading_bits(0, self.register_split_bits);
        }
        let mut n: u16 = 0;
        let mut i: usize = 0;
        while i < self.registers.len()
            invariant
                i <= self.registers@.len() <= 32768,
                n == zeros_in(self.registers@.take(i as int)),
                n <= i,
            decreases self.registers@.len() - i,
        {
            assert(self.registers@.take(i + 1).drop_last() =~= self.registers@.take(i as int));
            if self.registers[i] == 0 {
                n = n + 1;
            }
            i = i + 1;
        }
        assert(self.registers@.take(i as int) =~= self.registers@);
        n
    }

    /// The registers, in order.
    pub fn registers(&self) -> (r: &Vec<u8>)
        ensures
            r@ == self@.registers,
    {
        &self.registers
    }

    /// The number of leading digest bits that select a register.
    pub fn bucket_bits(&self) -> (b: u8)
        ensures
            b == self@.bits,
    {
        self.register_split_bits
    }
}

} // verus!
