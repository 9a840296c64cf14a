//! One bit per module: the packing that a barcode matrix is stored in.
use vstd::prelude::*;

verus! {

/// Whether bit `bit` of `word` is set.
pub open spec fn word_bit(word: u32, bit: nat) -> bool {
    (word >> bit) & 1u32 == 1u32
}

/// The number of 32-bit words that hold `n` bits.
pub open spec fn ceil_div32(n: nat) -> nat {
    if n % 32 == 0 {
        n / 32
    } else {
        n / 32 + 1
    }
}

/// The module at linear index `index` of packed words: bit `index % 32` of
/// word `index / 32`.
pub open spec fn module_bit(packed: Seq<u32>, index: nat) -> bool {
    word_bit(packed[(index / 32) as int], index % 32)
}

/// `packed` holds exactly the bits of `bits`: one word per 32 bits, bit `b`
/// of word `w` set iff `bits[32 * w + b]` is, and every bit past the end of
/// `bits` clear.
pub open spec fn packs(packed: Seq<u32>, bits: Seq<bool>) -> bool {
    &&& packed.len() == ceil_div32(bits.len())
    &&& forall|w: int, b: nat|
        0 <= w < packed.len() && b < 32 ==> #[trigger] word_bit(packed[w], b) == (32 * w + b
            < bits.len() && bits[32 * w + b])
}

pub proof fn lemma_zero_word(b: u32)
    requires
        b < 32,
    ensures
        !word_bit(0u32, b as nat),
{
    assert((0u32 >> b) & 1u32 == 0u32) by (bit_vector);
}

pub proof fn lemma_set_bit(word: u32, b: u32, c: u32)
    requires
        b < 32,
        c < 32,
    ensures
        word_bit(word | (1u32 << b), c as nat) == (c == b || word_bit(word, c as nat)),
{
    assert(((word | (1u32 << b)) >> c) & 1u32 == 1u32 <==> (c == b || (word >> c) & 1u32 == 1u32))
        by (bit_vector)
        requires
            b < 32,
            c < 32,
    ;
}

/// Reading back a packed module gives the bit that was packed.
pub proof fn lemma_packs_read(packed: Seq<u32>, bits: Seq<bool>, index: nat)
    requires
        packs(packed, bits),
        index < bits.len(),
    ensures
        (index / 32) < packed.len(),
        module_bit(packed, index) == bits[index as int],
{
    let w: int = (index / 32) as int;
    let b: nat = index % 32;
    assert(32 * w + b == index);
    assert(word_bit(packed[w], b) == (32 * w + b < bits.len() && bits[32 * w + b]));
}

/// Packs `bits` one per module: bit `i % 32` of word `i / 32` holds
/// `bits[i]`, and the bits past the end stay clear.
pub fn pack_bits(bits: &Vec<bool>) -> (packed: Vec<u32>)
    ensures
        packs(packed@, bits@),
        packed@.len() == (bits@.len() + 31) / 32,
        forall|w: int, b: u32|
            0 <= w < packed@.len() && b < 32 ==> (#[trigger] (packed@[w] >> b) & 1u32 == 1u32) == (
            32 * w + b < bits@.len() && bits@[32 * w + b]),
{
    let n: usize = bits.len();
    let words: usize = if n % 32 == 0 {
        n / 32
    } else {
        n / 32 + 1
    };
    let mut packed: Vec<u32> = vec![0u32; words];
    assert forall|w: int, b: nat| 0 <= w < packed.len() && b < 32 implies #[trigger] word_bit(
        packed@[w],
        b,
    ) == (32 * w + b < 0 && bits@[32 * w + b]) by {
        assert(packed@[w] == 0u32);
        lemma_zero_word(b as u32);
    }
    let mut i: usize = 0;
    while i < n
        invariant
            n == bits.len(),
            words == ceil_div32(n as nat),
            packed.len() == words,
            i <= n,
            forall|w: int, b: nat|
                0 <= w < packed.len() && b < 32 ==> #[trigger] word_bit(packed@[w], b) == (32 * w
                    + b < i && bits@[32 * w + b]),
        decreases n - i,
    {
        let w: usize = i / 32;
        let b: u32 = (i % 32) as u32;
        assert(32 * w + b == i);
        if bits[i] {
            let word: u32 = packed[w];
            let ghost before = packed@;
            packed.set(w, word | (1u32 << b));
            assert forall|v: int, c: nat| 0 <= v < packed.len() && c < 32 implies #[trigger] word_bit(
                packed@[v],
                c,
            ) == (32 * v + c < i + 1 && bits@[32 * v + c]) by {
                if v == w {
                    lemma_set_bit(word, b, c as u32);
                    assert(word_bit(before[v], c) == (32 * v + c < i && bits@[32 * v + c]));
                } else {
                    assert(word_bit(before[v], c) == (32 * v + c < i && bits@[32 * v + c]));
                    assert(32 * v + c != i);
                }
            }
        } else {
            assert forall|v: int, c: nat| 0 <= v < packed.len() && c < 32 implies #[trigger] word_bit(
                packed@[v],
                c,
            ) == (32 * v + c < i + 1 && bits@[32 * v + c]) by {
                assert(word_bit(packed@[v], c) == (32 * v + c < i && bits@[32 * v + c]));
            }
        }
        i = i + 1;
    }
    assert forall|w: int, b: u32| 0 <= w < packed@.len() && b < 32 implies (#[trigger] (packed@[w]
        >> b) & 1u32 == 1u32) == (32 * w + b < bits@.len() && bits@[32 * w + b]) by {
        assert(word_bit(packed@[w], b as nat) == (32 * w + b < bits@.len() && bits@[32 * w + b]));
    }
    packed
}

} // verus!
