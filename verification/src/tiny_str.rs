//! Strings of at most seven bytes, held in the payload of a word.
//!
//! Byte `i` of the string lies in bits `8 * i .. 8 * i + 8` of the word. The
//! slots behind the last byte hold the sentinel `0xFF`, a byte that no UTF-8
//! text contains. Reading stops at the first sentinel, or after seven bytes.

use vstd::prelude::*;

verus! {

/// The most bytes that fit in a word beside its tag.
pub const MAX_LEN: usize = 7;

/// The byte that fills the unused slots.
pub const SENTINEL: u8 = 0xFF;

/// Slot `i` of the word.
pub open spec fn spec_byte_at(word: u64, i: u64) -> u8 {
    ((word >> ((i * 8) as u64)) & 0xFF) as u8
}

/// Number of bytes in front of the first sentinel, seven where there is none.
pub open spec fn spec_len(word: u64) -> nat {
    if spec_byte_at(word, 0) == SENTINEL {
        0
    } else if spec_byte_at(word, 1) == SENTINEL {
        1
    } else if spec_byte_at(word, 2) == SENTINEL {
        2
    } else if spec_byte_at(word, 3) == SENTINEL {
        3
    } else if spec_byte_at(word, 4) == SENTINEL {
        4
    } else if spec_byte_at(word, 5) == SENTINEL {
        5
    } else if spec_byte_at(word, 6) == SENTINEL {
        6
    } else {
        7
    }
}

/// The string that the word holds.
pub open spec fn spec_bytes(word: u64) -> Seq<u8> {
    Seq::new(spec_len(word), |i: int| spec_byte_at(word, i as u64))
}

/// A string that a word can hold and give back: short enough, and free of
/// the sentinel.
pub open spec fn spec_fits(bytes: Seq<u8>) -> bool {
    bytes.len() <= MAX_LEN && forall|i: int| 0 <= i < bytes.len() ==> bytes[i] != SENTINEL
}

/// What `pack` leaves in slot `i` (slot 7 is what lies above the string).
pub open spec fn spec_packed_slot(bytes: Seq<u8>, i: u64) -> u8 {
    if i < bytes.len() {
        bytes[i as int]
    } else if bytes.len() < MAX_LEN {
        SENTINEL
    } else {
        0
    }
}

/// `word` is the packed form of `bytes`: all eight slots are as `pack` leaves them.
pub open spec fn spec_is_packed(word: u64, bytes: Seq<u8>) -> bool {
    forall|i: u64| 0 <= i < 8 ==> #[trigger] spec_byte_at(word, i) == spec_packed_slot(bytes, i)
}

/// Setting slot `i` of a word that is empty from slot `i` on.
proof fn lemma_put_byte(p: u64, b: u8, i: u64, j: u64)
    by (bit_vector)
    requires
        i < 7,
        j <= i,
        p >> ((i * 8) as u64) == 0,
    ensures
        j < i ==> spec_byte_at(p | ((b as u64) << ((i * 8) as u64)), j) == spec_byte_at(p, j),
        spec_byte_at(p | ((b as u64) << ((i * 8) as u64)), i) == b,
        (p | ((b as u64) << ((i * 8) as u64))) >> (((i + 1) * 8) as u64) == 0,
{
}

/// Filling every slot from `n` on with the sentinel.
proof fn lemma_fill(p: u64, n: u64, j: u64)
    by (bit_vector)
    requires
        n < 7,
        j < 8,
        p >> ((n * 8) as u64) == 0,
    ensures
        j < n ==> spec_byte_at(p | (0xFFFF_FFFF_FFFF_FFFFu64 << ((n * 8) as u64)), j)
            == spec_byte_at(p, j),
        j >= n ==> spec_byte_at(p | (0xFFFF_FFFF_FFFF_FFFFu64 << ((n * 8) as u64)), j) == 0xFFu8,
{
}

/// A word of seven slots has nothing above them; the empty word is empty
/// from every slot on.
proof fn lemma_empty(p: u64, i: u64)
    by (bit_vector)
    requires
        i < 8,
    ensures
        0u64 >> ((i * 8) as u64) == 0,
        p >> 56 == 0 ==> spec_byte_at(p, 7) == 0u8,
{
}

/// Packs a string of at most seven bytes into a word: the bytes in order
/// from the low end, every slot behind them filled with the sentinel.
pub fn pack(bytes: &[u8]) -> (word: u64)
    requires
        bytes@.len() <= MAX_LEN,
    ensures
        spec_is_packed(word, bytes@),
        spec_fits(bytes@) ==> spec_bytes(word) == bytes@ && spec_len(word) == bytes@.len(),
{
    let n: usize = bytes.len();
    let mut word: u64 = 0;
    let mut i: usize = 0;
    proof {
        lemma_empty(0, 0);
    }
    while i < n
        invariant
            n == bytes@.len(),
            n <= 7,
            i <= n,
            i < 8,
            word >> (((i as u64) * 8) as u64) == 0,
            forall|j: u64| 0 <= j < i ==> #[trigger] spec_byte_at(word, j) == bytes@[j as int],
        decreases n - i,
    {
        let b: u8 = bytes[i];
        let ghost before = word;
        word = word | ((b as u64) << ((i as u64) * 8));
        proof {
            lemma_put_byte(before, b, i as u64, i as u64);
            assert forall|j: u64| 0 <= j < i + 1 implies #[trigger] spec_byte_at(word, j)
                == bytes@[j as int] by {
                lemma_put_byte(before, b, i as u64, j);
            }
        }
        i = i + 1;
    }
    if n < 7 {
        let ghost before = word;
        word = word | (u64::MAX << ((n as u64) * 8));
        proof {
            assert forall|j: u64| 0 <= j < 8 implies #[trigger] spec_byte_at(word, j)
                == spec_packed_slot(bytes@, j) by {
                lemma_fill(before, n as u64, j);
            }
        }
    } else {
        proof {
            lemma_empty(word, 7);
            assert forall|j: u64| 0 <= j < 8 implies #[trigger] spec_byte_at(word, j)
                == spec_packed_slot(bytes@, j) by {
            }
        }
    }
    proof {
        if spec_fits(bytes@) {
            lemma_slots_give_bytes(word, bytes@);
        }
    }
    word
}

/// Slot `i` of the word.
pub fn byte_at(word: u64, i: u64) -> (b: u8)
    requires
        i < 8,
    ensures
        b == spec_byte_at(word, i),
{
    #[verifier::truncate]
    (((word >> (i * 8)) & 0xFF) as u8)
}

/// Length of the string that the word holds.
pub fn len(word: u64) -> (n: usize)
    ensures
        n == spec_len(word),
        n <= MAX_LEN,
{
    if byte_at(word, 0) == SENTINEL {
        0
    } else if byte_at(word, 1) == SENTINEL {
        1
    } else if byte_at(word, 2) == SENTINEL {
        2
    } else if byte_at(word, 3) == SENTINEL {
        3
    } else if byte_at(word, 4) == SENTINEL {
        4
    } else if byte_at(word, 5) == SENTINEL {
        5
    } else if byte_at(word, 6) == SENTINEL {
        6
    } else {
        7
    }
}

/// The string that the word holds: the slots in order, up to the first
/// sentinel or the seventh slot.
pub fn unpack(word: u64) -> (bytes: Vec<u8>)
    ensures
        bytes@ == spec_bytes(word),
{
    let mut bytes: Vec<u8> = Vec::new();
    let mut i: u64 = 0;
    while i < 7
        invariant
            i <= 7,
            bytes@.len() == i,
            forall|j: u64| 0 <= j < i ==> #[trigger] spec_byte_at(word, j) != SENTINEL,
            forall|j: int| 0 <= j < i ==> bytes@[j] == spec_byte_at(word, j as u64),
        decreases 7 - i,
    {
        let b: u8 = byte_at(word, i);
        if b == SENTINEL {
            proof {
                lemma_len_is_first_sentinel(word, i);
                assert(bytes@ =~= spec_bytes(word));
            }
            return bytes;
        }
        bytes.push(b);
        i = i + 1;
    }
    proof {
        lemma_len_is_first_sentinel(word, 7);
        assert(bytes@ =~= spec_bytes(word));
    }
    bytes
}

/// The length is the index of the first slot that holds the sentinel.
pub(crate) proof fn lemma_len_is_first_sentinel(word: u64, n: u64)
    requires
        n <= 7,
        forall|j: u64| 0 <= j < n ==> #[trigger] spec_byte_at(word, j) != SENTINEL,
        n < 7 ==> spec_byte_at(word, n) == SENTINEL,
    ensures
        spec_len(word) == n,
{
    if n > 0 {
        assert(spec_byte_at(word, 0) != SENTINEL);
    }
    if n > 1 {
        assert(spec_byte_at(word, 1) != SENTINEL);
    }
    if n > 2 {
        assert(spec_byte_at(word, 2) != SENTINEL);
    }
    if n > 3 {
        assert(spec_byte_at(word, 3) != SENTINEL);
    }
    if n > 4 {
        assert(spec_byte_at(word, 4) != SENTINEL);
    }
    if n > 5 {
        assert(spec_byte_at(word, 5) != SENTINEL);
    }
    if n > 6 {
        assert(spec_byte_at(word, 6) != SENTINEL);
    }
}

/// A word whose first seven slots are those of the packed form of a string
/// that fits holds that string.
pub(crate) proof fn lemma_slots_give_bytes(word: u64, bytes: Seq<u8>)
    requires
        spec_fits(bytes),
        forall|i: u64| 0 <= i < 7 ==> #[trigger] spec_byte_at(word, i) == spec_packed_slot(bytes, i),
    ensures
        spec_bytes(word) == bytes,
        spec_len(word) == bytes.len(),
{
    let n = bytes.len() as u64;
    assert forall|j: u64| 0 <= j < n implies #[trigger] spec_byte_at(word, j) != SENTINEL by {
        assert(spec_byte_at(word, j) == bytes[j as int]);
    }
    if n < 7 {
        assert(spec_byte_at(word, n) == spec_packed_slot(bytes, n));
    }
    lemma_len_is_first_sentinel(word, n);
    assert(spec_bytes(word) =~= bytes);
}

/// Packing and reading back gives the string, for every string of at most
/// seven bytes that holds no sentinel.
pub proof fn lemma_pack_unpack(word: u64, bytes: Seq<u8>)
    requires
        spec_fits(bytes),
        spec_is_packed(word, bytes),
    ensures
        spec_bytes(word) == bytes,
        spec_len(word) == bytes.len(),
{
    lemma_slots_give_bytes(word, bytes);
}

/// Moving a word up by a tag of three or four bits and down again keeps
/// its seven slots, and so the string that it holds.
pub(crate) proof fn lemma_payload_keeps_slots(word: u64, tag_bits: u64, i: u64)
    by (bit_vector)
    requires
        tag_bits == 3 || tag_bits == 4,
        i < 7,
    ensures
        spec_byte_at((word << tag_bits) >> tag_bits, i) == spec_byte_at(word, i),
{
}

/// The bits right above the seventh slot are the low bits of the eighth.
pub(crate) proof fn lemma_top_nibble(word: u64)
    by (bit_vector)
    ensures
        spec_byte_at(word, 7) == 0xFFu8 ==> (word >> 56) & 0xF == 0xF && (word >> 56) & 0x1F
            == 0x1F,
        spec_byte_at(word, 7) == 0u8 ==> (word >> 56) & 0xF == 0 && (word >> 56) & 0x1F == 0,
{
}

} // verus!
