//! Message blocks: cutting a byte string into blocks, and packing a block into
//! one element of the base field.

use crate::field::{base_modulus, Base};
use crate::limbs::{
    le_value, lemma_le_value_bound, lemma_le_value_injective, lemma_le_value_split,
    lemma_pow256_values, limbs_from_le_bytes, pow256,
};
use vstd::prelude::*;

verus! {

/// The longest block that packs into a field element without reduction: 31
/// bytes, one less than the width of the 255-bit field.
pub const MAX_BLOCK_BYTES: usize = 31;

/// Why a block could not be packed.
#[derive(Clone, Copy, Debug, PartialEq, Eq)]
pub enum CodecError {
    /// The block is longer than `MAX_BLOCK_BYTES`.
    BlockTooLarge,
}

/// How many blocks of at most `size` bytes a text of `len` bytes gives.
pub open spec fn block_count(len: nat, size: nat) -> nat {
    if size == 0 {
        0
    } else {
        ((len + size - 1) / (size as int)) as nat
    }
}

/// The `i`-th block of the text.
pub open spec fn block_at(text: Seq<u8>, size: nat, i: int) -> Seq<u8> {
    let start = i * size;
    let end = if start + size < text.len() {
        start + size
    } else {
        text.len() as int
    };
    text.subrange(start, end)
}

/// The text cut into consecutive blocks of `size` bytes; the last one may be
/// shorter.
pub open spec fn spec_split(text: Seq<u8>, size: nat) -> Seq<Seq<u8>> {
    Seq::new(block_count(text.len(), size), |i: int| block_at(text, size, i))
}

/// The blocks put together again.
pub open spec fn concat(blocks: Seq<Seq<u8>>) -> Seq<u8>
    decreases blocks.len(),
{
    if blocks.len() == 0 {
        Seq::empty()
    } else {
        concat(blocks.drop_last()) + blocks.last()
    }
}

/// What a vector of blocks holds.
pub open spec fn blocks_view(blocks: Seq<Vec<u8>>) -> Seq<Seq<u8>> {
    Seq::new(blocks.len(), |i: int| blocks[i]@)
}

/// The last block ends the text: it starts before the end and reaches it.
proof fn lemma_block_count_last(len: nat, size: nat, i: nat)
    requires
        size >= 1,
        i * size < len <= i * size + size,
    ensures
        block_count(len, size) == i + 1,
{
    let q = (len + size - 1) / (size as int);
    assert(q == i + 1) by (nonlinear_arith)
        requires
            size >= 1,
            i * size < len <= i * size + size,
            q == (len + size - 1) / (size as int),
    ;
}

/// Any block but the last is full and leaves text behind it.
proof fn lemma_block_count_more(len: nat, size: nat, i: nat)
    requires
        size >= 1,
        i * size < len,
    ensures
        block_count(len, size) >= i + 1,
{
    let q = (len + size - 1) / (size as int);
    assert(q >= i + 1) by (nonlinear_arith)
        requires
            size >= 1,
            i * size < len,
            q == (len + size - 1) / (size as int),
    ;
}

/// A copy of the bytes from `start` up to `end`.
fn copy_range(text: &[u8], start: usize, end: usize) -> (v: Vec<u8>)
    requires
        start <= end <= text.len(),
    ensures
        v@ == text@.subrange(start as int, end as int),
{
    let mut v: Vec<u8> = Vec::new();
    let mut j: usize = start;
    while j < end
        invariant
            start <= j <= end <= text.len(),
            v@ == text@.subrange(start as int, j as int),
        decreases end - j,
    {
        v.push(text[j]);
        j = j + 1;
        assert(v@ =~= text@.subrange(start as int, j as int));
    }
    v
}

/// Cuts the text into consecutive blocks of `block_size` bytes; the last block
/// may be shorter. Put together again, the blocks give the text.
pub fn split(text: &[u8], block_size: usize) -> (blocks: Vec<Vec<u8>>)
    requires
        block_size >= 1,
    ensures
        blocks_view(blocks@) == spec_split(text@, block_size as nat),
        concat(blocks_view(blocks@)) == text@,
{
    let len: usize = text.len();
    let mut blocks: Vec<Vec<u8>> = Vec::new();
    let mut start: usize = 0;
    proof {
        assert(concat(blocks_view(blocks@)) =~= text@.take(0));
        assert(blocks.len() == 0);
        assert(0 * block_size == 0) by (nonlinear_arith);
        if len == 0 {
            assert(block_count(0, block_size as nat) == 0) by (nonlinear_arith)
                requires
                    block_size >= 1,
            ;
        }
    }
    while start < len
        invariant
            len == text.len(),
            block_size >= 1,
            start <= len,
            start < len ==> start == blocks.len() * block_size,
            start == len ==> blocks.len() == block_count(len as nat, block_size as nat),
            blocks.len() <= block_count(len as nat, block_size as nat),
            forall|j: int|
                0 <= j < blocks.len() ==> (#[trigger] blocks[j])@ == block_at(
                    text@,
                    block_size as nat,
                    j,
                ),
            concat(blocks_view(blocks@)) == text@.take(start as int),
        decreases len - start,
    {
        let end: usize = if len - start <= block_size {
            len
        } else {
            start + block_size
        };
        let block = copy_range(text, start, end);
        proof {
            let i = blocks.len() as nat;
            let size = block_size as nat;
            let before = blocks_view(blocks@);
            let after = blocks_view(blocks@.push(block));
            assert(block@ == block_at(text@, size, i as int));
            assert(after.drop_last() =~= before);
            assert(after.last() == block@);
            assert(text@.take(start as int) + block@ =~= text@.take(end as int));
            if end == len {
                lemma_block_count_last(len as nat, size, i);
            } else {
                assert((i + 1) * size == i * size + size) by (nonlinear_arith);
                lemma_block_count_more(len as nat, size, i + 1);
            }
            lemma_block_count_more(len as nat, size, i);
        }
        blocks.push(block);
        start = end;
    }
    proof {
        assert(text@.take(len as int) =~= text@);
        assert(blocks_view(blocks@) =~= spec_split(text@, block_size as nat));
    }
    blocks
}

/// Powers of 256 grow with the exponent.
proof fn lemma_pow256_monotonic(a: nat, b: nat)
    requires
        a <= b,
    ensures
        pow256(a) <= pow256(b),
    decreases b,
{
    if a < b {
        lemma_pow256_monotonic(a, (b - 1) as nat);
    }
}

/// A block of at most 31 bytes denotes a number below the field's order.
pub proof fn lemma_block_fits(bytes: Seq<u8>)
    requires
        bytes.len() <= MAX_BLOCK_BYTES,
    ensures
        le_value(bytes) < base_modulus(),
{
    lemma_le_value_bound(bytes);
    lemma_pow256_monotonic(bytes.len(), 31);
    lemma_pow256_values();
    assert(pow256(16) == 0x1_0000_0000_0000_0000_0000_0000_0000_0000nat) by {
        reveal_with_fuel(pow256, 9);
    }
    assert(pow256(24) == 0x1_0000_0000_0000_0000_0000_0000_0000_0000_0000_0000_0000_0000nat) by {
        reveal_with_fuel(pow256, 9);
    }
    assert(pow256(31)
        == 0x100_0000_0000_0000_0000_0000_0000_0000_0000_0000_0000_0000_0000_0000_0000_0000nat) by {
        reveal_with_fuel(pow256, 8);
    }
}

/// Packs a block into one field element: the number that the bytes denote,
/// least significant byte first. A block of more than `MAX_BLOCK_BYTES` bytes
/// is refused, so the number is never reduced.
pub fn pack(bytes: &[u8]) -> (r: Result<Base, CodecError>)
    ensures
        r is Err <==> bytes.len() > MAX_BLOCK_BYTES,
        r matches Ok(b) ==> b@ == le_value(bytes@) && b.wf(),
        r matches Err(e) ==> e == CodecError::BlockTooLarge,
{
    if bytes.len() > MAX_BLOCK_BYTES {
        return Err(CodecError::BlockTooLarge);
    }
    proof {
        lemma_block_fits(bytes@);
    }
    match Base::from_limbs(limbs_from_le_bytes(bytes)) {
        Some(b) => Ok(b),
        None => Err(CodecError::BlockTooLarge),
    }
}

/// A byte string of zeros denotes zero.
proof fn lemma_zeros_denote_zero(s: Seq<u8>)
    requires
        forall|k: int| 0 <= k < s.len() ==> s[k] == 0,
    ensures
        le_value(s) == 0,
    decreases s.len(),
{
    if s.len() > 0 {
        lemma_zeros_denote_zero(s.skip(1));
    }
}

/// A byte string with a nonzero byte does not denote zero.
proof fn lemma_nonzero_byte_counts(s: Seq<u8>, k: int)
    requires
        0 <= k < s.len(),
        s[k] != 0,
    ensures
        le_value(s) >= 1,
    decreases k,
{
    if k > 0 {
        lemma_nonzero_byte_counts(s.skip(1), k - 1);
    }
}

/// Unpacks a field element into a block of `len` bytes: the bytes, least
/// significant first, that denote the element's number.
///
/// Succeeds exactly when `len` is at most `MAX_BLOCK_BYTES` and the number
/// fits into `len` bytes. What `pack` made of a block of `len` bytes unpacks
/// into that block.
pub fn unpack(value: &Base, len: usize) -> (r: Option<Vec<u8>>)
    ensures
        r is Some <==> len <= MAX_BLOCK_BYTES && value@ < pow256(len as nat),
        r matches Some(bytes) ==> bytes@.len() == len && le_value(bytes@) == value@,
        forall|block: Seq<u8>|
            block.len() == len && len <= MAX_BLOCK_BYTES && #[trigger] le_value(block) == value@
                ==> (r matches Some(bytes) && bytes@ == block),
{
    if len > MAX_BLOCK_BYTES {
        return None;
    }
    let repr: [u8; 32] = value.to_repr();
    let ghost low = repr@.take(len as int);
    let ghost high = repr@.skip(len as int);
    proof {
        lemma_le_value_split(repr@, len as nat);
        lemma_le_value_bound(low);
    }
    let mut i: usize = len;
    while i < 32
        invariant
            len <= i <= 32,
            high == repr@.skip(len as int),
            forall|k: int| len <= k < i ==> repr@[k] == 0,
            le_value(repr@) == value@,
            le_value(repr@) == le_value(low) + pow256(len as nat) * le_value(high),
        decreases 32 - i,
    {
        if repr[i] != 0 {
            proof {
                lemma_nonzero_byte_counts(high, i - len);
                let p = pow256(len as nat);
                let h = le_value(high);
                assert(p * h >= p) by (nonlinear_arith)
                    requires
                        h >= 1,
                        p >= 0,
                ;
                assert forall|block: Seq<u8>|
                    block.len() == len && #[trigger] le_value(block) == value@ implies false by {
                    lemma_le_value_bound(block);
                }
            }
            return None;
        }
        i = i + 1;
    }
    let bytes = copy_range(repr.as_slice(), 0, len);
    proof {
        assert(bytes@ =~= low);
        lemma_zeros_denote_zero(high);
        let p = pow256(len as nat);
        assert(p * 0 == 0) by (nonlinear_arith);
        assert forall|block: Seq<u8>|
            block.len() == len && #[trigger] le_value(block) == value@ implies bytes@
            == block by {
            lemma_le_value_injective(bytes@, block);
        }
    }
    Some(bytes)
}

} // verus!
