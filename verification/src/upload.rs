use vstd::prelude::*;

verus! {

/// The little-endian bytes of `w`.
pub open spec fn u32_le_bytes(w: u32) -> Seq<u8> {
    seq![
        (w % 256) as u8,
        ((w / 256) % 256) as u8,
        ((w / 65536) % 256) as u8,
        ((w / 16777216) % 256) as u8,
    ]
}

/// The bytes of `w` in memory, little-endian or big-endian.
pub open spec fn u32_memory_bytes(w: u32, little_endian: bool) -> Seq<u8> {
    if little_endian {
        u32_le_bytes(w)
    } else {
        u32_le_bytes(w).reverse()
    }
}

/// `bytes` lays out `words` one after the other, each word in the byte
/// order that `little_endian` selects.
pub open spec fn laid_out(words: Seq<u32>, bytes: Seq<u8>, little_endian: bool) -> bool {
    &&& bytes.len() == 4 * words.len()
    &&& forall|i: int|
        0 <= i < words.len() ==> bytes.subrange(4 * i, 4 * i + 4) == u32_memory_bytes(
            #[trigger] words[i],
            little_endian,
        )
}

/// `bytemuck::cast_slice` from `u32` to `u8`, copied out: the bytes that
/// hold `words` in memory. The contract claims what the cast's own
/// documentation gives (the output covers the input's memory, four bytes
/// per word, and the cast of `u32` to `u8` cannot fail) and that each word
/// is stored in one byte order, the same for all; which of the two orders
/// is the machine's is left unsaid.
#[verifier::external_body]
fn cast_words_to_bytes(words: &[u32]) -> (res: Vec<u8>)
    ensures
        exists|little_endian: bool| #[trigger] laid_out(words@, res@, little_endian),
{
    bytemuck::cast_slice::<u32, u8>(words).to_vec()
}

/// What a mesh's index buffer is created with: its size in bytes and the
/// bytes written to it.
pub struct IndexData {
    pub size: u64,
    pub bytes: Vec<u8>,
}

/// The index buffer for `indices`: four bytes per index, holding the
/// indices as they lie in memory.
pub fn index_data(indices: &[u32]) -> (res: IndexData)
    requires
        4 * indices@.len() <= isize::MAX,
    ensures
        res.size == 4 * indices@.len(),
        res.bytes@.len() == res.size,
        exists|little_endian: bool| #[trigger] laid_out(indices@, res.bytes@, little_endian),
{
    let bytes = cast_words_to_bytes(indices);
    let size = (indices.len() * 4) as u64;
    let res = IndexData { size, bytes };
    proof {
        let little_endian = choose|b: bool| laid_out(indices@, res.bytes@, b);
        assert(laid_out(indices@, res.bytes@, little_endian));
    }
    res
}

} // verus!
