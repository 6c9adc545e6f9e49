//! Decoding of compiled shader code (SPIR-V) from the bytes of a shader file.

use vstd::prelude::*;

verus! {

/// The first word of every SPIR-V module.
pub const SPIRV_MAGIC: u32 = 0x0723_0203;

/// The `i`-th group of four bytes, read as a little-endian word.
pub open spec fn le_word(bytes: Seq<u8>, i: int) -> int {
    bytes[4 * i] + bytes[4 * i + 1] * 256 + bytes[4 * i + 2] * 65536 + bytes[4 * i + 3] * 16777216
}

/// The `i`-th group of four bytes, read as a big-endian word.
pub open spec fn be_word(bytes: Seq<u8>, i: int) -> int {
    bytes[4 * i + 3] + bytes[4 * i + 2] * 256 + bytes[4 * i + 1] * 65536 + bytes[4 * i] * 16777216
}

/// All words of `bytes`, read little-endian.
pub open spec fn le_words(bytes: Seq<u8>) -> Seq<u32> {
    Seq::new(bytes.len() / 4, |i: int| le_word(bytes, i) as u32)
}

/// All words of `bytes`, read big-endian.
pub open spec fn be_words(bytes: Seq<u8>) -> Seq<u32> {
    Seq::new(bytes.len() / 4, |i: int| be_word(bytes, i) as u32)
}

/// The SPIR-V words held by `bytes`: `None` unless the bytes form a non-empty
/// sequence of whole words whose first word is the magic number in one of the
/// two byte orders; otherwise all words, read in that byte order.
pub open spec fn spirv_words(bytes: Seq<u8>) -> Option<Seq<u32>> {
    if bytes.len() == 0 || bytes.len() % 4 != 0 {
        None
    } else if le_word(bytes, 0) == SPIRV_MAGIC {
        Some(le_words(bytes))
    } else if be_word(bytes, 0) == SPIRV_MAGIC {
        Some(be_words(bytes))
    } else {
        None
    }
}

/// Trusted: `ash::util::read_spv` on an in-memory cursor over `bytes`.
/// Its source seeks to the end for the length, refuses a length that is not a
/// multiple of four, reads the words in native byte order, swaps every word if
/// the first one is the byte-swapped magic number, and refuses a result whose
/// first word (if any) is not the magic number. The contract states that
/// outcome, which is the same on hosts of either byte order; reading from a
/// cursor over a slice cannot fail otherwise.
#[verifier::external_body]
fn read_spv(bytes: &[u8]) -> (r: Option<Vec<u32>>)
    ensures
        match spirv_words(bytes@) {
            Some(words) => r matches Some(v) && v@ == words,
            None => r is None,
        },
{
    ash::util::read_spv(&mut std::io::Cursor::new(bytes)).ok()
}

/// Why shader code could not be decoded.
#[derive(Clone, Copy, Debug, PartialEq, Eq)]
pub enum ShaderError {
    /// The bytes are not SPIR-V: their length is zero or not a multiple of
    /// four, or the first word is not the magic number in either byte order.
    InvalidSpirv,
}

/// Decodes the bytes of a compiled shader file into SPIR-V words, in the byte
/// order that the file's magic number shows.
pub fn decode_spirv(bytes: &[u8]) -> (r: Result<Vec<u32>, ShaderError>)
    ensures
        match spirv_words(bytes@) {
            Some(words) => r matches Ok(v) && v@ == words,
            None => r == Err::<Vec<u32>, ShaderError>(ShaderError::InvalidSpirv),
        },
{
    match read_spv(bytes) {
        Some(words) => Ok(words),
        None => Err(ShaderError::InvalidSpirv),
    }
}

/// Byte `j` (0 to 3) of `w`, counting from the least significant.
pub open spec fn word_byte(w: u32, j: int) -> u8 {
    if j == 0 {
        (w % 256) as u8
    } else if j == 1 {
        ((w / 256) % 256) as u8
    } else if j == 2 {
        ((w / 65536) % 256) as u8
    } else {
        (w / 16777216) as u8
    }
}

/// The bytes of `words`, each word written little-endian.
pub open spec fn encode_le(words: Seq<u32>) -> Seq<u8> {
    Seq::new(4 * words.len(), |k: int| word_byte(words[k / 4], k % 4))
}

/// The bytes of `words`, each word written big-endian.
pub open spec fn encode_be(words: Seq<u32>) -> Seq<u8> {
    Seq::new(4 * words.len(), |k: int| word_byte(words[k / 4], 3 - k % 4))
}

proof fn lemma_word_bytes(w: u32)
    ensures
        word_byte(w, 0) + word_byte(w, 1) * 256 + word_byte(w, 2) * 65536 + word_byte(w, 3)
            * 16777216 == w,
{
    assert(w % 256 + ((w / 256) % 256) * 256 + ((w / 65536) % 256) * 65536 + (w / 16777216)
        * 16777216 == w) by (nonlinear_arith);
    assert((w / 16777216) < 256) by (nonlinear_arith);
}

proof fn lemma_index_split(i: int, j: int)
    requires
        0 <= j < 4,
    ensures
        (4 * i + j) / 4 == i,
        (4 * i + j) % 4 == j,
{
    vstd::arithmetic::div_mod::lemma_fundamental_div_mod_converse(4 * i + j, 4, i, j);
}

proof fn lemma_le_word_of_encoding(words: Seq<u32>, i: int)
    requires
        0 <= i < words.len(),
    ensures
        le_word(encode_le(words), i) == words[i],
        be_word(encode_be(words), i) == words[i],
{
    lemma_index_split(i, 0);
    lemma_index_split(i, 1);
    lemma_index_split(i, 2);
    lemma_index_split(i, 3);
    lemma_word_bytes(words[i]);
}

/// Shader code decodes to the words it was written from, whichever byte order
/// it was written in: any sequence of words that starts with the magic number,
/// written out little-endian or big-endian, decodes back to itself.
pub proof fn lemma_spirv_byte_order_agnostic(words: Seq<u32>)
    requires
        words.len() > 0,
        words[0] == 0x0723_0203u32,
    ensures
        spirv_words(encode_le(words)) == Some(words),
        spirv_words(encode_be(words)) == Some(words),
{
    let le = encode_le(words);
    let be = encode_be(words);
    assert(le.len() / 4 == words.len()) by {
        lemma_index_split(words.len() as int, 0);
    }
    assert(le.len() % 4 == 0) by {
        lemma_index_split(words.len() as int, 0);
    }
    lemma_le_word_of_encoding(words, 0);
    assert forall|i: int| 0 <= i < words.len() implies #[trigger] le_words(le)[i] == words[i] by {
        lemma_le_word_of_encoding(words, i);
    }
    assert(le_words(le) =~= words);
    assert forall|i: int| 0 <= i < words.len() implies #[trigger] be_words(be)[i] == words[i] by {
        lemma_le_word_of_encoding(words, i);
    }
    assert(be_words(be) =~= words);
    // The big-endian encoding, read little-endian, gives the byte-swapped magic number.
    lemma_index_split(0, 0);
    lemma_index_split(0, 1);
    lemma_index_split(0, 2);
    lemma_index_split(0, 3);
    assert(be[0] == 0x07u8 && be[1] == 0x23u8 && be[2] == 0x02u8 && be[3] == 0x03u8);
    assert(le_word(be, 0) != SPIRV_MAGIC);
}

} // verus!
