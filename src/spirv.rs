//! Validation of binary SPIR-V modules.
use vstd::prelude::*;

verus! {

/// The word every SPIR-V module starts with.
pub const SPIRV_MAGIC_NUMBER: u32 = 0x0723_0203;

/// Shader code handed to the device.
#[derive(Debug, PartialEq, Eq)]
pub enum ShaderSource {
    /// A binary SPIR-V module, as 32-bit words.
    SpirV(Vec<u32>),
}

/// Why a byte sequence is not a SPIR-V module.
#[derive(Debug, Clone, Copy, PartialEq, Eq, Structural)]
pub enum SpirvError {
    /// The length in bytes is not a multiple of four.
    LengthNotMultipleOfFour { len: usize },
    /// The module holds no word at all.
    Empty,
    /// The first word is not the SPIR-V magic number.
    WrongMagicNumber { found: u32 },
}

/// The little-endian word made of four bytes.
pub open spec fn word_of(b0: u8, b1: u8, b2: u8, b3: u8) -> u32 {
    (b0 as int + 256 * (b1 as int) + 65536 * (b2 as int) + 16777216 * (b3 as int)) as u32
}

/// The `k`-th byte (least significant first) of a word.
pub open spec fn byte_of(w: u32, k: int) -> u8 {
    if k == 0 {
        (w % 256) as u8
    } else if k == 1 {
        ((w / 256) % 256) as u8
    } else if k == 2 {
        ((w / 65536) % 256) as u8
    } else {
        (w / 16777216) as u8
    }
}

/// The words that a byte sequence holds, four little-endian bytes each.
pub open spec fn words_of_bytes(b: Seq<u8>) -> Seq<u32> {
    Seq::new(
        b.len() / 4,
        |i: int| word_of(b[4 * i], b[4 * i + 1], b[4 * i + 2], b[4 * i + 3]),
    )
}

/// The bytes of a word sequence, four little-endian bytes per word.
pub open spec fn bytes_of_words(w: Seq<u32>) -> Seq<u8> {
    Seq::new(4 * w.len(), |i: int| byte_of(w[i / 4], i % 4))
}

/// What a SPIR-V check of `b` reports: `None` for a module, else the first fault.
pub open spec fn spirv_check(b: Seq<u8>) -> Option<SpirvError> {
    if b.len() % 4 != 0 {
        Some(SpirvError::LengthNotMultipleOfFour { len: b.len() as usize })
    } else if b.len() == 0 {
        Some(SpirvError::Empty)
    } else if words_of_bytes(b)[0] != SPIRV_MAGIC_NUMBER {
        Some(SpirvError::WrongMagicNumber { found: words_of_bytes(b)[0] })
    } else {
        None
    }
}

proof fn lemma_word_bytes(b0: u8, b1: u8, b2: u8, b3: u8)
    ensures
        byte_of(word_of(b0, b1, b2, b3), 0) == b0,
        byte_of(word_of(b0, b1, b2, b3), 1) == b1,
        byte_of(word_of(b0, b1, b2, b3), 2) == b2,
        byte_of(word_of(b0, b1, b2, b3), 3) == b3,
{
    let w: int = b0 as int + 256 * (b1 as int) + 65536 * (b2 as int) + 16777216 * (b3 as int);
    assert(0 <= w < 0x1_0000_0000);
    assert(w % 256 == b0 as int) by (nonlinear_arith)
        requires
            w == b0 as int + 256 * (b1 as int) + 65536 * (b2 as int) + 16777216 * (b3 as int),
            0 <= b0 < 256,
    ;
    assert(w / 256 == b1 as int + 256 * (b2 as int) + 65536 * (b3 as int)) by (nonlinear_arith)
        requires
            w == b0 as int + 256 * (b1 as int) + 65536 * (b2 as int) + 16777216 * (b3 as int),
            0 <= b0 < 256,
    ;
    assert((b1 as int + 256 * (b2 as int) + 65536 * (b3 as int)) % 256 == b1 as int)
        by (nonlinear_arith)
        requires
            0 <= b1 < 256,
    ;
    assert(w / 65536 == b2 as int + 256 * (b3 as int)) by (nonlinear_arith)
        requires
            w == b0 as int + 256 * (b1 as int) + 65536 * (b2 as int) + 16777216 * (b3 as int),
            0 <= b0 < 256,
            0 <= b1 < 256,
    ;
    assert((b2 as int + 256 * (b3 as int)) % 256 == b2 as int) by (nonlinear_arith)
        requires
            0 <= b2 < 256,
    ;
    assert(w / 16777216 == b3 as int) by (nonlinear_arith)
        requires
            w == b0 as int + 256 * (b1 as int) + 65536 * (b2 as int) + 16777216 * (b3 as int),
            0 <= b0 < 256,
            0 <= b1 < 256,
            0 <= b2 < 256,
    ;
}

/// Reading a byte sequence as words and writing the words back as bytes
/// gives the same bytes, whenever the length is a multiple of four.
pub proof fn lemma_spirv_round_trip(b: Seq<u8>)
    requires
        b.len() % 4 == 0,
    ensures
        bytes_of_words(words_of_bytes(b)) == b,
{
    let w = words_of_bytes(b);
    let r = bytes_of_words(w);
    assert(r.len() == b.len());
    assert forall|i: int| 0 <= i < b.len() implies r[i] == b[i] by {
        let j = i / 4;
        let k = i % 4;
        assert(4 * j + k == i);
        assert(4 * j + 3 < b.len());
        lemma_word_bytes(b[4 * j], b[4 * j + 1], b[4 * j + 2], b[4 * j + 3]);
    }
    assert(r =~= b);
}

/// Reads four bytes at `at` as one little-endian word.
fn read_word(data: &[u8], at: usize) -> (r: u32)
    requires
        at + 4 <= data@.len(),
    ensures
        r == word_of(data@[at as int], data@[at + 1], data@[at + 2], data@[at + 3]),
{
    let w = data[at] as u32 + 256 * (data[at + 1] as u32) + 65536 * (data[at + 2] as u32)
        + 16777216 * (data[at + 3] as u32);
    w
}

/// Treats the given bytes as a SPIR-V module.
///
/// The bytes are read as little-endian 32-bit words into storage of their own.
/// Fails if the length is not a multiple of four, if there is no word, or if
/// the first word is not the SPIR-V magic number.
pub fn make_spirv(data: &[u8]) -> (r: Result<ShaderSource, SpirvError>)
    ensures
        spirv_check(data@) is Some <==> r is Err,
        r matches Err(e) ==> spirv_check(data@) == Some(e),
        r matches Ok(ShaderSource::SpirV(words)) ==> words@ == words_of_bytes(data@),
{
    if data.len() % 4 != 0 {
        return Err(SpirvError::LengthNotMultipleOfFour { len: data.len() });
    }
    if data.len() == 0 {
        return Err(SpirvError::Empty);
    }
    let len = data.len();
    let n = len / 4;
    let mut words: Vec<u32> = Vec::with_capacity(n);
    let mut i: usize = 0;
    while i < n
        invariant
            n == data@.len() / 4,
            4 * n == len,
            len == data@.len(),
            i <= n,
            words@ == words_of_bytes(data@).subrange(0, i as int),
        decreases n - i,
    {
        let w = read_word(data, 4 * i);
        words.push(w);
        i = i + 1;
        assert(words@ =~= words_of_bytes(data@).subrange(0, i as int));
    }
    assert(words@ =~= words_of_bytes(data@));
    if words[0] != SPIRV_MAGIC_NUMBER {
        return Err(SpirvError::WrongMagicNumber { found: words[0] });
    }
    Ok(ShaderSource::SpirV(words))
}

/// Writes SPIR-V words back as little-endian bytes.
pub fn spirv_to_bytes(words: &[u32]) -> (r: Vec<u8>)
    requires
        4 * words@.len() <= usize::MAX,
    ensures
        r@ == bytes_of_words(words@),
{
    let mut out: Vec<u8> = Vec::with_capacity(4 * words.len());
    let mut i: usize = 0;
    while i < words.len()
        invariant
            4 * words@.len() <= usize::MAX,
            i <= words@.len(),
            out@ == bytes_of_words(words@).subrange(0, 4 * i as int),
        decreases words@.len() - i,
    {
        let w = words[i];
        out.push((w % 256) as u8);
        out.push(((w / 256) % 256) as u8);
        out.push(((w / 65536) % 256) as u8);
        out.push((w / 16777216) as u8);
        i = i + 1;
        assert(out@ =~= bytes_of_words(words@).subrange(0, 4 * i as int));
    }
    assert(out@ =~= bytes_of_words(words@));
    out
}

} // verus!
