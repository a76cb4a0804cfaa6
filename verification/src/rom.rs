//! The program image: a stream of bytes that holds sixteen-bit opcodes, the
//! high byte of each first.

use vstd::prelude::*;
use crate::memory::{
    lemma_word_bytes,
    word_of,
    MemoryView,
    MAX_PROGRAM_WORDS,
    PROGRAM_BASE,
    RAM_SIZE,
};

verus! {

/// The opcodes that a program image holds: one for each pair of bytes, the
/// first byte of a pair being the high one. A single byte left over at the
/// end is no opcode and is dropped.
pub open spec fn image_words(image: Seq<u8>) -> Seq<u16> {
    Seq::new(image.len() / 2, |k: int| word_of(image[2 * k], image[2 * k + 1]))
}

/// Reads the opcodes out of a program image.
pub fn program_from_bytes(image: &Vec<u8>) -> (program: Vec<u16>)
    ensures
        program@ == image_words(image@),
{
    let mut program: Vec<u16> = Vec::new();
    let pairs: usize = image.len() / 2;
    let mut k: usize = 0;
    while k < pairs
        invariant
            k <= pairs,
            pairs == image@.len() / 2,
            image@.len() == image.len(),
            program@.len() == k,
            forall|j: int| 0 <= j < k ==> program@[j] == word_of(image@[2 * j], image@[2 * j + 1]),
        decreases pairs - k,
    {
        let first: u8 = image[2 * k];
        let second: u8 = image[2 * k + 1];
        proof {
            lemma_word_bytes(0, first, second);
        }
        program.push(((first as u16) << 8) | (second as u16));
        k = k + 1;
    }
    program
}

/// Loading puts the image into RAM as it is. After the opcodes of an image
/// are loaded, the bytes from `PROGRAM_BASE` on are the bytes of the image,
/// pair by pair, and the opcode at the address of the `k`-th pair is the
/// `k`-th opcode. The rest of RAM is untouched.
pub proof fn lemma_loaded_image(mem: MemoryView, image: Seq<u8>)
    requires
        mem.wf(),
        image.len() / 2 <= MAX_PROGRAM_WORDS,
    ensures
        ({
            let words = image_words(image);
            let loaded = mem.loaded(words);
            let end = PROGRAM_BASE + 2 * words.len();
            &&& loaded.wf()
            &&& forall|a: int|
                PROGRAM_BASE <= a < end ==> #[trigger] loaded.ram[a] == image[a - PROGRAM_BASE]
            &&& forall|a: int|
                0 <= a < RAM_SIZE && !(PROGRAM_BASE <= a < end) ==> #[trigger] loaded.ram[a]
                    == mem.ram[a]
            &&& forall|k: int|
                0 <= k < words.len() ==> loaded.opcode_at(PROGRAM_BASE + 2 * k) == #[trigger] words[k]
        }),
{
    let words = image_words(image);
    let loaded = mem.loaded(words);
    let end = PROGRAM_BASE + 2 * words.len();
    assert forall|a: int| PROGRAM_BASE <= a < end implies #[trigger] loaded.ram[a] == image[a
        - PROGRAM_BASE] by {
        let k = (a - PROGRAM_BASE) / 2;
        lemma_word_bytes(0, image[2 * k], image[2 * k + 1]);
    }
    assert forall|k: int| 0 <= k < words.len() implies loaded.opcode_at(PROGRAM_BASE + 2 * k)
        == #[trigger] words[k] by {
        lemma_word_bytes(words[k], 0, 0);
    }
}

} // verus!
