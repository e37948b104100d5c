//! The words of a compiled shader.
use vstd::prelude::*;

verus! {

/// The word at `4 * k`, with its lowest byte first.
pub open spec fn little_word(bytes: Seq<u8>, k: int) -> u32 {
    (bytes[4 * k] + bytes[4 * k + 1] * 0x100 + bytes[4 * k + 2] * 0x1_0000 + bytes[4 * k + 3]
        * 0x100_0000) as u32
}

/// The word at `4 * k`, with its highest byte first.
pub open spec fn big_word(bytes: Seq<u8>, k: int) -> u32 {
    (bytes[4 * k + 3] + bytes[4 * k + 2] * 0x100 + bytes[4 * k + 1] * 0x1_0000 + bytes[4 * k]
        * 0x100_0000) as u32
}

/// The word that every module starts with.
pub open spec fn magic() -> u32 {
    0x0723_0203
}

/// The bytes are words of a module, lowest byte first.
pub open spec fn is_little(bytes: Seq<u8>) -> bool {
    bytes.len() % 4 == 0 && bytes.len() > 0 && little_word(bytes, 0) == magic()
}

/// The bytes are words of a module, highest byte first.
pub open spec fn is_big(bytes: Seq<u8>) -> bool {
    bytes.len() % 4 == 0 && bytes.len() > 0 && big_word(bytes, 0) == magic()
}

/// The words of a module, in whichever order its bytes stand.
pub open spec fn module_words(bytes: Seq<u8>) -> Seq<u32> {
    Seq::new(
        bytes.len() / 4,
        |k: int|
            if is_little(bytes) {
                little_word(bytes, k)
            } else {
                big_word(bytes, k)
            },
    )
}

/// What is wrong with bytes that are no module.
pub open spec fn module_fault(bytes: Seq<u8>) -> Seq<char> {
    if bytes.len() % 4 != 0 {
        "input length not divisible by 4"@
    } else {
        "input missing SPIR-V magic number"@
    }
}

/// `ash::util::read_spv` on a cursor over the bytes. The contract claims that it
/// accepts exactly the bytes that are whole words and start with the magic word
/// in either byte order, that it then gives the words, and otherwise which of
/// its two messages its error has.
#[verifier::external_body]
fn read_spv(bytes: &[u8]) -> (words: Result<Vec<u32>, String>)
    ensures
        match words {
            Ok(words) => (is_little(bytes@) || is_big(bytes@)) && words@ == module_words(bytes@),
            Err(text) => !is_little(bytes@) && !is_big(bytes@) && text@ == module_fault(bytes@),
        },
{
    match ash::util::read_spv(&mut std::io::Cursor::new(bytes)) {
        Ok(words) => Ok(words),
        Err(error) => Err(error.to_string()),
    }
}

/// Reads the words of a shader. `stage` names what is being made in messages.
pub fn shader_words(bytes: &[u8], stage: &str) -> (words: Result<Vec<u32>, String>)
    ensures
        match words {
            Ok(words) => (is_little(bytes@) || is_big(bytes@)) && words@ == module_words(bytes@),
            Err(text) => {
                &&& !is_little(bytes@) && !is_big(bytes@)
                &&& text@ == "stage="@ + stage@ + " reason=invalid_spirv message="@ + module_fault(
                    bytes@,
                )
            },
        },
{
    match read_spv(bytes) {
        Ok(words) => Ok(words),
        Err(message) => {
            let mut text: String = "stage=".to_owned();
            text.append(stage);
            text.append(" reason=invalid_spirv message=");
            text.append(message.as_str());
            Err(text)
        },
    }
}

/// The order of the bytes does not matter: a module whose words are turned round
/// byte by byte has the same words.
pub proof fn law_byte_order_does_not_matter(a: Seq<u8>, b: Seq<u8>)
    requires
        a.len() == b.len(),
        a.len() % 4 == 0,
        is_little(a),
        forall|k: int|
            0 <= k < a.len() / 4 ==> #[trigger] b[4 * k] == a[4 * k + 3] && b[4 * k + 1] == a[4 * k
                + 2] && b[4 * k + 2] == a[4 * k + 1] && b[4 * k + 3] == a[4 * k],
    ensures
        is_big(b),
        module_words(a) == module_words(b),
{
    let first: int = 0;
    assert(b[4 * first] == a[4 * first + 3]);
    assert(a[0] == 0x03 && a[1] == 0x02 && a[2] == 0x23 && a[3] == 0x07);
    assert(big_word(b, 0) == magic());
    assert(little_word(b, 0) != magic());
    assert forall|k: int| 0 <= k < a.len() / 4 implies module_words(a)[k] == module_words(b)[k] by {
        assert(b[4 * k] == a[4 * k + 3]);
    }
    assert(module_words(a) =~= module_words(b));
}

} // verus!
