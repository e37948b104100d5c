//! How an ArtCNN network is executed, and the textual overrides of that.
use crate::modes::LumaUpscalerMode;
use crate::text::text_is;
use vstd::prelude::*;

verus! {

/// Tuning parameters that every back end shares.
#[derive(Debug, Clone, Copy, PartialEq, Eq)]
pub struct ArtCnnExecutionPolicy {
    /// Source pixels produced by one scalar-kernel thread.
    pub scalar_block: (usize, usize),
    /// Eight-pixel fragments processed by one matrix-kernel strip.
    pub matrix_pixel_fragments: usize,
}

/// Which kernels a process is told to use.
#[derive(Debug, Clone, Copy, PartialEq, Eq, Structural)]
pub enum ArtCnnBackendOverride {
    Scalar,
    Matrix,
}

impl ArtCnnBackendOverride {
    /// Reads `scalar` or `matmul`; anything else is no override.
    pub fn parse(value: &str) -> (backend: Option<Self>)
        ensures
            backend == if value@ == "scalar"@ {
                Some(ArtCnnBackendOverride::Scalar)
            } else if value@ == "matmul"@ {
                Some(ArtCnnBackendOverride::Matrix)
            } else {
                None
            },
    {
        proof {
            reveal_strlit("scalar");
            reveal_strlit("matmul");
            assert("scalar"@[0] != "matmul"@[0]);
        }
        if text_is(value, "scalar") {
            Some(ArtCnnBackendOverride::Scalar)
        } else if text_is(value, "matmul") {
            Some(ArtCnnBackendOverride::Matrix)
        } else {
            None
        }
    }
}

/// The value of one decimal digit.
pub open spec fn digit_value(c: char) -> Option<nat> {
    if '0' <= c <= '9' {
        Some((c as u32 - '0' as u32) as nat)
    } else {
        None
    }
}

/// The value of a run of decimal digits, zero for an empty run.
pub open spec fn digits_value(text: Seq<char>) -> Option<nat>
    decreases text.len(),
{
    if text.len() == 0 {
        Some(0)
    } else {
        match (digits_value(text.drop_last()), digit_value(text.last())) {
            (Some(high), Some(low)) => Some(high * 10 + low),
            _ => None,
        }
    }
}

/// The value of an unsigned numeral: digits, after an optional plus sign.
pub open spec fn numeral(text: Seq<char>) -> Option<nat> {
    let digits = if text.len() > 0 && text[0] == '+' {
        text.skip(1)
    } else {
        text
    };
    if digits.len() == 0 {
        None
    } else {
        digits_value(digits)
    }
}

/// The value of the numeral, where there is one in `1..=max`.
pub open spec fn bounded_numeral(text: Seq<char>, max: nat) -> Option<nat> {
    match numeral(text) {
        Some(value) => if 1 <= value <= max {
            Some(value)
        } else {
            None
        },
        None => None,
    }
}

proof fn lemma_longer_is_larger(text: Seq<char>, n: int)
    requires
        0 <= n <= text.len(),
        digits_value(text) is Some,
    ensures
        digits_value(text.take(n)) is Some,
        digits_value(text.take(n)).unwrap() <= digits_value(text).unwrap(),
    decreases text.len(),
{
    if n == text.len() {
        assert(text.take(n) =~= text);
    } else {
        lemma_longer_is_larger(text.drop_last(), n);
        assert(text.drop_last().take(n) =~= text.take(n));
    }
}

/// Reads the numeral in `text[from..to]` where it is in `1..=max`.
fn read_numeral(text: &str, from: usize, to: usize, max: usize) -> (value: Option<usize>)
    requires
        from <= to <= text@.len(),
        max <= 1000,
    ensures
        match value {
            Some(value) => bounded_numeral(
                text@.subrange(from as int, to as int),
                max as nat,
            ) == Some(value as nat),
            None => bounded_numeral(text@.subrange(from as int, to as int), max as nat) is None,
        },
{
    let len: usize = text.unicode_len();
    let ghost whole = text@.subrange(from as int, to as int);
    let mut start: usize = from;
    if from < to && text.get_char(from) == '+' {
        start = from + 1;
    }
    let ghost digits = if whole.len() > 0 && whole[0] == '+' {
        whole.skip(1)
    } else {
        whole
    };
    proof {
        assert(digits =~= text@.subrange(start as int, to as int));
    }
    if start == to {
        return None;
    }
    let mut at: usize = start;
    let mut value: usize = 0;
    proof {
        assert(digits.take(0).len() == 0);
    }
    while at < to
        invariant
            from <= start <= at <= to <= len,
            len == text@.len(),
            start < to,
            max <= 1000,
            whole == text@.subrange(from as int, to as int),
            digits == text@.subrange(start as int, to as int),
            numeral(whole) == digits_value(digits),
            value <= max,
            digits_value(digits.take(at - start)) == Some(value as nat),
        decreases to - at,
    {
        let c: char = text.get_char(at);
        proof {
            let longer = digits.take(at - start + 1);
            assert(longer.drop_last() =~= digits.take(at - start));
            assert(longer.last() == c);
            if digits_value(digits) is Some {
                lemma_longer_is_larger(digits, at - start + 1);
            }
        }
        if c < '0' || '9' < c {
            return None;
        }
        let low: usize = (c as u32 - '0' as u32) as usize;
        value = value * 10 + low;
        if value > max {
            return None;
        }
        at = at + 1;
    }
    proof {
        assert(digits.take(to - start) =~= digits);
    }
    if value == 0 {
        None
    } else {
        Some(value)
    }
}

/// `at` is the first place where the text has an `x`.
pub open spec fn first_cross(text: Seq<char>, at: int) -> bool {
    &&& 0 <= at < text.len()
    &&& text[at] == 'x'
    &&& forall|k: int| 0 <= k < at ==> #[trigger] text[k] != 'x'
}

/// Two numerals in `1..=4` round the first `x`.
pub open spec fn is_block(text: Seq<char>, block: (usize, usize)) -> bool {
    exists|at: int| #[trigger]
        first_cross(text, at) && bounded_numeral(text.take(at), 4) == Some(block.0 as nat)
            && bounded_numeral(text.skip(at + 1), 4) == Some(block.1 as nat)
}

/// The text names no block.
pub open spec fn names_no_block(text: Seq<char>) -> bool {
    forall|at: int| #[trigger]
        first_cross(text, at) ==> bounded_numeral(text.take(at), 4) is None || bounded_numeral(
            text.skip(at + 1),
            4,
        ) is None
}

/// Reads a block written as two numbers with an `x` between them.
pub fn parse_scalar_block(value: &str) -> (block: Option<(usize, usize)>)
    ensures
        match block {
            Some(block) => is_block(value@, block),
            None => names_no_block(value@),
        },
{
    let len: usize = value.unicode_len();
    let mut at: usize = 0;
    while at < len && value.get_char(at) != 'x'
        invariant
            at <= len,
            len == value@.len(),
            forall|k: int| 0 <= k < at ==> #[trigger] value@[k] != 'x',
        decreases len - at,
    {
        at = at + 1;
    }
    if at == len {
        return None;
    }
    proof {
        assert(first_cross(value@, at as int));
        assert forall|k: int| #[trigger] first_cross(value@, k) implies k == at by {
            if k < at {
                assert(value@[k] != 'x');
            } else if at < k {
                assert(value@[at as int] != 'x');
            }
        }
        assert(value@.subrange(0, at as int) =~= value@.take(at as int));
        assert(value@.subrange(at + 1, len as int) =~= value@.skip(at + 1));
    }
    match (read_numeral(value, 0, at, 4), read_numeral(value, at + 1, len, 4)) {
        (Some(x), Some(y)) => Some((x, y)),
        _ => None,
    }
}

/// A text names at most one block.
pub proof fn law_block_text_is_unambiguous(text: Seq<char>, a: (usize, usize), b: (usize, usize))
    requires
        is_block(text, a),
        is_block(text, b),
    ensures
        a == b,
        1 <= a.0 <= 4,
        1 <= a.1 <= 4,
        !names_no_block(text),
{
    let i = choose|at: int| #[trigger]
        first_cross(text, at) && bounded_numeral(text.take(at), 4) == Some(a.0 as nat)
            && bounded_numeral(text.skip(at + 1), 4) == Some(a.1 as nat);
    let j = choose|at: int| #[trigger]
        first_cross(text, at) && bounded_numeral(text.take(at), 4) == Some(b.0 as nat)
            && bounded_numeral(text.skip(at + 1), 4) == Some(b.1 as nat);
    if i < j {
        assert(text[i] != 'x');
    } else if j < i {
        assert(text[j] != 'x');
    }
}

/// Pixels that one scalar thread produces unless told otherwise.
pub open spec fn default_block(mode: LumaUpscalerMode) -> (usize, usize) {
    match mode {
        LumaUpscalerMode::Off => (1, 1),
        LumaUpscalerMode::ArtCnnC4F16 => (2, 2),
        LumaUpscalerMode::ArtCnnC4F16Ds => (2, 2),
        LumaUpscalerMode::ArtCnnC4F32 => (2, 1),
    }
}

impl ArtCnnExecutionPolicy {
    /// The defaults of a mode, with each override that is in bounds.
    pub fn from_overrides(
        mode: LumaUpscalerMode,
        scalar_block: Option<&str>,
        matrix_pixel_fragments: Option<&str>,
    ) -> (policy: Self)
        ensures
            match scalar_block {
                Some(text) => {
                    ||| is_block(text@, policy.scalar_block)
                    ||| names_no_block(text@) && policy.scalar_block == default_block(mode)
                },
                None => policy.scalar_block == default_block(mode),
            },
            policy.matrix_pixel_fragments as nat == match matrix_pixel_fragments {
                Some(text) => match bounded_numeral(text@, 8) {
                    Some(value) => value,
                    None => 8,
                },
                None => 8,
            },
            1 <= policy.scalar_block.0 <= 4,
            1 <= policy.scalar_block.1 <= 4,
            1 <= policy.matrix_pixel_fragments <= 8,
    {
        let fallback: (usize, usize) = match mode {
            LumaUpscalerMode::Off => (1, 1),
            LumaUpscalerMode::ArtCnnC4F16 => (2, 2),
            LumaUpscalerMode::ArtCnnC4F16Ds => (2, 2),
            LumaUpscalerMode::ArtCnnC4F32 => (2, 1),
        };
        let block: (usize, usize) = match scalar_block {
            Some(text) => match parse_scalar_block(text) {
                Some(block) => {
                    proof {
                        law_block_text_is_unambiguous(text@, block, block);
                    }
                    block
                },
                None => fallback,
            },
            None => fallback,
        };
        let fragments: usize = match matrix_pixel_fragments {
            Some(text) => {
                proof {
                    assert(text@.subrange(0, text@.len() as int) =~= text@);
                }
                match read_numeral(text, 0, text.unicode_len(), 8) {
                    Some(value) => value,
                    None => 8,
                }
            },
            None => 8,
        };
        ArtCnnExecutionPolicy { scalar_block: block, matrix_pixel_fragments: fragments }
    }
}

} // verus!
