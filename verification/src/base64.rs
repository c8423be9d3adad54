//! Base64 in the standard alphabet, with padding.

use vstd::prelude::*;

verus! {

/// The padding character `=`.
pub const PAD: u8 = 61;

/// The character that stands for the 6-bit value `v`: `A`-`Z`, `a`-`z`,
/// `0`-`9`, `+`, `/`.
pub open spec fn digit(v: int) -> u8 {
    if v < 26 {
        (65 + v) as u8
    } else if v < 52 {
        (97 + (v - 26)) as u8
    } else if v < 62 {
        (48 + (v - 52)) as u8
    } else if v == 62 {
        43
    } else {
        47
    }
}

/// The encoding of `bytes`: four characters for each group of three bytes,
/// the last group filled up with `=` where it is short.
pub open spec fn encoding(bytes: Seq<u8>) -> Seq<u8>
    decreases bytes.len(),
{
    if bytes.len() == 0 {
        seq![]
    } else if bytes.len() == 1 {
        let a = bytes[0] as int;
        seq![digit(a / 4), digit(a % 4 * 16), PAD, PAD]
    } else if bytes.len() == 2 {
        let a = bytes[0] as int;
        let b = bytes[1] as int;
        seq![digit(a / 4), digit(a % 4 * 16 + b / 16), digit(b % 16 * 4), PAD]
    } else {
        let a = bytes[0] as int;
        let b = bytes[1] as int;
        let c = bytes[2] as int;
        seq![digit(a / 4), digit(a % 4 * 16 + b / 16), digit(b % 16 * 4 + c / 64), digit(c % 64)]
            + encoding(bytes.skip(3))
    }
}

/// Different 6-bit values have different characters, and none of them is the
/// padding character.
pub proof fn lemma_digit_injective(u: int, v: int)
    requires
        0 <= u < 64,
        0 <= v < 64,
    ensures
        digit(u) != PAD,
        digit(u) == digit(v) ==> u == v,
{
}

/// An encoding has four characters for every three bytes begun.
pub proof fn lemma_encoding_len(bytes: Seq<u8>)
    ensures
        encoding(bytes).len() == 4 * ((bytes.len() + 2) / 3),
    decreases bytes.len(),
{
    if bytes.len() >= 3 {
        lemma_encoding_len(bytes.skip(3));
    }
}

/// Different byte strings have different encodings.
pub proof fn lemma_encoding_injective(x: Seq<u8>, y: Seq<u8>)
    requires
        encoding(x) == encoding(y),
    ensures
        x == y,
    decreases x.len(),
{
    let ex = encoding(x);
    let ey = encoding(y);
    lemma_encoding_len(x);
    lemma_encoding_len(y);
    if x.len() == 0 || y.len() == 0 {
        assert(x =~= y);
    } else {
        let a = x[0] as int;
        let p = y[0] as int;
        assert(ex[0] == ey[0] && ex[1] == ey[1] && ex[2] == ey[2] && ex[3] == ey[3]);
        lemma_digit_injective(a / 4, p / 4);
        if x.len() == 1 {
            lemma_digit_injective(a % 4 * 16, p % 4 * 16);
            if y.len() >= 2 {
                let q = y[1] as int;
                lemma_digit_injective(q % 16 * 4, 0);
                if y.len() >= 3 {
                    let r = y[2] as int;
                    lemma_digit_injective(q % 16 * 4 + r / 64, 0);
                }
            }
            assert(x =~= y);
        } else if x.len() == 2 {
            let b = x[1] as int;
            lemma_digit_injective(b % 16 * 4, 0);
            if y.len() == 1 {
            } else {
                let q = y[1] as int;
                lemma_digit_injective(a % 4 * 16 + b / 16, p % 4 * 16 + q / 16);
                if y.len() == 2 {
                    lemma_digit_injective(b % 16 * 4, q % 16 * 4);
                } else {
                    let r = y[2] as int;
                    lemma_digit_injective(r % 64, 0);
                }
            }
            assert(x =~= y);
        } else {
            let b = x[1] as int;
            let c = x[2] as int;
            lemma_digit_injective(b % 16 * 4 + c / 64, 0);
            lemma_digit_injective(c % 64, 0);
            if y.len() >= 3 {
                let q = y[1] as int;
                let r = y[2] as int;
                lemma_digit_injective(a % 4 * 16 + b / 16, p % 4 * 16 + q / 16);
                lemma_digit_injective(b % 16 * 4 + c / 64, q % 16 * 4 + r / 64);
                lemma_digit_injective(c % 64, r % 64);
                assert(encoding(x.skip(3)) =~= ex.skip(4));
                assert(encoding(y.skip(3)) =~= ey.skip(4));
                lemma_encoding_injective(x.skip(3), y.skip(3));
                assert(x =~= seq![x[0], x[1], x[2]] + x.skip(3));
                assert(y =~= seq![y[0], y[1], y[2]] + y.skip(3));
            }
        }
    }
}

/// The character for a 6-bit value.
fn digit_of(v: u8) -> (c: u8)
    requires
        v < 64,
    ensures
        c == digit(v as int),
{
    if v < 26 {
        65 + v
    } else if v < 52 {
        97 + (v - 26)
    } else if v < 62 {
        48 + (v - 52)
    } else if v == 62 {
        43
    } else {
        47
    }
}

/// Encodes `bytes`.
pub fn encode(bytes: &[u8]) -> (text: Vec<u8>)
    ensures
        text@ == encoding(bytes@),
{
    let n = bytes.len();
    let mut text: Vec<u8> = Vec::new();
    let mut i: usize = 0;
    assert(bytes@.skip(0) =~= bytes@);
    while n - i >= 3
        invariant
            n == bytes@.len(),
            i <= n,
            encoding(bytes@) == text@ + encoding(bytes@.skip(i as int)),
        decreases n - i,
    {
        let a = bytes[i];
        let b = bytes[i + 1];
        let c = bytes[i + 2];
        let ghost before = text@;
        text.push(digit_of(a / 4));
        text.push(digit_of(a % 4 * 16 + b / 16));
        text.push(digit_of(b % 16 * 4 + c / 64));
        text.push(digit_of(c % 64));
        proof {
            let rest = bytes@.skip(i as int);
            assert(rest.skip(3) =~= bytes@.skip(i + 3));
            assert(text@ =~= before + seq![
                digit(a as int / 4),
                digit(a as int % 4 * 16 + b as int / 16),
                digit(b as int % 16 * 4 + c as int / 64),
                digit(c as int % 64),
            ]);
        }
        i += 3;
    }
    let ghost before = text@;
    if n - i == 1 {
        let a = bytes[i];
        text.push(digit_of(a / 4));
        text.push(digit_of(a % 4 * 16));
        text.push(PAD);
        text.push(PAD);
        assert(text@ =~= before + encoding(bytes@.skip(i as int)));
    } else if n - i == 2 {
        let a = bytes[i];
        let b = bytes[i + 1];
        text.push(digit_of(a / 4));
        text.push(digit_of(a % 4 * 16 + b / 16));
        text.push(digit_of(b % 16 * 4));
        text.push(PAD);
        assert(text@ =~= before + encoding(bytes@.skip(i as int)));
    } else {
        assert(text@ =~= before + encoding(bytes@.skip(i as int)));
    }
    text
}

} // verus!
