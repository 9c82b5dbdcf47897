//! The base-64 transform used by the human-readable encoding strategy.
//!
//! The mathematical model is [`base64_encode`], which maps a byte sequence to
//! the text of its RFC 4648 standard-alphabet encoding, `'='` padding
//! included.  The executable transform is delegated to the `base64` crate
//! through two trusted wrappers whose contracts are stated over that model.

use vstd::prelude::*;
use base64::Engine;

verus! {

/// The character standing at index `i` of the standard base-64 alphabet
/// (`A`-`Z`, `a`-`z`, `0`-`9`, `+`, `/`).
pub open spec fn b64_char(i: int) -> char {
    if i == 0 {
        'A'
    } else if i == 1 {
        'B'
    } else if i == 2 {
        'C'
    } else if i == 3 {
        'D'
    } else if i == 4 {
        'E'
    } else if i == 5 {
        'F'
    } else if i == 6 {
        'G'
    } else if i == 7 {
        'H'
    } else if i == 8 {
        'I'
    } else if i == 9 {
        'J'
    } else if i == 10 {
        'K'
    } else if i == 11 {
        'L'
    } else if i == 12 {
        'M'
    } else if i == 13 {
        'N'
    } else if i == 14 {
        'O'
    } else if i == 15 {
        'P'
    } else if i == 16 {
        'Q'
    } else if i == 17 {
        'R'
    } else if i == 18 {
        'S'
    } else if i == 19 {
        'T'
    } else if i == 20 {
        'U'
    } else if i == 21 {
        'V'
    } else if i == 22 {
        'W'
    } else if i == 23 {
        'X'
    } else if i == 24 {
        'Y'
    } else if i == 25 {
        'Z'
    } else if i == 26 {
        'a'
    } else if i == 27 {
        'b'
    } else if i == 28 {
        'c'
    } else if i == 29 {
        'd'
    } else if i == 30 {
        'e'
    } else if i == 31 {
        'f'
    } else if i == 32 {
        'g'
    } else if i == 33 {
        'h'
    } else if i == 34 {
        'i'
    } else if i == 35 {
        'j'
    } else if i == 36 {
        'k'
    } else if i == 37 {
        'l'
    } else if i == 38 {
        'm'
    } else if i == 39 {
        'n'
    } else if i == 40 {
        'o'
    } else if i == 41 {
        'p'
    } else if i == 42 {
        'q'
    } else if i == 43 {
        'r'
    } else if i == 44 {
        's'
    } else if i == 45 {
        't'
    } else if i == 46 {
        'u'
    } else if i == 47 {
        'v'
    } else if i == 48 {
        'w'
    } else if i == 49 {
        'x'
    } else if i == 50 {
        'y'
    } else if i == 51 {
        'z'
    } else if i == 52 {
        '0'
    } else if i == 53 {
        '1'
    } else if i == 54 {
        '2'
    } else if i == 55 {
        '3'
    } else if i == 56 {
        '4'
    } else if i == 57 {
        '5'
    } else if i == 58 {
        '6'
    } else if i == 59 {
        '7'
    } else if i == 60 {
        '8'
    } else if i == 61 {
        '9'
    } else if i == 62 {
        '+'
    } else {
        '/'
    }
}

/// The index of `c` in the standard base-64 alphabet, or 64 when `c` is not
/// an alphabet character.
pub open spec fn b64_rank(c: char) -> int {
    if c == 'A' {
        0
    } else if c == 'B' {
        1
    } else if c == 'C' {
        2
    } else if c == 'D' {
        3
    } else if c == 'E' {
        4
    } else if c == 'F' {
        5
    } else if c == 'G' {
        6
    } else if c == 'H' {
        7
    } else if c == 'I' {
        8
    } else if c == 'J' {
        9
    } else if c == 'K' {
        10
    } else if c == 'L' {
        11
    } else if c == 'M' {
        12
    } else if c == 'N' {
        13
    } else if c == 'O' {
        14
    } else if c == 'P' {
        15
    } else if c == 'Q' {
        16
    } else if c == 'R' {
        17
    } else if c == 'S' {
        18
    } else if c == 'T' {
        19
    } else if c == 'U' {
        20
    } else if c == 'V' {
        21
    } else if c == 'W' {
        22
    } else if c == 'X' {
        23
    } else if c == 'Y' {
        24
    } else if c == 'Z' {
        25
    } else if c == 'a' {
        26
    } else if c == 'b' {
        27
    } else if c == 'c' {
        28
    } else if c == 'd' {
        29
    } else if c == 'e' {
        30
    } else if c == 'f' {
        31
    } else if c == 'g' {
        32
    } else if c == 'h' {
        33
    } else if c == 'i' {
        34
    } else if c == 'j' {
        35
    } else if c == 'k' {
        36
    } else if c == 'l' {
        37
    } else if c == 'm' {
        38
    } else if c == 'n' {
        39
    } else if c == 'o' {
        40
    } else if c == 'p' {
        41
    } else if c == 'q' {
        42
    } else if c == 'r' {
        43
    } else if c == 's' {
        44
    } else if c == 't' {
        45
    } else if c == 'u' {
        46
    } else if c == 'v' {
        47
    } else if c == 'w' {
        48
    } else if c == 'x' {
        49
    } else if c == 'y' {
        50
    } else if c == 'z' {
        51
    } else if c == '0' {
        52
    } else if c == '1' {
        53
    } else if c == '2' {
        54
    } else if c == '3' {
        55
    } else if c == '4' {
        56
    } else if c == '5' {
        57
    } else if c == '6' {
        58
    } else if c == '7' {
        59
    } else if c == '8' {
        60
    } else if c == '9' {
        61
    } else if c == '+' {
        62
    } else if c == '/' {
        63
    } else {
        64
    }
}

/// Every alphabet index is recovered by [`b64_rank`], and no alphabet
/// character is the padding character.
pub proof fn lemma_b64_char_rank(i: int)
    requires
        0 <= i < 64,
    ensures
        b64_rank(b64_char(i)) == i,
        b64_char(i) != '=',
{
}

/// The alphabet index drawn from the high six bits of the first byte of a
/// group.
pub open spec fn idx0(b0: u8) -> int {
    b0 as int / 4
}

/// The alphabet index drawn from the low two bits of the first byte and the
/// high four bits of the second.
pub open spec fn idx1(b0: u8, b1: u8) -> int {
    (b0 as int % 4) * 16 + b1 as int / 16
}

/// The alphabet index drawn from the low four bits of the second byte and the
/// high two bits of the third.
pub open spec fn idx2(b1: u8, b2: u8) -> int {
    (b1 as int % 16) * 4 + b2 as int / 64
}

/// The alphabet index drawn from the low six bits of the third byte of a
/// group.
pub open spec fn idx3(b2: u8) -> int {
    b2 as int % 64
}

/// The text of the RFC 4648 standard-alphabet base-64 encoding of `s`,
/// `'='` padding included: each full group of three bytes becomes four
/// alphabet characters, and a trailing group of one or two bytes becomes a
/// padded final quadruple.
pub open spec fn base64_encode(s: Seq<u8>) -> Seq<char>
    decreases s.len(),
{
    if s.len() == 0 {
        Seq::empty()
    } else if s.len() == 1 {
        seq![b64_char(idx0(s[0])), b64_char(idx1(s[0], 0)), '=', '=']
    } else if s.len() == 2 {
        seq![b64_char(idx0(s[0])), b64_char(idx1(s[0], s[1])), b64_char(idx2(s[1], 0)), '=']
    } else {
        seq![
            b64_char(idx0(s[0])),
            b64_char(idx1(s[0], s[1])),
            b64_char(idx2(s[1], s[2])),
            b64_char(idx3(s[2])),
        ] + base64_encode(s.skip(3))
    }
}

/// The encoding of `n` bytes is `4 * ceil(n / 3)` characters long.
pub proof fn lemma_encode_len(s: Seq<u8>)
    ensures
        base64_encode(s).len() == 4 * ((s.len() + 2) / 3),
    decreases s.len(),
{
    if s.len() >= 3 {
        lemma_encode_len(s.skip(3));
    }
}

/// Each of the four alphabet indices of a group lies in the alphabet.
proof fn lemma_idx_range(b0: u8, b1: u8, b2: u8)
    ensures
        0 <= idx0(b0) < 64,
        0 <= idx1(b0, b1) < 64,
        0 <= idx2(b1, b2) < 64,
        0 <= idx3(b2) < 64,
{
}

/// The four alphabet indices of a group determine the group's bytes.
proof fn lemma_idx_inj(a0: u8, a1: u8, a2: u8, b0: u8, b1: u8, b2: u8)
    requires
        idx0(a0) == idx0(b0),
        idx1(a0, a1) == idx1(b0, b1),
        idx2(a1, a2) == idx2(b1, b2),
        idx3(a2) == idx3(b2),
    ensures
        a0 == b0,
        a1 == b1,
        a2 == b2,
{
    assert(a0 as int % 4 == idx1(a0, a1) / 16 && a1 as int / 16 == idx1(a0, a1) % 16) by (nonlinear_arith);
    assert(b0 as int % 4 == idx1(b0, b1) / 16 && b1 as int / 16 == idx1(b0, b1) % 16) by (nonlinear_arith);
    assert(a1 as int % 16 == idx2(a1, a2) / 4 && a2 as int / 64 == idx2(a1, a2) % 4) by (nonlinear_arith);
    assert(b1 as int % 16 == idx2(b1, b2) / 4 && b2 as int / 64 == idx2(b1, b2) % 4) by (nonlinear_arith);
    assert(a0 as int == 4 * (a0 as int / 4) + a0 as int % 4);
    assert(b0 as int == 4 * (b0 as int / 4) + b0 as int % 4);
    assert(a1 as int == 16 * (a1 as int / 16) + a1 as int % 16);
    assert(b1 as int == 16 * (b1 as int / 16) + b1 as int % 16);
    assert(a2 as int == 64 * (a2 as int / 64) + a2 as int % 64);
    assert(b2 as int == 64 * (b2 as int / 64) + b2 as int % 64);
}

/// No two distinct byte sequences share a base-64 encoding.
pub proof fn lemma_base64_encode_injective(a: Seq<u8>, b: Seq<u8>)
    requires
        base64_encode(a) == base64_encode(b),
    ensures
        a == b,
    decreases a.len(),
{
    lemma_encode_len(a);
    lemma_encode_len(b);
    let ea = base64_encode(a);
    let eb = base64_encode(b);
    if a.len() == 0 {
        assert(b.len() == 0);
        assert(a =~= b);
    } else if b.len() == 0 {
        assert(a.len() == 0);
        assert(a =~= b);
    } else if a.len() <= 2 || b.len() <= 2 {
        lemma_idx_range(a[0], if a.len() >= 2 { a[1] } else { 0 }, 0);
        lemma_idx_range(b[0], if b.len() >= 2 { b[1] } else { 0 }, 0);
        if a.len() >= 3 {
            lemma_idx_range(a[0], a[1], a[2]);
            lemma_b64_char_rank(idx2(a[1], a[2]));
            lemma_b64_char_rank(idx3(a[2]));
        }
        if b.len() >= 3 {
            lemma_idx_range(b[0], b[1], b[2]);
            lemma_b64_char_rank(idx2(b[1], b[2]));
            lemma_b64_char_rank(idx3(b[2]));
        }
        if a.len() == 1 {
            lemma_b64_char_rank(idx1(a[0], 0));
        } else if a.len() == 2 {
            lemma_b64_char_rank(idx2(a[1], 0));
        }
        if b.len() == 1 {
            lemma_b64_char_rank(idx1(b[0], 0));
        } else if b.len() == 2 {
            lemma_b64_char_rank(idx2(b[1], 0));
        }
        // The padding characters at positions 2 and 3 tell the three possible
        // lengths of a four-character encoding apart.
        assert(a.len() == b.len());
        lemma_b64_char_rank(idx0(a[0]));
        lemma_b64_char_rank(idx0(b[0]));
        if a.len() == 1 {
            lemma_idx_inj(a[0], 0, 0, b[0], 0, 0);
        } else {
            lemma_b64_char_rank(idx1(a[0], a[1]));
            lemma_b64_char_rank(idx1(b[0], b[1]));
            lemma_idx_inj(a[0], a[1], 0, b[0], b[1], 0);
        }
        assert(a =~= b);
    } else {
        lemma_idx_range(a[0], a[1], a[2]);
        lemma_idx_range(b[0], b[1], b[2]);
        let ga = seq![
            b64_char(idx0(a[0])),
            b64_char(idx1(a[0], a[1])),
            b64_char(idx2(a[1], a[2])),
            b64_char(idx3(a[2])),
        ];
        let gb = seq![
            b64_char(idx0(b[0])),
            b64_char(idx1(b[0], b[1])),
            b64_char(idx2(b[1], b[2])),
            b64_char(idx3(b[2])),
        ];
        let ta = base64_encode(a.skip(3));
        let tb = base64_encode(b.skip(3));
        assert(ea == ga + ta);
        assert(eb == gb + tb);
        assert(ga[0] == gb[0] && ga[1] == gb[1] && ga[2] == gb[2] && ga[3] == gb[3]) by {
            assert((ga + ta)[0] == ga[0] && (gb + tb)[0] == gb[0]);
            assert((ga + ta)[1] == ga[1] && (gb + tb)[1] == gb[1]);
            assert((ga + ta)[2] == ga[2] && (gb + tb)[2] == gb[2]);
            assert((ga + ta)[3] == ga[3] && (gb + tb)[3] == gb[3]);
        }
        lemma_b64_char_rank(idx0(a[0]));
        lemma_b64_char_rank(idx1(a[0], a[1]));
        lemma_b64_char_rank(idx2(a[1], a[2]));
        lemma_b64_char_rank(idx3(a[2]));
        lemma_b64_char_rank(idx0(b[0]));
        lemma_b64_char_rank(idx1(b[0], b[1]));
        lemma_b64_char_rank(idx2(b[1], b[2]));
        lemma_b64_char_rank(idx3(b[2]));
        lemma_idx_inj(a[0], a[1], a[2], b[0], b[1], b[2]);
        assert(ta =~= tb) by {
            lemma_encode_len(a.skip(3));
            lemma_encode_len(b.skip(3));
            assert forall|i: int| 0 <= i < ta.len() implies ta[i] == tb[i] by {
                assert((ga + ta)[i + 4] == ta[i]);
                assert((gb + tb)[i + 4] == tb[i]);
                assert(ea[i + 4] == eb[i + 4]);
            }
        }
        lemma_base64_encode_injective(a.skip(3), b.skip(3));
        assert(a =~= b) by {
            assert forall|i: int| 0 <= i < a.len() implies a[i] == b[i] by {
                if i >= 3 {
                    assert(a.skip(3)[i - 3] == b.skip(3)[i - 3]);
                }
            }
        }
    }
}

/// Relies on `base64::Engine::encode` with the `STANDARD` engine of the
/// `base64` crate: RFC 4648 encoding over the standard alphabet with `'='`
/// padding, which is character for character what [`base64_encode`] states.
#[verifier::external_body]
pub(crate) fn encode_to_base64(bytes: &[u8]) -> (r: String)
    ensures
        r@ == base64_encode(bytes@),
{
    base64::engine::general_purpose::STANDARD.encode(bytes)
}

/// Relies on `base64::Engine::decode` with the `STANDARD` engine of the
/// `base64` crate, whose configuration demands canonical `'='` padding and
/// zero trailing bits: it returns the bytes whose encoding the input is when
/// such bytes exist, and an error for every other input.  The error text
/// embeds the crate's own diagnostic, through its `Display` impl.
#[verifier::external_body]
pub(crate) fn decode_from_base64(s: &str) -> (r: Result<Vec<u8>, String>)
    ensures
        match r {
            Ok(v) => s@ == base64_encode(v@),
            Err(_) => forall|b: Seq<u8>| s@ != base64_encode(b),
        },
{
    match base64::engine::general_purpose::STANDARD.decode(s) {
        Ok(v) => Ok(v),
        Err(e) => Err(format!("invalid base64: {}", e)),
    }
}

} // verus!
