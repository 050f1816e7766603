use vstd::prelude::*;
use crate::text::{hex_char, hex_char_of, hex_val, hex_val_spec, lemma_hex_char_val};

verus! {

/// Sixteen raised to a width, the number of values a fixed-width
/// hexadecimal field can hold.
pub open spec fn pow16(w: nat) -> int
    decreases w,
{
    if w == 0 {
        1
    } else {
        16 * pow16((w - 1) as nat)
    }
}

/// The exact size of the 32-digit space.
pub proof fn lemma_pow16_32()
    ensures
        pow16(32) == 0x100000000000000000000000000000000,
{
    reveal_with_fuel(pow16, 33);
}

pub proof fn lemma_pow16_le(a: nat, b: nat)
    requires
        a <= b,
    ensures
        0 < pow16(a) <= pow16(b),
    decreases b,
{
    if b == 0 {
    } else if a == b {
        lemma_pow16_le((a - 1) as nat, (b - 1) as nat);
    } else {
        lemma_pow16_le(a, (b - 1) as nat);
    }
}

/// A non-negative value written as exactly `w` lowercase hexadecimal
/// digits, most significant first.
pub open spec fn hex_seq(n: int, w: nat) -> Seq<char>
    decreases w,
{
    if w == 0 {
        Seq::empty()
    } else {
        hex_seq(n / 16, (w - 1) as nat).push(hex_char(n % 16))
    }
}

/// Every character is a lowercase hexadecimal digit.
pub open spec fn all_hex(s: Seq<char>) -> bool {
    forall|k: int| 0 <= k < s.len() ==> hex_val_spec(#[trigger] s[k]) >= 0
}

/// The value of a string of hexadecimal digits, most significant first.
pub open spec fn hex_value(s: Seq<char>) -> int
    decreases s.len(),
{
    if s.len() == 0 {
        0
    } else {
        hex_value(s.drop_last()) * 16 + hex_val_spec(s.last())
    }
}

/// A fixed-width rendering holds digits only, and reads back as the
/// value it was written from.
pub proof fn lemma_hex_seq_props(n: int, w: nat)
    requires
        0 <= n < pow16(w),
    ensures
        hex_seq(n, w).len() == w,
        all_hex(hex_seq(n, w)),
        hex_value(hex_seq(n, w)) == n,
    decreases w,
{
    if w > 0 {
        let m = n / 16;
        let d = n % 16;
        assert(n == 16 * m + d);
        assert(0 <= d < 16);
        assert(m < pow16((w - 1) as nat));
        lemma_hex_seq_props(m, (w - 1) as nat);
        lemma_hex_char_val(d);
        let h = hex_seq(n, w);
        let h0 = hex_seq(m, (w - 1) as nat);
        assert(h == h0.push(hex_char(d)));
        assert forall|k: int| 0 <= k < h.len() implies hex_val_spec(#[trigger] h[k]) >= 0 by {
            if k < h.len() - 1 {
                assert(h[k] == h0[k]);
            }
        }
        assert(h.drop_last() =~= h0);
        assert(h.last() == hex_char(d));
    }
}

/// A 128-bit identifier in its canonical text form: thirty-two lowercase
/// hexadecimal digits in groups of 8-4-4-4-12, separated by hyphens.
pub open spec fn uuid_chars(id: u128) -> Seq<char> {
    let h = hex_seq(id as int, 32);
    h.subrange(0, 8) + seq!['-'] + h.subrange(8, 12) + seq!['-'] + h.subrange(12, 16) + seq!['-']
        + h.subrange(16, 20) + seq!['-'] + h.subrange(20, 32)
}

/// What reading a canonical identifier text yields: the 128-bit value,
/// or nothing when the shape is not the canonical one.
pub open spec fn spec_parse_uuid(s: Seq<char>) -> Option<u128> {
    if s.len() == 36 && s[8] == '-' && s[13] == '-' && s[18] == '-' && s[23] == '-' {
        let digits = s.subrange(0, 8) + s.subrange(9, 13) + s.subrange(14, 18) + s.subrange(
            19,
            23,
        ) + s.subrange(24, 36);
        if all_hex(digits) {
            Some(hex_value(digits) as u128)
        } else {
            None
        }
    } else {
        None
    }
}

/// Position of the digit numbered `k` within the hyphenated text.
pub open spec fn uuid_digit_pos(k: int) -> int {
    if k < 8 {
        k
    } else if k < 12 {
        k + 1
    } else if k < 16 {
        k + 2
    } else if k < 20 {
        k + 3
    } else {
        k + 4
    }
}

/// Reading back the canonical text of an identifier yields that
/// identifier: the text form loses nothing.
pub proof fn lemma_parse_uuid_chars(id: u128)
    ensures
        uuid_chars(id).len() == 36,
        spec_parse_uuid(uuid_chars(id)) == Some(id),
{
    lemma_pow16_32();
    lemma_hex_seq_props(id as int, 32);
    let h = hex_seq(id as int, 32);
    let s = uuid_chars(id);
    assert(s.len() == 36);
    assert forall|k: int| 0 <= k < 32 implies s[uuid_digit_pos(k)] == h[k] by {}
    assert(s[8] == '-');
    assert(s[13] == '-');
    assert(s[18] == '-');
    assert(s[23] == '-');
    let digits = s.subrange(0, 8) + s.subrange(9, 13) + s.subrange(14, 18) + s.subrange(19, 23)
        + s.subrange(24, 36);
    assert(digits =~= h) by {
        assert forall|k: int| 0 <= k < 32 implies digits[k] == h[k] by {
            assert(s[uuid_digit_pos(k)] == h[k]);
        }
    }
    assert(hex_value(digits) as u128 == id);
}

/// Appends the `w`-digit hexadecimal rendering of `n` to `out`.
pub(crate) fn push_hex(out: &mut Vec<char>, n: u128, w: usize)
    ensures
        final(out)@ == old(out)@ + hex_seq(n as int, w as nat),
    decreases w,
{
    if w == 0 {
        proof {
            assert(old(out)@ + hex_seq(n as int, 0) =~= old(out)@);
        }
    } else {
        push_hex(out, n / 16, w - 1);
        let d = (n % 16) as u8;
        out.push(hex_char_of(d));
        proof {
            assert(hex_char(d as int) == hex_char((n as int) % 16));
            assert(old(out)@ + hex_seq(n as int, w as nat) =~= (old(out)@ + hex_seq(
                (n / 16) as int,
                (w - 1) as nat,
            )).push(hex_char((n as int) % 16)));
        }
    }
}

/// The canonical hyphenated text of a 128-bit identifier.
pub fn uuid_hyphenated(id: u128) -> (r: String)
    ensures
        r@ == uuid_chars(id),
{
    let mut h: Vec<char> = Vec::new();
    push_hex(&mut h, id, 32);
    proof {
        assert(Seq::<char>::empty() + hex_seq(id as int, 32) =~= hex_seq(id as int, 32));
        lemma_hex_seq_props_len(id);
    }
    let mut out = String::new();
    push_range(&mut out, &h, 0, 8);
    out.push('-');
    push_range(&mut out, &h, 8, 12);
    out.push('-');
    push_range(&mut out, &h, 12, 16);
    out.push('-');
    push_range(&mut out, &h, 16, 20);
    out.push('-');
    push_range(&mut out, &h, 20, 32);
    proof {
        assert(out@ =~= uuid_chars(id));
    }
    out
}

/// The width-32 rendering of any 128-bit value has 32 digits.
proof fn lemma_hex_seq_props_len(id: u128)
    ensures
        hex_seq(id as int, 32).len() == 32,
        all_hex(hex_seq(id as int, 32)),
{
    lemma_pow16_32();
    lemma_hex_seq_props(id as int, 32);
}

/// Appends `h[from..to]` to `out`.
fn push_range(out: &mut String, h: &Vec<char>, from: usize, to: usize)
    requires
        from <= to <= h@.len(),
    ensures
        final(out)@ == old(out)@ + h@.subrange(from as int, to as int),
{
    proof {
        assert(old(out)@ + h@.subrange(from as int, from as int) =~= old(out)@);
    }
    for i in from..to
        invariant
            from <= i <= to <= h@.len(),
            out@ == old(out)@ + h@.subrange(from as int, i as int),
    {
        out.push(h[i]);
        proof {
            assert(out@ =~= old(out)@ + h@.subrange(from as int, i + 1));
        }
    }
}

/// Reads the canonical hyphenated text of an identifier; any other shape
/// yields nothing.
pub fn parse_uuid(s: &str) -> (r: Option<u128>)
    ensures
        r == spec_parse_uuid(s@),
{
    let cs = crate::text::str_chars(s);
    if cs.len() != 36 {
        return None;
    }
    if cs[8] != '-' || cs[13] != '-' || cs[18] != '-' || cs[23] != '-' {
        return None;
    }
    let ghost digits = s@.subrange(0, 8) + s@.subrange(9, 13) + s@.subrange(14, 18) + s@.subrange(
        19,
        23,
    ) + s@.subrange(24, 36);
    proof {
        assert forall|k: int| 0 <= k < 32 implies digits[k] == s@[uuid_digit_pos(k)] by {}
        lemma_pow16_32();
    }
    let mut acc: u128 = 0;
    for k in 0..32usize
        invariant
            cs@ == s@,
            cs@.len() == 36,
            s@[8] == '-' && s@[13] == '-' && s@[18] == '-' && s@[23] == '-',
            digits == s@.subrange(0, 8) + s@.subrange(9, 13) + s@.subrange(14, 18) + s@.subrange(
                19,
                23,
            ) + s@.subrange(24, 36),
            digits.len() == 32,
            forall|j: int| 0 <= j < 32 ==> digits[j] == s@[uuid_digit_pos(j)],
            forall|j: int| 0 <= j < k ==> hex_val_spec(#[trigger] digits[j]) >= 0,
            acc as int == hex_value(digits.take(k as int)),
            (acc as int) < pow16(k as nat),
            pow16(32) == 0x100000000000000000000000000000000,
    {
        let pos: usize = if k < 8 {
            k
        } else if k < 12 {
            k + 1
        } else if k < 16 {
            k + 2
        } else if k < 20 {
            k + 3
        } else {
            k + 4
        };
        proof {
            assert(pos as int == uuid_digit_pos(k as int));
            assert(digits[k as int] == s@[pos as int]);
        }
        let d = match hex_val(cs[pos]) {
            Some(d) => d,
            None => {
                proof {
                    assert(hex_val_spec(digits[k as int]) < 0);
                    assert(!all_hex(digits));
                    assert(spec_parse_uuid(s@) is None);
                }
                return None;
            },
        };
        proof {
            lemma_pow16_le(k as nat, 31);
            assert(16 * pow16(k as nat) == pow16((k + 1) as nat));
            lemma_pow16_le((k + 1) as nat, 32);
        }
        acc = acc * 16 + (d as u128);
        proof {
            assert(digits.take(k + 1).drop_last() =~= digits.take(k as int));
            assert(digits.take(k + 1).last() == digits[k as int]);
            assert(acc as int == hex_value(digits.take(k + 1)));
        }
    }
    proof {
        assert(digits.take(32) =~= digits);
        assert(spec_parse_uuid(s@) == Some(hex_value(digits) as u128));
        assert(hex_value(digits) as u128 == acc);
    }
    Some(acc)
}

} // verus!
