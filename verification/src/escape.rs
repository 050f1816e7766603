use vstd::prelude::*;
use crate::text::{hex_char, hex_char_of, hex_val, hex_val_spec, lemma_hex_char_val};
use vstd::string::StringExecFns;

verus! {

/// How one character appears inside a JSON string literal: quote and
/// backslash get a two-character escape, control characters the
/// four-digit form, everything else stands as itself.
pub open spec fn esc_char(c: char) -> Seq<char> {
    if c == '"' {
        seq!['\\', '"']
    } else if c == '\\' {
        seq!['\\', '\\']
    } else if 0 <= (c as int) && (c as int) < 0x20 {
        seq!['\\', 'u', '0', '0', hex_char(c as int / 16), hex_char(c as int % 16)]
    } else {
        seq![c]
    }
}

/// A string's characters with each one escaped as JSON asks.
pub open spec fn esc(s: Seq<char>) -> Seq<char>
    decreases s.len(),
{
    if s.len() == 0 {
        Seq::empty()
    } else {
        esc(s.drop_last()) + esc_char(s.last())
    }
}

/// A JSON string literal: the escaped characters between two quotes.
pub open spec fn enc_string(s: Seq<char>) -> Seq<char> {
    seq!['"'] + esc(s) + seq!['"']
}

/// Escaping also decomposes at the front.
pub proof fn lemma_esc_front(s: Seq<char>)
    requires
        s.len() > 0,
    ensures
        esc(s) == esc_char(s[0]) + esc(s.skip(1)),
    decreases s.len(),
{
    if s.len() == 1 {
        assert(s.drop_last() =~= Seq::<char>::empty());
        assert(s.skip(1) =~= Seq::<char>::empty());
        assert(esc(s) =~= esc_char(s[0]) + esc(s.skip(1)));
    } else {
        lemma_esc_front(s.drop_last());
        assert(s.drop_last().skip(1) =~= s.skip(1).drop_last());
        assert(s.skip(1).last() == s.last());
        assert(esc(s.skip(1)) == esc(s.skip(1).drop_last()) + esc_char(s.skip(1).last()));
        assert(esc(s) =~= esc_char(s[0]) + esc(s.skip(1)));
    }
}

/// What reading a JSON string body from position `i` yields: the decoded
/// characters appended to `acc`, and the position after the closing
/// quote. An input that ends before the quote, or holds an escape this
/// format does not write, yields nothing.
pub open spec fn spec_unesc(s: Seq<char>, i: int, acc: Seq<char>) -> Option<(Seq<char>, int)>
    decreases s.len() - i,
{
    if i < 0 || i >= s.len() {
        None
    } else if s[i] == '"' {
        Some((acc, i + 1))
    } else if s[i] == '\\' {
        if i + 1 >= s.len() {
            None
        } else if s[i + 1] == '"' {
            spec_unesc(s, i + 2, acc.push('"'))
        } else if s[i + 1] == '\\' {
            spec_unesc(s, i + 2, acc.push('\\'))
        } else if s[i + 1] == 'u' {
            if i + 6 <= s.len() && s[i + 2] == '0' && s[i + 3] == '0' && hex_val_spec(s[i + 4]) >= 0
                && hex_val_spec(s[i + 5]) >= 0 && 16 * hex_val_spec(s[i + 4]) + hex_val_spec(
                s[i + 5],
            ) < 0x20 {
                spec_unesc(
                    s,
                    i + 6,
                    acc.push((16 * hex_val_spec(s[i + 4]) + hex_val_spec(s[i + 5])) as char),
                )
            } else {
                None
            }
        } else {
            None
        }
    } else {
        spec_unesc(s, i + 1, acc.push(s[i]))
    }
}

/// What reading a JSON string literal from position `i` yields.
pub open spec fn spec_parse_jstr(s: Seq<char>, i: int) -> Option<(Seq<char>, int)> {
    if 0 <= i < s.len() && s[i] == '"' {
        spec_unesc(s, i + 1, Seq::empty())
    } else {
        None
    }
}

/// Reading back what escaping wrote recovers the original characters:
/// wherever `s` holds the escape of `content` followed by a closing
/// quote, the reader returns `content` and stops after that quote.
pub proof fn lemma_unesc_esc(s: Seq<char>, content: Seq<char>, i: int, acc: Seq<char>)
    requires
        0 <= i,
        i + esc(content).len() + 1 <= s.len(),
        s.subrange(i, i + esc(content).len() + 1) == esc(content) + seq!['"'],
    ensures
        spec_unesc(s, i, acc) == Some((acc + content, i + esc(content).len() + 1)),
    decreases content.len(),
{
    let seg = esc(content) + seq!['"'];
    if content.len() == 0 {
        assert(esc(content) =~= Seq::<char>::empty());
        assert(s[i] == seg[0]);
        assert(s[i] == '"');
        assert(acc + content =~= acc);
    } else {
        let c = content[0];
        lemma_esc_front(content);
        let e = esc_char(c);
        let tail = content.skip(1);
        assert(esc(content) == e + esc(tail));
        let j = i + e.len();
        assert forall|k: int| 0 <= k < e.len() implies s[i + k] == e[k] by {
            assert(seg[k] == s[i + k]);
            assert(seg[k] == (e + esc(tail))[k]);
        }
        assert(s.subrange(j, j + esc(tail).len() + 1) =~= esc(tail) + seq!['"']) by {
            assert forall|k: int| 0 <= k < esc(tail).len() + 1 implies s[j + k] == (esc(tail)
                + seq!['"'])[k] by {
                assert(s[j + k] == seg[e.len() + k]);
            }
        }
        if c == '"' {
            assert(s[i] == '\\');
            assert(s[i + 1] == '"');
            lemma_unesc_esc(s, tail, j, acc.push('"'));
            assert(acc.push('"') + tail =~= acc + content);
        } else if c == '\\' {
            assert(s[i] == '\\');
            assert(s[i + 1] == '\\');
            lemma_unesc_esc(s, tail, j, acc.push('\\'));
            assert(acc.push('\\') + tail =~= acc + content);
        } else if 0 <= (c as int) && (c as int) < 0x20 {
            assert(s[i + 0] == e[0]);
            assert(s[i] == '\\');
            assert(s[i + 1] == 'u');
            assert(s[i + 2] == '0');
            assert(s[i + 3] == '0');
            assert(s[i + 4] == hex_char(c as int / 16));
            assert(s[i + 5] == hex_char(c as int % 16));
            lemma_hex_char_val(c as int / 16);
            lemma_hex_char_val(c as int % 16);
            assert(16 * (c as int / 16) + c as int % 16 == c as int);
            assert((c as int) as char == c);
            lemma_unesc_esc(s, tail, j, acc.push(c));
            assert(acc.push(c) + tail =~= acc + content);
        } else {
            assert(e[0] == c);
            assert(s[i + 0] == e[0]);
            assert(s[i] == c);
            lemma_unesc_esc(s, tail, j, acc.push(c));
            assert(acc.push(c) + tail =~= acc + content);
        }
    }
}

/// A JSON string literal written by this format reads back as the
/// characters it encodes.
pub proof fn lemma_parse_jstr_enc(s: Seq<char>, content: Seq<char>, i: int)
    requires
        0 <= i,
        i + enc_string(content).len() <= s.len(),
        s.subrange(i, i + enc_string(content).len()) == enc_string(content),
    ensures
        spec_parse_jstr(s, i) == Some((content, i + enc_string(content).len())),
{
    let seg = enc_string(content);
    assert(s[i] == seg[0]);
    assert(s[i] == '"');
    assert(s.subrange(i + 1, i + 1 + esc(content).len() + 1) =~= esc(content) + seq!['"']) by {
        assert forall|k: int| 0 <= k < esc(content).len() + 1 implies s[i + 1 + k] == (esc(content)
            + seq!['"'])[k] by {
            assert(s[i + 1 + k] == seg[1 + k]);
        }
    }
    lemma_unesc_esc(s, content, i + 1, Seq::empty());
    assert(Seq::<char>::empty() + content =~= content);
}

/// Appends the escaped form of `s` to `out`.
pub(crate) fn append_escaped(out: &mut String, s: &str)
    ensures
        final(out)@ == old(out)@ + esc(s@),
{
    let n = s.unicode_len();
    proof {
        assert(esc(s@.take(0)) =~= Seq::<char>::empty());
        assert(old(out)@ + esc(s@.take(0)) =~= old(out)@);
    }
    for i in 0..n
        invariant
            n == s@.len(),
            out@ == old(out)@ + esc(s@.take(i as int)),
    {
        let c = s.get_char(i);
        let v = c as u32;
        if c == '"' {
            out.push('\\');
            out.push('"');
        } else if c == '\\' {
            out.push('\\');
            out.push('\\');
        } else if v < 0x20 {
            out.push('\\');
            out.push('u');
            out.push('0');
            out.push('0');
            out.push(hex_char_of((v / 16) as u8));
            out.push(hex_char_of((v % 16) as u8));
        } else {
            out.push(c);
        }
        proof {
            assert(s@.take(i + 1).drop_last() =~= s@.take(i as int));
            assert(s@.take(i + 1).last() == s@[i as int]);
            assert(esc(s@.take(i + 1)) == esc(s@.take(i as int)) + esc_char(s@[i as int]));
            assert(out@ =~= old(out)@ + esc(s@.take(i + 1)));
        }
    }
    proof {
        assert(s@.take(n as int) =~= s@);
    }
}

/// Appends the JSON string literal for `s` to `out`.
pub(crate) fn append_jstring(out: &mut String, s: &str)
    ensures
        final(out)@ == old(out)@ + enc_string(s@),
{
    out.push('"');
    append_escaped(out, s);
    out.push('"');
    proof {
        assert(out@ =~= old(out)@ + enc_string(s@));
    }
}

/// Reads a JSON string literal that starts at `i`; returns the decoded
/// text and the position after the closing quote.
pub(crate) fn parse_jstr(s: &Vec<char>, i: usize) -> (r: Option<(String, usize)>)
    requires
        i <= s@.len(),
    ensures
        (match r {
            Some((out, j)) => {
                &&& spec_parse_jstr(s@, i as int) == Some((out@, j as int))
                &&& i < j <= s@.len()
            },
            None => spec_parse_jstr(s@, i as int) is None,
        }),
{
    if i >= s.len() || s[i] != '"' {
        return None;
    }
    let mut acc = String::new();
    let mut p: usize = i + 1;
    loop
        invariant
            i + 1 <= p <= s@.len(),
            spec_parse_jstr(s@, i as int) == spec_unesc(s@, p as int, acc@),
        decreases s@.len() - p,
    {
        if p >= s.len() {
            return None;
        }
        let c = s[p];
        if c == '"' {
            return Some((acc, p + 1));
        } else if c == '\\' {
            if p + 1 >= s.len() {
                return None;
            }
            let e = s[p + 1];
            if e == '"' {
                acc.push('"');
                p = p + 2;
            } else if e == '\\' {
                acc.push('\\');
                p = p + 2;
            } else if e == 'u' {
                if s.len() - p < 6 || s[p + 2] != '0' || s[p + 3] != '0' {
                    return None;
                }
                let d1 = match hex_val(s[p + 4]) {
                    Some(d) => d,
                    None => { return None; },
                };
                let d2 = match hex_val(s[p + 5]) {
                    Some(d) => d,
                    None => { return None; },
                };
                let v: u32 = 16 * (d1 as u32) + (d2 as u32);
                if v >= 0x20 {
                    return None;
                }
                match char::from_u32(v) {
                    Some(c2) => {
                        acc.push(c2);
                        p = p + 6;
                    },
                    None => {
                        proof {
                            assert(false);
                        }
                        return None;
                    },
                }
            } else {
                return None;
            }
        } else {
            acc.push(c);
            p = p + 1;
        }
    }
}

} // verus!
