use vstd::prelude::*;
use crate::escape::{
    append_jstring, enc_string, lemma_parse_jstr_enc, parse_jstr, spec_parse_jstr,
};
use crate::text::str_chars;
use crate::time::{fmt_rfc3339_millis, parse_rfc3339_millis, rfc3339_of};
use crate::user::{User, UserV, user_wf, users_wf, views_of};
use crate::uuid_text::{
    lemma_parse_uuid_chars, parse_uuid, spec_parse_uuid, uuid_chars, uuid_hyphenated,
};
use crate::valid_ts;
use crate::MAX_TS_MILLIS;
use vstd::string::StringExecFns;

verus! {

/// A record as it stands in the file: each field as text, the
/// identifier and the timestamps not yet read as values.
pub struct RawUser {
    pub id_text: Seq<char>,
    pub name: Seq<char>,
    pub email: Seq<char>,
    pub password: Seq<char>,
    pub address: Seq<char>,
    pub created_text: Seq<char>,
    pub updated_text: Seq<char>,
}

/// The text form of a record's value: the identifier in its canonical
/// hyphenated form, the timestamps as chrono's RFC 3339 text.
pub open spec fn raw_of(u: UserV) -> RawUser {
    RawUser {
        id_text: uuid_chars(u.id),
        name: u.name,
        email: u.email,
        password: u.password,
        address: u.address,
        created_text: rfc3339_of(u.created_at),
        updated_text: rfc3339_of(u.updated_at),
    }
}

pub open spec fn lit_id() -> Seq<char> {
    "{\"id\":"@
}

pub open spec fn lit_name() -> Seq<char> {
    ",\"name\":"@
}

pub open spec fn lit_email() -> Seq<char> {
    ",\"email\":"@
}

pub open spec fn lit_password() -> Seq<char> {
    ",\"password\":"@
}

pub open spec fn lit_address() -> Seq<char> {
    ",\"address\":"@
}

pub open spec fn lit_created() -> Seq<char> {
    ",\"created_at\":"@
}

pub open spec fn lit_updated() -> Seq<char> {
    ",\"updated_at\":"@
}

pub open spec fn lit_close() -> Seq<char> {
    "}"@
}

/// One record as a JSON object: each field a JSON string literal under
/// its fixed key, in a fixed order.
pub open spec fn enc_raw(r: RawUser) -> Seq<char> {
    lit_id() + (enc_string(r.id_text) + (lit_name() + (enc_string(r.name) + (lit_email() + (
    enc_string(r.email) + (lit_password() + (enc_string(r.password) + (lit_address() + (enc_string(
        r.address,
    ) + (lit_created() + (enc_string(r.created_text) + (lit_updated() + (enc_string(r.updated_text)
        + lit_close())))))))))))))
}

/// The records joined with commas.
pub open spec fn enc_items(vs: Seq<RawUser>) -> Seq<char>
    decreases vs.len(),
{
    if vs.len() == 0 {
        Seq::empty()
    } else if vs.len() == 1 {
        enc_raw(vs[0])
    } else {
        enc_raw(vs[0]) + seq![','] + enc_items(vs.skip(1))
    }
}

/// The whole collection as a JSON array of record objects.
pub open spec fn enc_users_raw(vs: Seq<RawUser>) -> Seq<char> {
    seq!['['] + enc_items(vs) + seq![']']
}

/// The backing file's text for a collection of records.
pub open spec fn enc_users(us: Seq<UserV>) -> Seq<char> {
    enc_users_raw(us.map_values(|u: UserV| raw_of(u)))
}

/// What a fixed piece of text yields at position `i`: the position after
/// it when it is there, nothing otherwise.
pub open spec fn spec_expect(s: Seq<char>, i: int, lit: Seq<char>) -> Option<int> {
    if 0 <= i && i + lit.len() <= s.len() && s.subrange(i, i + lit.len()) == lit {
        Some(i + lit.len())
    } else {
        None
    }
}

/// What reading one record object at position `i` yields.
pub open spec fn spec_parse_raw_user(s: Seq<char>, i: int) -> Option<(RawUser, int)> {
    match spec_expect(s, i, lit_id()) {
        None => None,
        Some(p1) => match spec_parse_jstr(s, p1) {
            None => None,
            Some((id_text, p2)) => match spec_expect(s, p2, lit_name()) {
                None => None,
                Some(p3) => match spec_parse_jstr(s, p3) {
                    None => None,
                    Some((name, p4)) => match spec_expect(s, p4, lit_email()) {
                        None => None,
                        Some(p5) => match spec_parse_jstr(s, p5) {
                            None => None,
                            Some((email, p6)) => match spec_expect(s, p6, lit_password()) {
                                None => None,
                                Some(p7) => match spec_parse_jstr(s, p7) {
                                    None => None,
                                    Some((password, p8)) => match spec_expect(
                                        s,
                                        p8,
                                        lit_address(),
                                    ) {
                                        None => None,
                                        Some(p9) => match spec_parse_jstr(s, p9) {
                                            None => None,
                                            Some((address, p10)) => match spec_expect(
                                                s,
                                                p10,
                                                lit_created(),
                                            ) {
                                                None => None,
                                                Some(p11) => match spec_parse_jstr(s, p11) {
                                                    None => None,
                                                    Some((created_text, p12)) => match spec_expect(
                                                        s,
                                                        p12,
                                                        lit_updated(),
                                                    ) {
                                                        None => None,
                                                        Some(p13) => match spec_parse_jstr(
                                                            s,
                                                            p13,
                                                        ) {
                                                            None => None,
                                                            Some((updated_text, p14)) => match spec_expect(
                                                                s,
                                                                p14,
                                                                lit_close(),
                                                            ) {
                                                                None => None,
                                                                Some(p15) => Some(
                                                                    (
                                                                        RawUser {
                                                                            id_text,
                                                                            name,
                                                                            email,
                                                                            password,
                                                                            address,
                                                                            created_text,
                                                                            updated_text,
                                                                        },
                                                                        p15,
                                                                    ),
                                                                ),
                                                            },
                                                        },
                                                    },
                                                },
                                            },
                                        },
                                    },
                                },
                            },
                        },
                    },
                },
            },
        },
    }
}

/// What reading records from position `i` to the closing bracket yields.
pub open spec fn spec_parse_items(s: Seq<char>, i: int) -> Option<Seq<RawUser>>
    decreases s.len() - i,
{
    match spec_parse_raw_user(s, i) {
        None => None,
        Some((r, j)) => {
            if !(i < j <= s.len()) {
                None
            } else if j + 1 == s.len() && s[j] == ']' {
                Some(seq![r])
            } else if j < s.len() && s[j] == ',' {
                match spec_parse_items(s, j + 1) {
                    None => None,
                    Some(rest) => Some(seq![r] + rest),
                }
            } else {
                None
            }
        },
    }
}

/// What reading a whole file's text yields: the records of the array,
/// or nothing when the text is not this format.
pub open spec fn spec_parse_users(s: Seq<char>) -> Option<Seq<RawUser>> {
    if s.len() < 2 || s[0] != '[' {
        None
    } else if s.len() == 2 && s[1] == ']' {
        Some(Seq::empty())
    } else if s.len() == 2 {
        None
    } else {
        spec_parse_items(s, 1)
    }
}

/// A segment that is a concatenation splits into its two parts.
proof fn lemma_subrange_concat(s: Seq<char>, i: int, a: Seq<char>, b: Seq<char>)
    requires
        0 <= i,
        i + a.len() + b.len() <= s.len(),
        s.subrange(i, i + a.len() + b.len()) == a + b,
    ensures
        s.subrange(i, i + a.len()) == a,
        s.subrange(i + a.len(), i + a.len() + b.len()) == b,
{
    let seg = a + b;
    assert(s.subrange(i, i + a.len()) =~= a) by {
        assert forall|k: int| 0 <= k < a.len() implies s[i + k] == a[k] by {
            assert(s.subrange(i, i + a.len() + b.len())[k] == s[i + k]);
        }
    }
    assert(s.subrange(i + a.len(), i + a.len() + b.len()) =~= b) by {
        assert forall|k: int| 0 <= k < b.len() implies s[i + a.len() + k] == b[k] by {
            assert(s.subrange(i, i + a.len() + b.len())[a.len() + k] == s[i + a.len() + k]);
        }
    }
}

/// A fixed piece standing at `i` is read as itself, and what follows is
/// the rest.
proof fn lemma_step_lit(s: Seq<char>, i: int, lit: Seq<char>, rest: Seq<char>)
    requires
        0 <= i,
        i + lit.len() + rest.len() <= s.len(),
        s.subrange(i, i + lit.len() + rest.len()) == lit + rest,
    ensures
        spec_expect(s, i, lit) == Some(i + lit.len()),
        s.subrange(i + lit.len(), i + lit.len() + rest.len()) == rest,
{
    lemma_subrange_concat(s, i, lit, rest);
}

/// A string literal standing at `i` is read back as its content, and
/// what follows is the rest.
proof fn lemma_step_jstr(s: Seq<char>, i: int, content: Seq<char>, rest: Seq<char>)
    requires
        0 <= i,
        i + enc_string(content).len() + rest.len() <= s.len(),
        s.subrange(i, i + enc_string(content).len() + rest.len()) == enc_string(content) + rest,
    ensures
        spec_parse_jstr(s, i) == Some((content, i + enc_string(content).len())),
        s.subrange(
            i + enc_string(content).len(),
            i + enc_string(content).len() + rest.len(),
        ) == rest,
{
    lemma_subrange_concat(s, i, enc_string(content), rest);
    lemma_parse_jstr_enc(s, content, i);
}

/// A record object written by this format reads back as the record it
/// was written from.
#[verifier::rlimit(60)]
proof fn lemma_parse_raw_user_enc(s: Seq<char>, i: int, r: RawUser)
    requires
        0 <= i,
        i + enc_raw(r).len() <= s.len(),
        s.subrange(i, i + enc_raw(r).len()) == enc_raw(r),
    ensures
        spec_parse_raw_user(s, i) == Some((r, i + enc_raw(r).len())),
{
    let r14 = lit_close();
    let r13 = enc_string(r.updated_text) + r14;
    let r12 = lit_updated() + r13;
    let r11 = enc_string(r.created_text) + r12;
    let r10 = lit_created() + r11;
    let r9 = enc_string(r.address) + r10;
    let r8 = lit_address() + r9;
    let r7 = enc_string(r.password) + r8;
    let r6 = lit_password() + r7;
    let r5 = enc_string(r.email) + r6;
    let r4 = lit_email() + r5;
    let r3 = enc_string(r.name) + r4;
    let r2 = lit_name() + r3;
    let r1 = enc_string(r.id_text) + r2;
    assert(enc_raw(r) == lit_id() + r1);
    let p0 = i;
    lemma_step_lit(s, p0, lit_id(), r1);
    let p1 = p0 + lit_id().len();
    lemma_step_jstr(s, p1, r.id_text, r2);
    let p2 = p1 + enc_string(r.id_text).len();
    lemma_step_lit(s, p2, lit_name(), r3);
    let p3 = p2 + lit_name().len();
    lemma_step_jstr(s, p3, r.name, r4);
    let p4 = p3 + enc_string(r.name).len();
    lemma_step_lit(s, p4, lit_email(), r5);
    let p5 = p4 + lit_email().len();
    lemma_step_jstr(s, p5, r.email, r6);
    let p6 = p5 + enc_string(r.email).len();
    lemma_step_lit(s, p6, lit_password(), r7);
    let p7 = p6 + lit_password().len();
    lemma_step_jstr(s, p7, r.password, r8);
    let p8 = p7 + enc_string(r.password).len();
    lemma_step_lit(s, p8, lit_address(), r9);
    let p9 = p8 + lit_address().len();
    lemma_step_jstr(s, p9, r.address, r10);
    let p10 = p9 + enc_string(r.address).len();
    lemma_step_lit(s, p10, lit_created(), r11);
    let p11 = p10 + lit_created().len();
    lemma_step_jstr(s, p11, r.created_text, r12);
    let p12 = p11 + enc_string(r.created_text).len();
    lemma_step_lit(s, p12, lit_updated(), r13);
    let p13 = p12 + lit_updated().len();
    lemma_step_jstr(s, p13, r.updated_text, r14);
    let p14 = p13 + enc_string(r.updated_text).len();
    assert(r14 =~= lit_close() + Seq::<char>::empty());
    lemma_step_lit(s, p14, lit_close(), Seq::empty());
    let p15 = p14 + lit_close().len();
    assert(p15 == i + enc_raw(r).len());
}

/// Appending one more record extends the joined text by a comma and
/// that record.
proof fn lemma_enc_items_snoc(vs: Seq<RawUser>, r: RawUser)
    ensures
        vs.len() == 0 ==> enc_items(vs.push(r)) == enc_raw(r),
        vs.len() > 0 ==> enc_items(vs.push(r)) == enc_items(vs) + seq![','] + enc_raw(r),
    decreases vs.len(),
{
    let w = vs.push(r);
    if vs.len() == 0 {
        assert(w.len() == 1);
        assert(w[0] == r);
    } else {
        assert(w[0] == vs[0]);
        assert(w.skip(1) =~= vs.skip(1).push(r));
        lemma_enc_items_snoc(vs.skip(1), r);
        if vs.len() == 1 {
            assert(vs.skip(1).len() == 0);
            assert(enc_items(w) == enc_raw(vs[0]) + seq![','] + enc_raw(r));
            assert(enc_items(vs) == enc_raw(vs[0]));
        } else {
            assert(enc_items(w) == enc_raw(vs[0]) + seq![','] + (enc_items(vs.skip(1)) + seq![',']
                + enc_raw(r)));
            assert(enc_items(vs) == enc_raw(vs[0]) + seq![','] + enc_items(vs.skip(1)));
            assert(enc_raw(vs[0]) + seq![','] + (enc_items(vs.skip(1)) + seq![','] + enc_raw(r))
                =~= enc_items(vs) + seq![','] + enc_raw(r));
        }
    }
}

/// A record object's text is never empty.
proof fn lemma_enc_raw_len(r: RawUser)
    ensures
        enc_raw(r).len() > 0,
{
    assert(enc_string(r.id_text).len() >= 2);
}

/// Records joined and closed with a bracket read back as those records.
proof fn lemma_parse_items_enc(s: Seq<char>, i: int, vs: Seq<RawUser>)
    requires
        vs.len() >= 1,
        0 <= i,
        s.len() == i + enc_items(vs).len() + 1,
        s.subrange(i, s.len() as int) == enc_items(vs) + seq![']'],
    ensures
        spec_parse_items(s, i) == Some(vs),
    decreases vs.len(),
{
    lemma_enc_raw_len(vs[0]);
    if vs.len() == 1 {
        assert(enc_items(vs) == enc_raw(vs[0]));
        lemma_subrange_concat(s, i, enc_raw(vs[0]), seq![']']);
        lemma_parse_raw_user_enc(s, i, vs[0]);
        let j = i + enc_raw(vs[0]).len();
        assert(s.subrange(j, j + 1) == seq![']']);
        assert(s[j] == s.subrange(j, j + 1)[0]);
        assert(s[j] == ']');
        assert(j + 1 == s.len());
        assert(seq![vs[0]] =~= vs);
    } else {
        let rest = vs.skip(1);
        assert(enc_items(vs) == enc_raw(vs[0]) + seq![','] + enc_items(rest));
        assert(s.subrange(i, s.len() as int) =~= enc_raw(vs[0]) + (seq![','] + (enc_items(rest)
            + seq![']'])));
        lemma_subrange_concat(
            s,
            i,
            enc_raw(vs[0]),
            seq![','] + (enc_items(rest) + seq![']']),
        );
        lemma_parse_raw_user_enc(s, i, vs[0]);
        let j = i + enc_raw(vs[0]).len();
        lemma_subrange_concat(s, j, seq![','], enc_items(rest) + seq![']']);
        assert(s.subrange(j, j + 1) == seq![',']);
        assert(s[j] == s.subrange(j, j + 1)[0]);
        assert(s[j] == ',');
        lemma_enc_raw_len(rest[0]);
        assert(enc_items(rest).len() > 0) by {
            if rest.len() == 1 {
            } else {
            }
        }
        assert(j + 1 < s.len());
        lemma_parse_items_enc(s, j + 1, rest);
        assert(seq![vs[0]] + rest =~= vs);
    }
}

/// The round trip at the heart of persistence: the text that this format
/// writes for a collection of records reads back as exactly those
/// records, field for field and in order.
pub proof fn lemma_parse_users_enc(vs: Seq<RawUser>)
    ensures
        spec_parse_users(enc_users_raw(vs)) == Some(vs),
{
    let s = enc_users_raw(vs);
    assert(s[0] == '[');
    if vs.len() == 0 {
        assert(enc_items(vs) == Seq::<char>::empty());
        assert(s =~= seq!['[', ']']);
        assert(s[1] == ']');
    } else {
        lemma_enc_raw_len(vs[0]);
        assert(enc_items(vs).len() > 0) by {
            if vs.len() == 1 {
            } else {
            }
        }
        assert(s.len() > 2);
        assert(s.subrange(1, s.len() as int) =~= enc_items(vs) + seq![']']);
        lemma_parse_items_enc(s, 1, vs);
    }
}

/// The persisted text of a collection of well-formed records reads back
/// as exactly those records: nothing is lost between a save and a load.
pub proof fn lemma_encode_decode(us: Seq<UserV>)
    ensures
        spec_parse_users(enc_users(us)) == Some(us.map_values(|u: UserV| raw_of(u))),
{
    lemma_parse_users_enc(us.map_values(|u: UserV| raw_of(u)));
}

/// A record as read from the file, each field still text.
pub struct RawUserX {
    pub id_text: String,
    pub name: String,
    pub email: String,
    pub password: String,
    pub address: String,
    pub created_text: String,
    pub updated_text: String,
}

impl View for RawUserX {
    type V = RawUser;

    open spec fn view(&self) -> RawUser {
        RawUser {
            id_text: self.id_text@,
            name: self.name@,
            email: self.email@,
            password: self.password@,
            address: self.address@,
            created_text: self.created_text@,
            updated_text: self.updated_text@,
        }
    }
}

/// Checks that the fixed piece `lit` stands at position `i`.
fn expect_lit(cs: &Vec<char>, i: usize, lit: &str) -> (r: Option<usize>)
    requires
        i <= cs@.len(),
    ensures
        (match r {
            Some(j) => spec_expect(cs@, i as int, lit@) == Some(j as int) && i <= j <= cs@.len(),
            None => spec_expect(cs@, i as int, lit@) is None,
        }),
{
    let n = lit.unicode_len();
    let clen = cs.len();
    if clen - i < n {
        return None;
    }
    for k in 0..n
        invariant
            n == lit@.len(),
            clen == cs@.len(),
            i + n <= clen,
            forall|m: int| 0 <= m < k ==> cs@[i + m] == lit@[m],
    {
        if cs[i + k] != lit.get_char(k) {
            proof {
                if cs@.subrange(i as int, i + n) == lit@ {
                    assert(cs@.subrange(i as int, i + n)[k as int] == cs@[i + k]);
                }
            }
            return None;
        }
    }
    proof {
        assert(cs@.subrange(i as int, i + n) =~= lit@);
    }
    Some(i + n)
}

/// Reads one record object at position `i`, fields still as text.
fn parse_raw_user(cs: &Vec<char>, i: usize) -> (r: Option<(RawUserX, usize)>)
    requires
        i <= cs@.len(),
    ensures
        (match r {
            Some((x, j)) => spec_parse_raw_user(cs@, i as int) == Some((x@, j as int)) && i < j
                <= cs@.len(),
            None => spec_parse_raw_user(cs@, i as int) is None,
        }),
{
    let p1 = match expect_lit(cs, i, "{\"id\":") {
        Some(p) => p,
        None => { return None; },
    };
    let (id_text, p2) = match parse_jstr(cs, p1) {
        Some(x) => x,
        None => { return None; },
    };
    let p3 = match expect_lit(cs, p2, ",\"name\":") {
        Some(p) => p,
        None => { return None; },
    };
    let (name, p4) = match parse_jstr(cs, p3) {
        Some(x) => x,
        None => { return None; },
    };
    let p5 = match expect_lit(cs, p4, ",\"email\":") {
        Some(p) => p,
        None => { return None; },
    };
    let (email, p6) = match parse_jstr(cs, p5) {
        Some(x) => x,
        None => { return None; },
    };
    let p7 = match expect_lit(cs, p6, ",\"password\":") {
        Some(p) => p,
        None => { return None; },
    };
    let (password, p8) = match parse_jstr(cs, p7) {
        Some(x) => x,
        None => { return None; },
    };
    let p9 = match expect_lit(cs, p8, ",\"address\":") {
        Some(p) => p,
        None => { return None; },
    };
    let (address, p10) = match parse_jstr(cs, p9) {
        Some(x) => x,
        None => { return None; },
    };
    let p11 = match expect_lit(cs, p10, ",\"created_at\":") {
        Some(p) => p,
        None => { return None; },
    };
    let (created_text, p12) = match parse_jstr(cs, p11) {
        Some(x) => x,
        None => { return None; },
    };
    let p13 = match expect_lit(cs, p12, ",\"updated_at\":") {
        Some(p) => p,
        None => { return None; },
    };
    let (updated_text, p14) = match parse_jstr(cs, p13) {
        Some(x) => x,
        None => { return None; },
    };
    let p15 = match expect_lit(cs, p14, "}") {
        Some(p) => p,
        None => { return None; },
    };
    Some((RawUserX { id_text, name, email, password, address, created_text, updated_text }, p15))
}

/// Reads records from position `i` up to the closing bracket.
fn parse_items(cs: &Vec<char>, i: usize) -> (r: Option<Vec<RawUserX>>)
    requires
        i <= cs@.len(),
    ensures
        (match r {
            Some(v) => spec_parse_items(cs@, i as int) == Some(
                v@.map_values(|x: RawUserX| x@),
            ),
            None => spec_parse_items(cs@, i as int) is None,
        }),
    decreases cs@.len() - i,
{
    let (x, j) = match parse_raw_user(cs, i) {
        Some(p) => p,
        None => { return None; },
    };
    if j < cs.len() && j == cs.len() - 1 && cs[j] == ']' {
        let mut v: Vec<RawUserX> = Vec::new();
        v.push(x);
        proof {
            assert(v@.map_values(|y: RawUserX| y@) =~= seq![x@]);
        }
        Some(v)
    } else if j < cs.len() && cs[j] == ',' {
        match parse_items(cs, j + 1) {
            Some(mut rest) => {
                let ghost ov = rest@.map_values(|y: RawUserX| y@);
                rest.insert(0, x);
                proof {
                    assert(rest@.map_values(|y: RawUserX| y@) =~= seq![x@] + ov);
                }
                Some(rest)
            },
            None => None,
        }
    } else {
        None
    }
}

/// Reads a whole file's text as its records, fields still as text.
fn parse_users_text(cs: &Vec<char>) -> (r: Option<Vec<RawUserX>>)
    ensures
        (match r {
            Some(v) => spec_parse_users(cs@) == Some(v@.map_values(|x: RawUserX| x@)),
            None => spec_parse_users(cs@) is None,
        }),
{
    if cs.len() < 2 || cs[0] != '[' {
        return None;
    }
    if cs.len() == 2 {
        if cs[1] == ']' {
            let v: Vec<RawUserX> = Vec::new();
            proof {
                assert(v@.map_values(|x: RawUserX| x@) =~= Seq::<RawUser>::empty());
            }
            return Some(v);
        } else {
            return None;
        }
    }
    parse_items(cs, 1)
}

/// Turns the text fields of parsed records into record values, checking
/// that each identifier has the canonical shape and each timestamp is
/// storable and not earlier than its record's creation.
fn raws_to_users(raws: &Vec<RawUserX>) -> (r: Option<Vec<User>>)
    ensures
        (r matches Some(v) ==> users_wf(views_of(v@))),
        forall|vs: Seq<UserV>|
            users_wf(vs) && raws@.map_values(|x: RawUserX| x@) == vs.map_values(
                |u: UserV| raw_of(u),
            ) ==> (r matches Some(v) && views_of(v@) == vs),
{
    let mut out: Vec<User> = Vec::new();
    let n = raws.len();
    for k in 0..n
        invariant
            n == raws@.len(),
            out@.len() == k,
            forall|j: int| 0 <= j < k ==> user_wf(#[trigger] out@[j]@),
            forall|j: int|
                0 <= j < k ==> spec_parse_uuid(raws@[j]@.id_text) == Some(#[trigger] out@[j]@.id),
            forall|j: int|
                0 <= j < k ==> {
                    &&& #[trigger] out@[j]@.name == raws@[j]@.name
                    &&& out@[j]@.email == raws@[j]@.email
                    &&& out@[j]@.password == raws@[j]@.password
                    &&& out@[j]@.address == raws@[j]@.address
                },
            forall|j: int, t: i64|
                #![trigger out@[j], rfc3339_of(t as int)]
                0 <= j < k && valid_ts(t as int) && raws@[j]@.created_text == rfc3339_of(t as int)
                    ==> out@[j]@.created_at == t as int,
            forall|j: int, t: i64|
                #![trigger out@[j], rfc3339_of(t as int)]
                0 <= j < k && valid_ts(t as int) && raws@[j]@.updated_text == rfc3339_of(t as int)
                    ==> out@[j]@.updated_at == t as int,
    {
        let x = &raws[k];
        let idv_opt = parse_uuid(x.id_text.as_str());
        let tc_opt = parse_rfc3339_millis(x.created_text.as_str());
        let tu_opt = parse_rfc3339_millis(x.updated_text.as_str());
        let ok = match (idv_opt, tc_opt, tu_opt) {
            (Some(_), Some(tc), Some(tu)) => 0 <= tc && tc <= MAX_TS_MILLIS && 0 <= tu && tu
                <= MAX_TS_MILLIS && tc <= tu,
            _ => false,
        };
        if !ok {
            proof {
                assert forall|vs: Seq<UserV>|
                    users_wf(vs) && raws@.map_values(|x2: RawUserX| x2@) == vs.map_values(
                        |u: UserV| raw_of(u),
                    ) implies false by {
                    assert(raws@.map_values(|x2: RawUserX| x2@).len() == raws@.len());
                    assert(vs.map_values(|u: UserV| raw_of(u)).len() == vs.len());
                    assert(vs.len() == raws@.len());
                    assert(raws@.map_values(|x2: RawUserX| x2@)[k as int] == raws@[k as int]@);
                    assert(vs.map_values(|u: UserV| raw_of(u))[k as int] == raw_of(vs[k as int]));
                    assert(user_wf(vs[k as int]));
                    lemma_parse_uuid_chars(vs[k as int].id);
                    assert(raws@[k as int]@.id_text == uuid_chars(vs[k as int].id));
                    assert(idv_opt is Some);
                    let t1: i64 = vs[k as int].created_at as i64;
                    let t2: i64 = vs[k as int].updated_at as i64;
                    assert(raws@[k as int]@.created_text == rfc3339_of(t1 as int));
                    assert(raws@[k as int]@.updated_text == rfc3339_of(t2 as int));
                    assert(tc_opt == Some(t1));
                    assert(tu_opt == Some(t2));
                }
            }
            return None;
        }
        let idv = match idv_opt {
            Some(v) => v,
            None => { return None; },
        };
        let tc = match tc_opt {
            Some(t) => t,
            None => { return None; },
        };
        let tu = match tu_opt {
            Some(t) => t,
            None => { return None; },
        };
        out.push(
            User {
                id: idv,
                name: x.name.clone(),
                email: x.email.clone(),
                password: x.password.clone(),
                address: x.address.clone(),
                created_at: tc,
                updated_at: tu,
            },
        );
    }
    proof {
        assert forall|vs: Seq<UserV>|
            users_wf(vs) && raws@.map_values(|x2: RawUserX| x2@) == vs.map_values(
                |u: UserV| raw_of(u),
            ) implies views_of(out@) == vs by {
            assert(raws@.map_values(|x2: RawUserX| x2@).len() == raws@.len());
            assert(vs.map_values(|u: UserV| raw_of(u)).len() == vs.len());
            assert(vs.len() == raws@.len());
            assert(views_of(out@) =~= vs) by {
                assert forall|j: int| 0 <= j < vs.len() implies views_of(out@)[j] == vs[j] by {
                    assert(raws@.map_values(|x2: RawUserX| x2@)[j] == raws@[j]@);
                    assert(vs.map_values(|u: UserV| raw_of(u))[j] == raw_of(vs[j]));
                    lemma_parse_uuid_chars(vs[j].id);
                    assert(user_wf(vs[j]));
                    let t1: i64 = vs[j].created_at as i64;
                    let t2: i64 = vs[j].updated_at as i64;
                    assert(raws@[j]@.created_text == rfc3339_of(t1 as int));
                    assert(raws@[j]@.updated_text == rfc3339_of(t2 as int));
                    assert(out@[j]@.created_at == t1 as int);
                    assert(out@[j]@.updated_at == t2 as int);
                    assert(spec_parse_uuid(raws@[j]@.id_text) == Some(out@[j]@.id));
                    assert(out@[j]@.id == vs[j].id);
                    assert(out@[j]@.name == vs[j].name);
                    assert(out@[j]@.email == vs[j].email);
                    assert(out@[j]@.password == vs[j].password);
                    assert(out@[j]@.address == vs[j].address);
                    assert(out@[j]@ == vs[j]);
                    assert(views_of(out@)[j] == out@[j]@);
                }
            }
        }
        assert(users_wf(views_of(out@))) by {
            assert forall|j: int| 0 <= j < out@.len() implies user_wf(
                #[trigger] views_of(out@)[j],
            ) by {
                assert(views_of(out@)[j] == out@[j]@);
            }
        }
    }
    Some(out)
}

/// Reads a whole file's text as a collection of records. Text that this
/// format wrote for well-formed records always reads back as exactly
/// those records; any other text may yield nothing.
pub fn decode_users(s: &str) -> (r: Option<Vec<User>>)
    ensures
        (r matches Some(v) ==> users_wf(views_of(v@))),
        forall|vs: Seq<UserV>|
            users_wf(vs) && s@ == #[trigger] enc_users(vs) ==> (r matches Some(v) && views_of(v@)
                == vs),
        s@.len() < 2 ==> r is None,
{
    let cs = str_chars(s);
    let raws = match parse_users_text(&cs) {
        Some(rw) => rw,
        None => {
            proof {
                assert forall|vs: Seq<UserV>|
                    users_wf(vs) && s@ == enc_users(vs) implies false by {
                    lemma_encode_decode(vs);
                }
            }
            return None;
        },
    };
    let r = raws_to_users(&raws);
    proof {
        assert forall|vs: Seq<UserV>|
            users_wf(vs) && s@ == enc_users(vs) implies (r matches Some(v) && views_of(v@)
            == vs) by {
            lemma_encode_decode(vs);
            assert(raws@.map_values(|x: RawUserX| x@) == vs.map_values(|u: UserV| raw_of(u)));
        }
    }
    r
}

/// Appends one record as a JSON object to the file text.
#[verifier::rlimit(100)]
fn append_raw_user(out: &mut String, u: &User)
    requires
        u.wf(),
    ensures
        final(out)@ == old(out)@ + enc_raw(raw_of(u@)),
{
    out.append("{\"id\":");
    let idt = uuid_hyphenated(u.id);
    append_jstring(out, idt.as_str());
    out.append(",\"name\":");
    append_jstring(out, u.name.as_str());
    out.append(",\"email\":");
    append_jstring(out, u.email.as_str());
    out.append(",\"password\":");
    append_jstring(out, u.password.as_str());
    out.append(",\"address\":");
    append_jstring(out, u.address.as_str());
    out.append(",\"created_at\":");
    let ct = fmt_rfc3339_millis(u.created_at);
    append_jstring(out, ct.as_str());
    out.append(",\"updated_at\":");
    let ut = fmt_rfc3339_millis(u.updated_at);
    append_jstring(out, ut.as_str());
    out.append("}");
    proof {
        assert(out@ =~= old(out)@ + enc_raw(raw_of(u@)));
    }
}

/// Writes the whole collection as this format's JSON array text.
pub fn encode_users(users: &Vec<User>) -> (r: String)
    requires
        users_wf(views_of(users@)),
    ensures
        r@ == enc_users(views_of(users@)),
{
    let ghost us = views_of(users@);
    let ghost rs = us.map_values(|u: UserV| raw_of(u));
    let mut out = String::new();
    out.push('[');
    proof {
        assert(out@ =~= seq!['['] + enc_items(rs.take(0)));
    }
    let n = users.len();
    for k in 0..n
        invariant
            n == users@.len(),
            us == views_of(users@),
            rs == us.map_values(|u: UserV| raw_of(u)),
            users_wf(us),
            out@ == seq!['['] + enc_items(rs.take(k as int)),
    {
        proof {
            assert(us[k as int] == users@[k as int]@);
            assert(user_wf(users@[k as int]@));
            assert(rs[k as int] == raw_of(us[k as int]));
        }
        if k > 0 {
            out.push(',');
        }
        append_raw_user(&mut out, &users[k]);
        proof {
            lemma_enc_items_snoc(rs.take(k as int), rs[k as int]);
            assert(rs.take(k as int).push(rs[k as int]) =~= rs.take(k + 1));
            assert(out@ =~= seq!['['] + enc_items(rs.take(k + 1)));
        }
    }
    out.push(']');
    proof {
        assert(rs.take(n as int) =~= rs);
        assert(out@ =~= enc_users(us));
    }
    out
}

} // verus!
