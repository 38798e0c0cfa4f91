//! Parsing of the on-disk document back into records.
//!
//! The `spec_parse_*` functions are the grammar of the document, written as
//! total functions from a character sequence to the parsed value and the
//! unconsumed suffix (`None` on malformed input). The executable parser is
//! proved to return exactly what the grammar says. The grammar tolerates
//! one legacy shape: a record object may end before the `hide_read_count`
//! field, in which case that field is read as `false` and the record is
//! flagged as migrated (the additive schema migration).

use vstd::prelude::*;

use crate::pasta::{Pasta, PastaFile, PastaView};

verus! {

/// The numeric value of a decimal digit character, `-1` for any other
/// character.
pub open spec fn digit_val(c: char) -> int {
    if c == '0' {
        0
    } else if c == '1' {
        1
    } else if c == '2' {
        2
    } else if c == '3' {
        3
    } else if c == '4' {
        4
    } else if c == '5' {
        5
    } else if c == '6' {
        6
    } else if c == '7' {
        7
    } else if c == '8' {
        8
    } else if c == '9' {
        9
    } else {
        -1
    }
}

pub open spec fn is_digit(c: char) -> bool {
    digit_val(c) >= 0
}

/// Consumes `lit` from the front of `s`, or fails.
pub open spec fn spec_expect(s: Seq<char>, lit: Seq<char>) -> Option<Seq<char>> {
    if lit.len() <= s.len() && s.take(lit.len() as int) == lit {
        Some(s.skip(lit.len() as int))
    } else {
        None
    }
}

/// Consumes further digits after at least one has been read, accumulating
/// their value; fails on overflow past `u64::MAX`.
pub open spec fn spec_parse_u64_loop(s: Seq<char>, acc: u64) -> Option<(u64, Seq<char>)>
    decreases s.len(),
{
    if s.len() > 0 && is_digit(s[0]) {
        let d = digit_val(s[0]);
        if acc * 10 + d <= u64::MAX {
            spec_parse_u64_loop(s.drop_first(), (acc * 10 + d) as u64)
        } else {
            None
        }
    } else {
        Some((acc, s))
    }
}

/// An unsigned decimal number: a non-empty digit run whose value fits.
pub open spec fn spec_parse_u64(s: Seq<char>) -> Option<(u64, Seq<char>)> {
    if s.len() > 0 && is_digit(s[0]) {
        spec_parse_u64_loop(s, 0)
    } else {
        None
    }
}

/// A possibly signed decimal number whose value fits in an `i64`.
pub open spec fn spec_parse_i64(s: Seq<char>) -> Option<(i64, Seq<char>)> {
    if s.len() > 0 && s[0] == '-' {
        match spec_parse_u64(s.drop_first()) {
            None => None,
            Some((m, r)) => if m as int <= -(i64::MIN as int) {
                Some(((-(m as int)) as i64, r))
            } else {
                None
            },
        }
    } else {
        match spec_parse_u64(s) {
            None => None,
            Some((m, r)) => if m <= i64::MAX as u64 {
                Some((m as i64, r))
            } else {
                None
            },
        }
    }
}

/// `true` or `false`.
pub open spec fn spec_parse_bool(s: Seq<char>) -> Option<(bool, Seq<char>)> {
    match spec_expect(s, "true"@) {
        Some(r) => Some((true, r)),
        None => match spec_expect(s, "false"@) {
            Some(r) => Some((false, r)),
            None => None,
        },
    }
}

/// The body of a quoted string after the opening quote: characters up to
/// the closing quote, with backslash escapes for quote and backslash.
pub open spec fn spec_parse_str_body(s: Seq<char>, acc: Seq<char>) -> Option<
    (Seq<char>, Seq<char>),
>
    decreases s.len(),
{
    if s.len() == 0 {
        None
    } else if s[0] == '"' {
        Some((acc, s.drop_first()))
    } else if s[0] == '\\' {
        if s.len() >= 2 && (s[1] == '"' || s[1] == '\\') {
            spec_parse_str_body(s.skip(2), acc.push(s[1]))
        } else {
            None
        }
    } else {
        spec_parse_str_body(s.drop_first(), acc.push(s[0]))
    }
}

/// A quoted string.
pub open spec fn spec_parse_string(s: Seq<char>) -> Option<(Seq<char>, Seq<char>)> {
    if s.len() > 0 && s[0] == '"' {
        spec_parse_str_body(s.drop_first(), Seq::empty())
    } else {
        None
    }
}

/// `null` or a quoted string.
pub open spec fn spec_parse_opt_string(s: Seq<char>) -> Option<(Option<Seq<char>>, Seq<char>)> {
    if s.len() > 0 && s[0] == 'n' {
        match spec_expect(s, "null"@) {
            Some(r) => Some((None, r)),
            None => None,
        }
    } else {
        match spec_parse_string(s) {
            Some((v, r)) => Some((Some(v), r)),
            None => None,
        }
    }
}

/// `null` or an attachment object holding the stored file name.
pub open spec fn spec_parse_file(s: Seq<char>) -> Option<(Option<Seq<char>>, Seq<char>)> {
    if s.len() > 0 && s[0] == 'n' {
        match spec_expect(s, "null"@) {
            Some(r) => Some((None, r)),
            None => None,
        }
    } else {
        match spec_expect(s, "{\"name\":"@) {
            None => None,
            Some(r) => match spec_parse_string(r) {
                None => None,
                Some((name, r2)) => match spec_expect(r2, "}"@) {
                    None => None,
                    Some(r3) => Some((Some(name), r3)),
                },
            },
        }
    }
}

/// Identity, content and attachment of a record.
pub open spec fn spec_parse_fields_a(s: Seq<char>) -> Option<
    ((u64, Seq<char>, Option<Seq<char>>), Seq<char>),
> {
    match spec_expect(s, "{\"id\":"@) {
        None => None,
        Some(r0) => match spec_parse_u64(r0) {
            None => None,
            Some((id, r1)) => match spec_expect(r1, ",\"content\":"@) {
                None => None,
                Some(r2) => match spec_parse_string(r2) {
                    None => None,
                    Some((content, r3)) => match spec_expect(r3, ",\"file\":"@) {
                        None => None,
                        Some(r4) => match spec_parse_file(r4) {
                            None => None,
                            Some((file, r5)) => Some(((id, content, file), r5)),
                        },
                    },
                },
            },
        },
    }
}

/// Extension and the visibility/access flags of a record.
pub open spec fn spec_parse_fields_b(s: Seq<char>) -> Option<
    ((Seq<char>, bool, bool, bool, bool, bool), Seq<char>),
> {
    match spec_expect(s, ",\"extension\":"@) {
        None => None,
        Some(r0) => match spec_parse_string(r0) {
            None => None,
            Some((extension, r1)) => match spec_expect(r1, ",\"private\":"@) {
                None => None,
                Some(r2) => match spec_parse_bool(r2) {
                    None => None,
                    Some((private, r3)) => match spec_expect(r3, ",\"readonly\":"@) {
                        None => None,
                        Some(r4) => match spec_parse_bool(r4) {
                            None => None,
                            Some((readonly, r5)) => match spec_expect(r5, ",\"editable\":"@) {
                                None => None,
                                Some(r6) => match spec_parse_bool(r6) {
                                    None => None,
                                    Some((editable, r7)) => match spec_expect(
                                        r7,
                                        ",\"encrypt_server\":"@,
                                    ) {
                                        None => None,
                                        Some(r8) => match spec_parse_bool(r8) {
                                            None => None,
                                            Some((enc_s, r9)) => match spec_expect(
                                                r9,
                                                ",\"encrypt_client\":"@,
                                            ) {
                                                None => None,
                                                Some(r10) => match spec_parse_bool(r10) {
                                                    None => None,
                                                    Some((enc_c, r11)) => Some(
                                                        (
                                                            (
                                                                extension,
                                                                private,
                                                                readonly,
                                                                editable,
                                                                enc_s,
                                                                enc_c,
                                                            ),
                                                            r11,
                                                        ),
                                                    ),
                                                },
                                            },
                                        },
                                    },
                                },
                            },
                        },
                    },
                },
            },
        },
    }
}

/// Key material, lifecycle timestamps, counters and kind of a record.
pub open spec fn spec_parse_fields_c(s: Seq<char>) -> Option<
    ((Option<Seq<char>>, i64, i64, i64, u64, u64, Seq<char>), Seq<char>),
> {
    match spec_expect(s, ",\"encrypted_key\":"@) {
        None => None,
        Some(r0) => match spec_parse_opt_string(r0) {
            None => None,
            Some((key, r1)) => match spec_expect(r1, ",\"created\":"@) {
                None => None,
                Some(r2) => match spec_parse_i64(r2) {
                    None => None,
                    Some((created, r3)) => match spec_expect(r3, ",\"expiration\":"@) {
                        None => None,
                        Some(r4) => match spec_parse_i64(r4) {
                            None => None,
                            Some((expiration, r5)) => match spec_expect(r5, ",\"last_read\":"@) {
                                None => None,
                                Some(r6) => match spec_parse_i64(r6) {
                                    None => None,
                                    Some((last_read, r7)) => match spec_expect(
                                        r7,
                                        ",\"read_count\":"@,
                                    ) {
                                        None => None,
                                        Some(r8) => match spec_parse_u64(r8) {
                                            None => None,
                                            Some((reads, r9)) => match spec_expect(
                                                r9,
                                                ",\"burn_after_reads\":"@,
                                            ) {
                                                None => None,
                                                Some(r10) => match spec_parse_u64(r10) {
                                                    None => None,
                                                    Some((burn, r11)) => match spec_expect(
                                                        r11,
                                                        ",\"pasta_type\":"@,
                                                    ) {
                                                        None => None,
                                                        Some(r12) => match spec_parse_string(r12) {
                                                            None => None,
                                                            Some((ptype, r13)) => Some(
                                                                (
                                                                    (
                                                                        key,
                                                                        created,
                                                                        expiration,
                                                                        last_read,
                                                                        reads,
                                                                        burn,
                                                                        ptype,
                                                                    ),
                                                                    r13,
                                                                ),
                                                            ),
                                                        },
                                                    },
                                                },
                                            },
                                        },
                                    },
                                },
                            },
                        },
                    },
                },
            },
        },
    }
}

/// One record object. The second component of the result says whether the
/// record had the legacy shape and was migrated (its `hide_read_count`
/// backfilled as `false`).
pub open spec fn spec_parse_record(s: Seq<char>) -> Option<((PastaView, bool), Seq<char>)> {
    match spec_parse_fields_a(s) {
        None => None,
        Some(((id, content, file), ra)) => match spec_parse_fields_b(ra) {
            None => None,
            Some(((extension, private, readonly, editable, enc_s, enc_c), rb)) => match
                spec_parse_fields_c(rb) {
                None => None,
                Some(((key, created, expiration, last_read, reads, burn, ptype), rc)) => {
                    let p = PastaView {
                        id,
                        content,
                        file,
                        extension,
                        private,
                        readonly,
                        editable,
                        encrypt_server: enc_s,
                        encrypt_client: enc_c,
                        encrypted_key: key,
                        created,
                        expiration,
                        last_read,
                        read_count: reads,
                        burn_after_reads: burn,
                        pasta_type: ptype,
                        hide_read_count: false,
                    };
                    if rc.len() > 0 && rc[0] == '}' {
                        Some(((p, true), rc.drop_first()))
                    } else {
                        match spec_expect(rc, ",\"hide_read_count\":"@) {
                            None => None,
                            Some(r0) => match spec_parse_bool(r0) {
                                None => None,
                                Some((hide, r1)) => match spec_expect(r1, "}"@) {
                                    None => None,
                                    Some(r2) => Some(
                                        ((PastaView { hide_read_count: hide, ..p }, false), r2),
                                    ),
                                },
                            },
                        }
                    }
                },
            },
        },
    }
}

/// A non-empty, comma-separated run of record objects. The flag says
/// whether any record was migrated.
pub open spec fn spec_parse_records(s: Seq<char>) -> Option<((Seq<PastaView>, bool), Seq<char>)>
    decreases s.len(),
{
    match spec_parse_record(s) {
        None => None,
        Some(((p, m), r)) => if r.len() > 0 && r[0] == ',' {
            if r.drop_first().len() < s.len() {
                match spec_parse_records(r.drop_first()) {
                    None => None,
                    Some(((ps, m2), r2)) => Some(((seq![p] + ps, m || m2), r2)),
                }
            } else {
                None
            }
        } else {
            Some(((seq![p], m), r))
        },
    }
}

/// The whole document: an array of record objects, with nothing after it.
pub open spec fn spec_parse_collection(s: Seq<char>) -> Option<(Seq<PastaView>, bool)> {
    match spec_expect(s, "["@) {
        None => None,
        Some(r) => if r.len() > 0 && r[0] == ']' {
            if r.drop_first().len() == 0 {
                Some((Seq::empty(), false))
            } else {
                None
            }
        } else {
            match spec_parse_records(r) {
                None => None,
                Some(((ps, m), r2)) => match spec_expect(r2, "]"@) {
                    None => None,
                    Some(r3) => if r3.len() == 0 {
                        Some((ps, m))
                    } else {
                        None
                    },
                },
            }
        },
    }
}

// --- The executable parser, proved to match the grammar above ---

/// The decimal value of a digit character, or `None` for any other.
fn try_digit(c: char) -> (r: Option<u64>)
    ensures
        match r {
            Some(d) => is_digit(c) && d as int == digit_val(c),
            None => !is_digit(c),
        },
{
    match c {
        '0' => Some(0),
        '1' => Some(1),
        '2' => Some(2),
        '3' => Some(3),
        '4' => Some(4),
        '5' => Some(5),
        '6' => Some(6),
        '7' => Some(7),
        '8' => Some(8),
        '9' => Some(9),
        _ => None,
    }
}

/// Consumes the literal `lit` at `pos`, returning the position after it.
fn expect_lit(s: &str, pos: usize, lit: &str) -> (r: Option<usize>)
    requires
        pos <= s@.len(),
    ensures
        match r {
            None => spec_expect(s@.skip(pos as int), lit@) is None,
            Some(p2) => pos <= p2 <= s@.len() && p2 == pos + lit@.len() && spec_expect(
                s@.skip(pos as int),
                lit@,
            ) == Some(s@.skip(p2 as int)),
        },
{
    let len = s.unicode_len();
    let llen = lit.unicode_len();
    if llen > len - pos {
        assert(lit@.len() > s@.skip(pos as int).len());
        return None;
    }
    let mut j: usize = 0;
    while j < llen
        invariant
            j <= llen,
            llen <= len - pos,
            pos <= len,
            len == s@.len(),
            llen == lit@.len(),
            forall|k: int| 0 <= k < j ==> s@.skip(pos as int)[k] == lit@[k],
        decreases llen - j,
    {
        let a = s.get_char(pos + j);
        let b = lit.get_char(j);
        proof {
            assert(s@.skip(pos as int)[j as int] == s@[pos + j]);
        }
        if a != b {
            proof {
                if s@.skip(pos as int).take(lit@.len() as int) == lit@ {
                    assert(s@.skip(pos as int).take(lit@.len() as int)[j as int] == lit@[
                    j as int]);
                    assert(false);
                }
            }
            return None;
        }
        j = j + 1;
    }
    proof {
        assert(s@.skip(pos as int).take(lit@.len() as int) =~= lit@);
        assert(s@.skip(pos as int).skip(lit@.len() as int) =~= s@.skip(pos + lit@.len()));
    }
    Some(pos + llen)
}

/// An unsigned decimal number at `pos`.
fn parse_u64(s: &str, pos: usize) -> (r: Option<(u64, usize)>)
    requires
        pos <= s@.len(),
    ensures
        match r {
            None => spec_parse_u64(s@.skip(pos as int)) is None,
            Some((v, p2)) => pos < p2 <= s@.len() && spec_parse_u64(s@.skip(pos as int)) == Some(
                (v, s@.skip(p2 as int)),
            ),
        },
{
    let len = s.unicode_len();
    if pos >= len {
        return None;
    }
    let c0 = s.get_char(pos);
    proof {
        assert(s@.skip(pos as int)[0] == s@[pos as int]);
    }
    let d0 = match try_digit(c0) {
        None => {
            return None;
        },
        Some(d) => d,
    };
    let mut acc: u64 = d0;
    let mut i: usize = pos + 1;
    proof {
        assert(s@.skip(pos as int).drop_first() =~= s@.skip(pos + 1));
    }
    loop
        invariant
            pos < i <= len,
            len == s@.len(),
            spec_parse_u64(s@.skip(pos as int)) == spec_parse_u64_loop(s@.skip(i as int), acc),
        decreases len - i,
    {
        if i >= len {
            return Some((acc, i));
        }
        let c = s.get_char(i);
        proof {
            assert(s@.skip(i as int)[0] == s@[i as int]);
        }
        match try_digit(c) {
            None => {
                return Some((acc, i));
            },
            Some(d) => {
                let limit = (u64::MAX - d) / 10;
                proof {
                    assert(acc <= limit <==> acc * 10 + d <= u64::MAX) by (nonlinear_arith)
                        requires
                            limit == (u64::MAX - d) / 10,
                            d <= 9,
                    ;
                }
                if acc > limit {
                    return None;
                }
                proof {
                    assert(s@.skip(i as int).drop_first() =~= s@.skip(i + 1));
                }
                acc = acc * 10 + d;
                i = i + 1;
            },
        }
    }
}

/// A possibly signed decimal number at `pos`.
fn parse_i64(s: &str, pos: usize) -> (r: Option<(i64, usize)>)
    requires
        pos <= s@.len(),
    ensures
        match r {
            None => spec_parse_i64(s@.skip(pos as int)) is None,
            Some((v, p2)) => pos < p2 <= s@.len() && spec_parse_i64(s@.skip(pos as int)) == Some(
                (v, s@.skip(p2 as int)),
            ),
        },
{
    let len = s.unicode_len();
    if pos < len && s.get_char(pos) == '-' {
        proof {
            assert(s@.skip(pos as int)[0] == s@[pos as int]);
            assert(s@.skip(pos as int).drop_first() =~= s@.skip(pos + 1));
        }
        match parse_u64(s, pos + 1) {
            None => None,
            Some((m, p2)) => {
                if m <= i64::MAX as u64 {
                    Some((-(m as i64), p2))
                } else if m == (i64::MAX as u64) + 1 {
                    Some((i64::MIN, p2))
                } else {
                    None
                }
            },
        }
    } else {
        proof {
            if pos < len {
                assert(s@.skip(pos as int)[0] == s@[pos as int]);
            }
        }
        match parse_u64(s, pos) {
            None => None,
            Some((m, p2)) => {
                if m <= i64::MAX as u64 {
                    Some((m as i64, p2))
                } else {
                    None
                }
            },
        }
    }
}

/// `true` or `false` at `pos`.
fn parse_bool(s: &str, pos: usize) -> (r: Option<(bool, usize)>)
    requires
        pos <= s@.len(),
    ensures
        match r {
            None => spec_parse_bool(s@.skip(pos as int)) is None,
            Some((v, p2)) => pos <= p2 <= s@.len() && spec_parse_bool(s@.skip(pos as int)) == Some(
                (v, s@.skip(p2 as int)),
            ),
        },
{
    match expect_lit(s, pos, "true") {
        Some(p2) => Some((true, p2)),
        None => match expect_lit(s, pos, "false") {
            Some(p2) => Some((false, p2)),
            None => None,
        },
    }
}

/// A quoted string at `pos`, unescaped.
fn parse_string(s: &str, pos: usize) -> (r: Option<(String, usize)>)
    requires
        pos <= s@.len(),
    ensures
        match r {
            None => spec_parse_string(s@.skip(pos as int)) is None,
            Some((v, p2)) => pos < p2 <= s@.len() && spec_parse_string(s@.skip(pos as int))
                == Some((v@, s@.skip(p2 as int))),
        },
{
    let len = s.unicode_len();
    if pos >= len || s.get_char(pos) != '"' {
        proof {
            if pos < len {
                assert(s@.skip(pos as int)[0] == s@[pos as int]);
            }
        }
        return None;
    }
    proof {
        assert(s@.skip(pos as int)[0] == s@[pos as int]);
        assert(s@.skip(pos as int).drop_first() =~= s@.skip(pos + 1));
    }
    let mut acc = String::new();
    let mut i: usize = pos + 1;
    proof {
        assert(acc@ =~= Seq::<char>::empty());
    }
    loop
        invariant
            pos < i <= len,
            len == s@.len(),
            spec_parse_string(s@.skip(pos as int)) == spec_parse_str_body(s@.skip(i as int), acc@),
        decreases len - i,
    {
        if i >= len {
            return None;
        }
        let c = s.get_char(i);
        proof {
            assert(s@.skip(i as int)[0] == s@[i as int]);
        }
        if c == '"' {
            proof {
                assert(s@.skip(i as int).drop_first() =~= s@.skip(i + 1));
            }
            return Some((acc, i + 1));
        } else if c == '\\' {
            if i + 1 >= len {
                assert(s@.skip(i as int).len() < 2);
                return None;
            }
            let c2 = s.get_char(i + 1);
            proof {
                assert(s@.skip(i as int)[1] == s@[i + 1]);
            }
            let ghost pre = acc@;
            if c2 == '"' {
                acc.append("\"");
                proof {
                    reveal_strlit("\"");
                    assert(acc@ =~= pre.push(c2));
                }
            } else if c2 == '\\' {
                acc.append("\\");
                proof {
                    reveal_strlit("\\");
                    assert(acc@ =~= pre.push(c2));
                }
            } else {
                return None;
            }
            proof {
                assert(s@.skip(i as int).skip(2) =~= s@.skip(i + 2));
            }
            i = i + 2;
        } else {
            let ghost pre = acc@;
            let piece = s.substring_char(i, i + 1);
            acc.append(piece);
            proof {
                assert(piece@ =~= seq![c]);
                assert(acc@ =~= pre.push(c));
                assert(s@.skip(i as int).drop_first() =~= s@.skip(i + 1));
            }
            i = i + 1;
        }
    }
}

/// The view of an optional string.
pub open spec fn opt_view(o: Option<String>) -> Option<Seq<char>> {
    match o {
        None => None,
        Some(s) => Some(s@),
    }
}

/// `null` or a quoted string at `pos`.
fn parse_opt_string(s: &str, pos: usize) -> (r: Option<(Option<String>, usize)>)
    requires
        pos <= s@.len(),
    ensures
        match r {
            None => spec_parse_opt_string(s@.skip(pos as int)) is None,
            Some((v, p2)) => pos <= p2 <= s@.len() && spec_parse_opt_string(s@.skip(pos as int))
                == Some((opt_view(v), s@.skip(p2 as int))),
        },
{
    let len = s.unicode_len();
    proof {
        if pos < len {
            assert(s@.skip(pos as int)[0] == s@[pos as int]);
        }
    }
    if pos < len && s.get_char(pos) == 'n' {
        match expect_lit(s, pos, "null") {
            Some(p2) => Some((None, p2)),
            None => None,
        }
    } else {
        match parse_string(s, pos) {
            Some((v, p2)) => Some((Some(v), p2)),
            None => None,
        }
    }
}

/// `null` or an attachment object at `pos`.
fn parse_file(s: &str, pos: usize) -> (r: Option<(Option<String>, usize)>)
    requires
        pos <= s@.len(),
    ensures
        match r {
            None => spec_parse_file(s@.skip(pos as int)) is None,
            Some((v, p2)) => pos <= p2 <= s@.len() && spec_parse_file(s@.skip(pos as int)) == Some(
                (opt_view(v), s@.skip(p2 as int)),
            ),
        },
{
    let len = s.unicode_len();
    proof {
        if pos < len {
            assert(s@.skip(pos as int)[0] == s@[pos as int]);
        }
    }
    if pos < len && s.get_char(pos) == 'n' {
        match expect_lit(s, pos, "null") {
            Some(p2) => Some((None, p2)),
            None => None,
        }
    } else {
        match expect_lit(s, pos, "{\"name\":") {
            None => None,
            Some(p0) => match parse_string(s, p0) {
                None => None,
                Some((name, p1)) => match expect_lit(s, p1, "}") {
                    None => None,
                    Some(p2) => Some((Some(name), p2)),
                },
            },
        }
    }
}

/// Identity, content and attachment of a record, at `pos`.
fn parse_fields_a(s: &str, pos: usize) -> (r: Option<((u64, String, Option<String>), usize)>)
    requires
        pos <= s@.len(),
    ensures
        match r {
            None => spec_parse_fields_a(s@.skip(pos as int)) is None,
            Some(((id, content, file), p2)) => pos < p2 <= s@.len() && spec_parse_fields_a(
                s@.skip(pos as int),
            ) == Some(((id, content@, opt_view(file)), s@.skip(p2 as int))),
        },
{
    match expect_lit(s, pos, "{\"id\":") {
        None => None,
        Some(p0) => match parse_u64(s, p0) {
            None => None,
            Some((id, p1)) => match expect_lit(s, p1, ",\"content\":") {
                None => None,
                Some(p2) => match parse_string(s, p2) {
                    None => None,
                    Some((content, p3)) => match expect_lit(s, p3, ",\"file\":") {
                        None => None,
                        Some(p4) => match parse_file(s, p4) {
                            None => None,
                            Some((file, p5)) => Some(((id, content, file), p5)),
                        },
                    },
                },
            },
        },
    }
}

/// Extension and the visibility/access flags of a record, at `pos`.
fn parse_fields_b(s: &str, pos: usize) -> (r: Option<
    ((String, bool, bool, bool, bool, bool), usize),
>)
    requires
        pos <= s@.len(),
    ensures
        match r {
            None => spec_parse_fields_b(s@.skip(pos as int)) is None,
            Some(((extension, private, readonly, editable, enc_s, enc_c), p2)) => pos <= p2
                <= s@.len() && spec_parse_fields_b(s@.skip(pos as int)) == Some(
                ((extension@, private, readonly, editable, enc_s, enc_c), s@.skip(p2 as int)),
            ),
        },
{
    match expect_lit(s, pos, ",\"extension\":") {
        None => None,
        Some(p0) => match parse_string(s, p0) {
            None => None,
            Some((extension, p1)) => match expect_lit(s, p1, ",\"private\":") {
                None => None,
                Some(p2) => match parse_bool(s, p2) {
                    None => None,
                    Some((private, p3)) => match expect_lit(s, p3, ",\"readonly\":") {
                        None => None,
                        Some(p4) => match parse_bool(s, p4) {
                            None => None,
                            Some((readonly, p5)) => match expect_lit(s, p5, ",\"editable\":") {
                                None => None,
                                Some(p6) => match parse_bool(s, p6) {
                                    None => None,
                                    Some((editable, p7)) => match expect_lit(
                                        s,
                                        p7,
                                        ",\"encrypt_server\":",
                                    ) {
                                        None => None,
                                        Some(p8) => match parse_bool(s, p8) {
                                            None => None,
                                            Some((enc_s, p9)) => match expect_lit(
                                                s,
                                                p9,
                                                ",\"encrypt_client\":",
                                            ) {
                                                None => None,
                                                Some(p10) => match parse_bool(s, p10) {
                                                    None => None,
                                                    Some((enc_c, p11)) => Some(
                                                        (
                                                            (
                                                                extension,
                                                                private,
                                                                readonly,
                                                                editable,
                                                                enc_s,
                                                                enc_c,
                                                            ),
                                                            p11,
                                                        ),
                                                    ),
                                                },
                                            },
                                        },
                                    },
                                },
                            },
                        },
                    },
                },
            },
        },
    }
}

/// Key material, lifecycle timestamps, counters and kind of a record, at
/// `pos`.
fn parse_fields_c(s: &str, pos: usize) -> (r: Option<
    ((Option<String>, i64, i64, i64, u64, u64, String), usize),
>)
    requires
        pos <= s@.len(),
    ensures
        match r {
            None => spec_parse_fields_c(s@.skip(pos as int)) is None,
            Some(((key, created, expiration, last_read, reads, burn, ptype), p2)) => pos <= p2
                <= s@.len() && spec_parse_fields_c(s@.skip(pos as int)) == Some(
                (
                    (opt_view(key), created, expiration, last_read, reads, burn, ptype@),
                    s@.skip(p2 as int),
                ),
            ),
        },
{
    match expect_lit(s, pos, ",\"encrypted_key\":") {
        None => None,
        Some(p0) => match parse_opt_string(s, p0) {
            None => None,
            Some((key, p1)) => match expect_lit(s, p1, ",\"created\":") {
                None => None,
                Some(p2) => match parse_i64(s, p2) {
                    None => None,
                    Some((created, p3)) => match expect_lit(s, p3, ",\"expiration\":") {
                        None => None,
                        Some(p4) => match parse_i64(s, p4) {
                            None => None,
                            Some((expiration, p5)) => match expect_lit(s, p5, ",\"last_read\":") {
                                None => None,
                                Some(p6) => match parse_i64(s, p6) {
                                    None => None,
                                    Some((last_read, p7)) => match expect_lit(
                                        s,
                                        p7,
                                        ",\"read_count\":",
                                    ) {
                                        None => None,
                                        Some(p8) => match parse_u64(s, p8) {
                                            None => None,
                                            Some((reads, p9)) => match expect_lit(
                                                s,
                                                p9,
                                                ",\"burn_after_reads\":",
                                            ) {
                                                None => None,
                                                Some(p10) => match parse_u64(s, p10) {
                                                    None => None,
                                                    Some((burn, p11)) => match expect_lit(
                                                        s,
                                                        p11,
                                                        ",\"pasta_type\":",
                                                    ) {
                                                        None => None,
                                                        Some(p12) => match parse_string(s, p12) {
                                                            None => None,
                                                            Some((ptype, p13)) => Some(
                                                                (
                                                                    (
                                                                        key,
                                                                        created,
                                                                        expiration,
                                                                        last_read,
                                                                        reads,
                                                                        burn,
                                                                        ptype,
                                                                    ),
                                                                    p13,
                                                                ),
                                                            ),
                                                        },
                                                    },
                                                },
                                            },
                                        },
                                    },
                                },
                            },
                        },
                    },
                },
            },
        },
    }
}

/// One record object at `pos`; the flag says whether the record had the
/// legacy shape and was migrated.
fn parse_record(s: &str, pos: usize) -> (r: Option<((Pasta, bool), usize)>)
    requires
        pos <= s@.len(),
    ensures
        match r {
            None => spec_parse_record(s@.skip(pos as int)) is None,
            Some(((p, m), p2)) => pos < p2 <= s@.len() && spec_parse_record(s@.skip(pos as int))
                == Some(((p@, m), s@.skip(p2 as int))),
        },
{
    let len = s.unicode_len();
    match parse_fields_a(s, pos) {
        None => None,
        Some(((id, content, file), pa)) => match parse_fields_b(s, pa) {
            None => None,
            Some(((extension, private, readonly, editable, enc_s, enc_c), pb)) => match
                parse_fields_c(s, pb) {
                None => None,
                Some(((key, created, expiration, last_read, reads, burn, ptype), pc)) => {
                    let p = Pasta {
                        id,
                        content,
                        file: match file {
                            None => None,
                            Some(name) => Some(PastaFile { name }),
                        },
                        extension,
                        private,
                        readonly,
                        editable,
                        encrypt_server: enc_s,
                        encrypt_client: enc_c,
                        encrypted_key: key,
                        created,
                        expiration,
                        last_read,
                        read_count: reads,
                        burn_after_reads: burn,
                        pasta_type: ptype,
                        hide_read_count: false,
                    };
                    proof {
                        if pc < len {
                            assert(s@.skip(pc as int)[0] == s@[pc as int]);
                        }
                    }
                    if pc < len && s.get_char(pc) == '}' {
                        proof {
                            assert(s@.skip(pc as int).drop_first() =~= s@.skip(pc + 1));
                        }
                        Some(((p, true), pc + 1))
                    } else {
                        match expect_lit(s, pc, ",\"hide_read_count\":") {
                            None => None,
                            Some(p0) => match parse_bool(s, p0) {
                                None => None,
                                Some((hide, p1)) => match expect_lit(s, p1, "}") {
                                    None => None,
                                    Some(p2) => {
                                        let p = Pasta { hide_read_count: hide, ..p };
                                        Some(((p, false), p2))
                                    },
                                },
                            },
                        }
                    }
                },
            },
        },
    }
}

/// A non-empty, comma-separated run of record objects at `pos`.
#[verifier::rlimit(100)]
fn parse_records(s: &str, pos: usize) -> (r: Option<((Vec<Pasta>, bool), usize)>)
    requires
        pos <= s@.len(),
    ensures
        match r {
            None => spec_parse_records(s@.skip(pos as int)) is None,
            Some(((ps, m), p2)) => pos < p2 <= s@.len() && spec_parse_records(s@.skip(pos as int))
                == Some(((crate::pasta::views_of(ps@), m), s@.skip(p2 as int))),
        },
    decreases s@.len() - pos,
{
    let len = s.unicode_len();
    match parse_record(s, pos) {
        None => None,
        Some(((p, m), p1)) => {
            proof {
                if p1 < len {
                    assert(s@.skip(p1 as int)[0] == s@[p1 as int]);
                }
            }
            if p1 < len && s.get_char(p1) == ',' {
                proof {
                    assert(s@.skip(p1 as int).drop_first() =~= s@.skip(p1 + 1));
                }
                match parse_records(s, p1 + 1) {
                    None => None,
                    Some(((mut ps, m2), p2)) => {
                        let ghost tail_views = crate::pasta::views_of(ps@);
                        ps.insert(0, p);
                        proof {
                            assert(crate::pasta::views_of(ps@) =~= seq![p@] + tail_views);
                        }
                        Some(((ps, m || m2), p2))
                    },
                }
            } else {
                let mut ps: Vec<Pasta> = Vec::new();
                ps.push(p);
                proof {
                    assert(crate::pasta::views_of(ps@) =~= seq![p@]);
                }
                Some(((ps, m), p1))
            }
        },
    }
}

/// Parses a whole on-disk document. Returns the records and whether any of
/// them carried the legacy shape and was migrated; `None` on any malformed
/// document (the fatal, corrupted-store case).
pub fn parse_collection(s: &str) -> (r: Option<(Vec<Pasta>, bool)>)
    ensures
        match r {
            None => spec_parse_collection(s@) is None,
            Some((ps, m)) => spec_parse_collection(s@) == Some((crate::pasta::views_of(ps@), m)),
        },
{
    let len = s.unicode_len();
    proof {
        assert(s@.skip(0) =~= s@);
    }
    match expect_lit(s, 0, "[") {
        None => None,
        Some(p0) => {
            proof {
                if p0 < len {
                    assert(s@.skip(p0 as int)[0] == s@[p0 as int]);
                }
            }
            if p0 < len && s.get_char(p0) == ']' {
                if p0 + 1 == len {
                    let ps: Vec<Pasta> = Vec::new();
                    proof {
                        assert(crate::pasta::views_of(ps@) =~= Seq::<PastaView>::empty());
                    }
                    Some((ps, false))
                } else {
                    None
                }
            } else {
                match parse_records(s, p0) {
                    None => None,
                    Some(((ps, m), p2)) => match expect_lit(s, p2, "]") {
                        None => None,
                        Some(p3) => {
                            if p3 == len {
                                Some((ps, m))
                            } else {
                                None
                            }
                        },
                    },
                }
            }
        },
    }
}

} // verus!
