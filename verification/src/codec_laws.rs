//! The laws tying the writer (`crate::ser`) to the grammar
//! (`crate::parse`): parsing a serialized document yields the original
//! collection (the save/load round trip), and parsing a legacy document
//! yields the same records with the later field backfilled to its default
//! (the additive migration).

use vstd::prelude::*;

use crate::parse::{
    digit_val, is_digit, spec_expect, spec_parse_bool, spec_parse_collection,
    spec_parse_fields_a, spec_parse_fields_b, spec_parse_fields_c, spec_parse_file,
    spec_parse_i64, spec_parse_opt_string, spec_parse_record, spec_parse_records,
    spec_parse_str_body, spec_parse_string, spec_parse_u64, spec_parse_u64_loop,
};
use crate::pasta::PastaView;
use crate::ser::{
    bool_part, dec_of_i64, dec_of_u64, digit_char, esc_char, escaped, file_part, opt_part, quoted,
    ser_collection, ser_collection_legacy, ser_fields_a, ser_fields_b, ser_fields_c,
    ser_record, ser_record_common, ser_record_legacy, ser_records, ser_records_legacy,
};

verus! {

proof fn lemma_expect_inv(lit: Seq<char>, rest: Seq<char>)
    ensures
        spec_expect(lit + rest, lit) == Some(rest),
{
    assert((lit + rest).take(lit.len() as int) =~= lit);
    assert((lit + rest).skip(lit.len() as int) =~= rest);
}

spec fn pow10(k: nat) -> nat
    decreases k,
{
    if k == 0 {
        1
    } else {
        10 * pow10((k - 1) as nat)
    }
}

proof fn lemma_digit_roundtrip(k: nat)
    requires
        k < 10,
    ensures
        digit_val(digit_char(k)) == k,
{
}

proof fn lemma_dec_shape(n: nat)
    ensures
        dec_of_u64(n).len() >= 1,
        is_digit(dec_of_u64(n)[0]),
    decreases n,
{
    if n < 10 {
        lemma_digit_roundtrip(n);
    } else {
        lemma_dec_shape(n / 10);
        assert(dec_of_u64(n)[0] == dec_of_u64(n / 10)[0]);
    }
}

proof fn lemma_parse_u64_consume(n: nat, acc: u64, rest: Seq<char>)
    requires
        acc * pow10(dec_of_u64(n).len()) + n <= u64::MAX,
    ensures
        spec_parse_u64_loop(dec_of_u64(n) + rest, acc) == spec_parse_u64_loop(
            rest,
            (acc * pow10(dec_of_u64(n).len()) + n) as u64,
        ),
    decreases n,
{
    let dec = dec_of_u64(n);
    let s = dec + rest;
    if n < 10 {
        lemma_digit_roundtrip(n);
        assert(s[0] == digit_char(n));
        assert(pow10(0) == 1);
        assert(pow10(1) == 10);
        assert(acc * 10 + n <= u64::MAX);
        assert(s.drop_first() =~= rest);
    } else {
        let hi = n / 10;
        let lo = n % 10;
        let dech = dec_of_u64(hi);
        let lh = dech.len();
        assert(dec =~= dech.push(digit_char(lo)));
        assert(dec.len() == lh + 1);
        assert(s =~= dech + (seq![digit_char(lo)] + rest));
        assert(acc * pow10(lh) + hi <= u64::MAX) by (nonlinear_arith)
            requires
                acc * pow10(lh + 1) + n <= u64::MAX,
                pow10(lh + 1) == 10 * pow10(lh),
                hi == n / 10,
                n >= 10,
                pow10(lh) >= 0,
                acc >= 0,
        {
            assert(n / 10 <= n);
            assert(acc * (10 * pow10(lh)) == 10 * (acc * pow10(lh)));
            assert(acc * pow10(lh) <= 10 * (acc * pow10(lh)));
        }
        lemma_parse_u64_consume(hi, acc, seq![digit_char(lo)] + rest);
        let mid = (acc * pow10(lh) + hi) as u64;
        let t = seq![digit_char(lo)] + rest;
        assert(t[0] == digit_char(lo));
        lemma_digit_roundtrip(lo);
        vstd::arithmetic::div_mod::lemma_fundamental_div_mod(n as int, 10);
        assert(mid * 10 + lo == acc * pow10(lh + 1) + n) by (nonlinear_arith)
            requires
                mid == acc * pow10(lh) + hi,
                pow10(lh + 1) == 10 * pow10(lh),
                n == 10 * hi + lo,
        {
        }
        assert(mid * 10 + lo <= u64::MAX);
        assert(t.drop_first() =~= rest);
        assert(spec_parse_u64_loop(t, mid) == spec_parse_u64_loop(
            rest,
            (mid * 10 + lo) as u64,
        ));
    }
}

proof fn lemma_parse_u64_inv(n: u64, rest: Seq<char>)
    requires
        rest.len() > 0 ==> !is_digit(rest[0]),
    ensures
        spec_parse_u64(dec_of_u64(n as nat) + rest) == Some((n, rest)),
{
    let dec = dec_of_u64(n as nat);
    let s = dec + rest;
    lemma_dec_shape(n as nat);
    assert(s[0] == dec[0]);
    assert(0 * pow10(dec.len()) + n as nat <= u64::MAX) by (nonlinear_arith)
        requires
            n <= u64::MAX,
    {
    }
    lemma_parse_u64_consume(n as nat, 0, rest);
    assert((0 * pow10(dec.len()) + n as nat) as u64 == n) by (nonlinear_arith);
    assert(spec_parse_u64_loop(rest, n) == Some((n, rest)));
}

proof fn lemma_parse_i64_inv(v: i64, rest: Seq<char>)
    requires
        rest.len() > 0 ==> !is_digit(rest[0]),
    ensures
        spec_parse_i64(dec_of_i64(v as int) + rest) == Some((v, rest)),
{
    if v >= 0 {
        let s = dec_of_u64(v as nat) + rest;
        lemma_dec_shape(v as nat);
        assert(s[0] == dec_of_u64(v as nat)[0]);
        assert(s[0] != '-');
        lemma_parse_u64_inv(v as u64, rest);
    } else {
        let m = (-(v as int)) as nat;
        let s = dec_of_i64(v as int) + rest;
        reveal_strlit("-");
        assert(dec_of_i64(v as int) == "-"@ + dec_of_u64(m));
        assert(s =~= "-"@ + (dec_of_u64(m) + rest));
        assert(s[0] == '-');
        assert(s.drop_first() =~= dec_of_u64(m) + rest);
        lemma_parse_u64_inv(m as u64, rest);
        assert((-(m as int)) as i64 == v);
    }
}

proof fn lemma_parse_str_body_inv(c: Seq<char>, acc: Seq<char>, rest: Seq<char>)
    ensures
        spec_parse_str_body(escaped(c) + ("\""@ + rest), acc) == Some((acc + c, rest)),
    decreases c.len(),
{
    reveal_strlit("\"");
    let s = escaped(c) + ("\""@ + rest);
    if c.len() == 0 {
        assert(escaped(c) =~= Seq::<char>::empty());
        assert(s =~= "\""@ + rest);
        assert(s[0] == '"');
        assert(s.drop_first() =~= rest);
        assert(acc + c =~= acc);
    } else {
        let c0 = c[0];
        let tail = c.drop_first();
        assert(escaped(c) == esc_char(c0) + escaped(tail));
        let inner = escaped(tail) + ("\""@ + rest);
        assert(s =~= esc_char(c0) + inner);
        lemma_parse_str_body_inv(tail, acc.push(c0), rest);
        assert(acc.push(c0) + tail =~= acc + c);
        if c0 == '"' {
            assert(s[0] == '\\');
            assert(s[1] == '"');
            assert(s.skip(2) =~= inner);
        } else if c0 == '\\' {
            assert(s[0] == '\\');
            assert(s[1] == '\\');
            assert(s.skip(2) =~= inner);
        } else {
            assert(s[0] == c0);
            assert(s.drop_first() =~= inner);
        }
    }
}

proof fn lemma_parse_string_inv(c: Seq<char>, rest: Seq<char>)
    ensures
        spec_parse_string(quoted(c) + rest) == Some((c, rest)),
{
    reveal_strlit("\"");
    let s = quoted(c) + rest;
    assert(s =~= "\""@ + (escaped(c) + ("\""@ + rest)));
    assert(s[0] == '"');
    assert(s.drop_first() =~= escaped(c) + ("\""@ + rest));
    lemma_parse_str_body_inv(c, Seq::empty(), rest);
    assert(Seq::<char>::empty() + c =~= c);
}

proof fn lemma_parse_bool_inv(b: bool, rest: Seq<char>)
    ensures
        spec_parse_bool(bool_part(b) + rest) == Some((b, rest)),
{
    reveal_strlit("true");
    reveal_strlit("false");
    let s = bool_part(b) + rest;
    if b {
        lemma_expect_inv("true"@, rest);
    } else {
        if spec_expect(s, "true"@) is Some {
            assert(s.take(4)[0] == s[0]);
            assert(false);
        }
        lemma_expect_inv("false"@, rest);
    }
}

proof fn lemma_parse_opt_inv(o: Option<Seq<char>>, rest: Seq<char>)
    ensures
        spec_parse_opt_string(opt_part(o) + rest) == Some((o, rest)),
{
    reveal_strlit("null");
    reveal_strlit("\"");
    let s = opt_part(o) + rest;
    match o {
        None => {
            assert(s[0] == 'n');
            lemma_expect_inv("null"@, rest);
        },
        Some(c) => {
            assert(s =~= "\""@ + (escaped(c) + ("\""@ + rest)));
            assert(s[0] == '"');
            assert(s[0] != 'n');
            lemma_parse_string_inv(c, rest);
        },
    }
}

proof fn lemma_parse_file_inv(o: Option<Seq<char>>, rest: Seq<char>)
    ensures
        spec_parse_file(file_part(o) + rest) == Some((o, rest)),
{
    reveal_strlit("null");
    reveal_strlit("{\"name\":");
    reveal_strlit("}");
    let s = file_part(o) + rest;
    match o {
        None => {
            assert(s[0] == 'n');
            lemma_expect_inv("null"@, rest);
        },
        Some(name) => {
            let t2 = "}"@ + rest;
            let t1 = quoted(name) + t2;
            assert(s =~= "{\"name\":"@ + t1);
            assert(s[0] == '{');
            assert(s[0] != 'n');
            lemma_expect_inv("{\"name\":"@, t1);
            lemma_parse_string_inv(name, t2);
            lemma_expect_inv("}"@, rest);
        },
    }
}

proof fn lemma_parse_fields_a_inv(p: PastaView, rest: Seq<char>)
    ensures
        spec_parse_fields_a(ser_fields_a(p) + rest) == Some(((p.id, p.content, p.file), rest)),
{
    reveal_strlit("{\"id\":");
    reveal_strlit(",\"content\":");
    reveal_strlit(",\"file\":");
    let s = ser_fields_a(p) + rest;
    let t5 = file_part(p.file) + rest;
    let t4 = ",\"file\":"@ + t5;
    let t3 = quoted(p.content) + t4;
    let t2 = ",\"content\":"@ + t3;
    let t1 = dec_of_u64(p.id as nat) + t2;
    assert(s =~= "{\"id\":"@ + t1);
    lemma_expect_inv("{\"id\":"@, t1);
    assert(t2[0] == ',');
    lemma_parse_u64_inv(p.id, t2);
    lemma_expect_inv(",\"content\":"@, t3);
    lemma_parse_string_inv(p.content, t4);
    lemma_expect_inv(",\"file\":"@, t5);
    lemma_parse_file_inv(p.file, rest);
}

#[verifier::rlimit(100)]
proof fn lemma_parse_fields_b_inv(p: PastaView, rest: Seq<char>)
    ensures
        spec_parse_fields_b(ser_fields_b(p) + rest) == Some(
            ((p.extension, p.private, p.readonly, p.editable, p.encrypt_server, p.encrypt_client),
            rest),
        ),
{
    reveal_strlit(",\"extension\":");
    reveal_strlit(",\"private\":");
    reveal_strlit(",\"readonly\":");
    reveal_strlit(",\"editable\":");
    reveal_strlit(",\"encrypt_server\":");
    reveal_strlit(",\"encrypt_client\":");
    let s = ser_fields_b(p) + rest;
    let t11 = bool_part(p.encrypt_client) + rest;
    let t10 = ",\"encrypt_client\":"@ + t11;
    let t9 = bool_part(p.encrypt_server) + t10;
    let t8 = ",\"encrypt_server\":"@ + t9;
    let t7 = bool_part(p.editable) + t8;
    let t6 = ",\"editable\":"@ + t7;
    let t5 = bool_part(p.readonly) + t6;
    let t4 = ",\"readonly\":"@ + t5;
    let t3 = bool_part(p.private) + t4;
    let t2 = ",\"private\":"@ + t3;
    let t1 = quoted(p.extension) + t2;
    let c1 = ",\"extension\":"@;
    let q1 = c1 + quoted(p.extension);
    let q2 = q1 + ",\"private\":"@;
    let q3 = q2 + bool_part(p.private);
    let q4 = q3 + ",\"readonly\":"@;
    let q5 = q4 + bool_part(p.readonly);
    let q6 = q5 + ",\"editable\":"@;
    let q7 = q6 + bool_part(p.editable);
    let q8 = q7 + ",\"encrypt_server\":"@;
    let q9 = q8 + bool_part(p.encrypt_server);
    let q10 = q9 + ",\"encrypt_client\":"@;
    let q11 = q10 + bool_part(p.encrypt_client);
    assert(ser_fields_b(p) == q11);
    vstd::seq_lib::lemma_concat_associative(q10, bool_part(p.encrypt_client), rest);
    vstd::seq_lib::lemma_concat_associative(q9, ",\"encrypt_client\":"@, t11);
    vstd::seq_lib::lemma_concat_associative(q8, bool_part(p.encrypt_server), t10);
    vstd::seq_lib::lemma_concat_associative(q7, ",\"encrypt_server\":"@, t9);
    vstd::seq_lib::lemma_concat_associative(q6, bool_part(p.editable), t8);
    vstd::seq_lib::lemma_concat_associative(q5, ",\"editable\":"@, t7);
    vstd::seq_lib::lemma_concat_associative(q4, bool_part(p.readonly), t6);
    vstd::seq_lib::lemma_concat_associative(q3, ",\"readonly\":"@, t5);
    vstd::seq_lib::lemma_concat_associative(q2, bool_part(p.private), t4);
    vstd::seq_lib::lemma_concat_associative(q1, ",\"private\":"@, t3);
    vstd::seq_lib::lemma_concat_associative(c1, quoted(p.extension), t2);
    assert(s == c1 + t1);
    lemma_expect_inv(",\"extension\":"@, t1);
    lemma_parse_string_inv(p.extension, t2);
    lemma_expect_inv(",\"private\":"@, t3);
    lemma_parse_bool_inv(p.private, t4);
    lemma_expect_inv(",\"readonly\":"@, t5);
    lemma_parse_bool_inv(p.readonly, t6);
    lemma_expect_inv(",\"editable\":"@, t7);
    lemma_parse_bool_inv(p.editable, t8);
    lemma_expect_inv(",\"encrypt_server\":"@, t9);
    lemma_parse_bool_inv(p.encrypt_server, t10);
    lemma_expect_inv(",\"encrypt_client\":"@, t11);
    lemma_parse_bool_inv(p.encrypt_client, rest);
}

#[verifier::rlimit(100)]
proof fn lemma_parse_fields_c_inv(p: PastaView, rest: Seq<char>)
    requires
        rest.len() > 0,
    ensures
        spec_parse_fields_c(ser_fields_c(p) + rest) == Some(
            (
                (
                    p.encrypted_key,
                    p.created,
                    p.expiration,
                    p.last_read,
                    p.read_count,
                    p.burn_after_reads,
                    p.pasta_type,
                ),
                rest,
            ),
        ),
{
    reveal_strlit(",\"encrypted_key\":");
    reveal_strlit(",\"created\":");
    reveal_strlit(",\"expiration\":");
    reveal_strlit(",\"last_read\":");
    reveal_strlit(",\"read_count\":");
    reveal_strlit(",\"burn_after_reads\":");
    reveal_strlit(",\"pasta_type\":");
    let s = ser_fields_c(p) + rest;
    let t13 = quoted(p.pasta_type) + rest;
    let t12 = ",\"pasta_type\":"@ + t13;
    let t11 = dec_of_u64(p.burn_after_reads as nat) + t12;
    let t10 = ",\"burn_after_reads\":"@ + t11;
    let t9 = dec_of_u64(p.read_count as nat) + t10;
    let t8 = ",\"read_count\":"@ + t9;
    let t7 = dec_of_i64(p.last_read as int) + t8;
    let t6 = ",\"last_read\":"@ + t7;
    let t5 = dec_of_i64(p.expiration as int) + t6;
    let t4 = ",\"expiration\":"@ + t5;
    let t3 = dec_of_i64(p.created as int) + t4;
    let t2 = ",\"created\":"@ + t3;
    let t1 = opt_part(p.encrypted_key) + t2;
    assert(s =~= ",\"encrypted_key\":"@ + t1);
    lemma_expect_inv(",\"encrypted_key\":"@, t1);
    lemma_parse_opt_inv(p.encrypted_key, t2);
    lemma_expect_inv(",\"created\":"@, t3);
    assert(t4[0] == ',');
    lemma_parse_i64_inv(p.created, t4);
    lemma_expect_inv(",\"expiration\":"@, t5);
    assert(t6[0] == ',');
    lemma_parse_i64_inv(p.expiration, t6);
    lemma_expect_inv(",\"last_read\":"@, t7);
    assert(t8[0] == ',');
    lemma_parse_i64_inv(p.last_read, t8);
    lemma_expect_inv(",\"read_count\":"@, t9);
    assert(t10[0] == ',');
    lemma_parse_u64_inv(p.read_count, t10);
    lemma_expect_inv(",\"burn_after_reads\":"@, t11);
    assert(t12[0] == ',');
    lemma_parse_u64_inv(p.burn_after_reads, t12);
    lemma_expect_inv(",\"pasta_type\":"@, t13);
    lemma_parse_string_inv(p.pasta_type, rest);
}

#[verifier::rlimit(100)]
proof fn lemma_parse_record_inv(p: PastaView, rest: Seq<char>)
    ensures
        spec_parse_record(ser_record(p) + rest) == Some(((p, false), rest)),
{
    reveal_strlit(",\"hide_read_count\":");
    reveal_strlit("}");
    let s = ser_record(p) + rest;
    let t3 = "}"@ + rest;
    let t2 = bool_part(p.hide_read_count) + t3;
    let t1 = ",\"hide_read_count\":"@ + t2;
    let tc = ser_fields_c(p) + t1;
    let tb = ser_fields_b(p) + tc;
    assert(s =~= ser_fields_a(p) + tb);
    lemma_parse_fields_a_inv(p, tb);
    lemma_parse_fields_b_inv(p, tc);
    lemma_parse_fields_c_inv(p, t1);
    assert(t1[0] == ',');
    assert(t1[0] != '}');
    lemma_expect_inv(",\"hide_read_count\":"@, t2);
    lemma_parse_bool_inv(p.hide_read_count, t3);
    lemma_expect_inv("}"@, rest);
    match spec_parse_record(s) {
        Some(((q, m), r)) => {
            assert(q =~= p);
            assert(r == rest);
            assert(!m);
        },
        None => {
            assert(false);
        },
    }
}

/// The record `p` as the migration reads a legacy record: the later field
/// backfilled to its default, every other field unchanged.
pub open spec fn migrated_view(p: PastaView) -> PastaView {
    PastaView { hide_read_count: false, ..p }
}

#[verifier::rlimit(100)]
proof fn lemma_parse_record_legacy_inv(p: PastaView, rest: Seq<char>)
    ensures
        spec_parse_record(ser_record_legacy(p) + rest) == Some(((migrated_view(p), true), rest)),
{
    reveal_strlit("}");
    let s = ser_record_legacy(p) + rest;
    let t1 = "}"@ + rest;
    let tc = ser_fields_c(p) + t1;
    let tb = ser_fields_b(p) + tc;
    assert(s =~= ser_fields_a(p) + tb);
    lemma_parse_fields_a_inv(p, tb);
    lemma_parse_fields_b_inv(p, tc);
    lemma_parse_fields_c_inv(p, t1);
    assert(t1[0] == '}');
    assert(t1.drop_first() =~= rest);
    match spec_parse_record(s) {
        Some(((q, m), r)) => {
            assert(q =~= migrated_view(p));
            assert(r == rest);
            assert(m);
        },
        None => {
            assert(false);
        },
    }
}

proof fn lemma_ser_record_first(p: PastaView)
    ensures
        ser_record(p).len() > 0,
        ser_record(p)[0] == '{',
        ser_record_legacy(p).len() > 0,
        ser_record_legacy(p)[0] == '{',
{
    reveal_strlit("{\"id\":");
    assert(ser_fields_a(p)[0] == '{');
    assert(ser_record_common(p)[0] == '{');
    assert(ser_record(p)[0] == '{');
    assert(ser_record_legacy(p)[0] == '{');
}

#[verifier::rlimit(100)]
proof fn lemma_parse_records_inv(ps: Seq<PastaView>, rest: Seq<char>)
    requires
        ps.len() > 0,
        rest.len() > 0,
        rest[0] != ',',
    ensures
        spec_parse_records(ser_records(ps) + rest) == Some(((ps, false), rest)),
    decreases ps.len(),
{
    reveal_strlit(",");
    let s = ser_records(ps) + rest;
    if ps.len() == 1 {
        assert(ser_records(ps) == ser_record(ps[0]));
        lemma_parse_record_inv(ps[0], rest);
        assert(seq![ps[0]] =~= ps);
    } else {
        let tail = ps.drop_first();
        let t2 = ser_records(tail) + rest;
        let t = ","@ + t2;
        assert(s =~= ser_record(ps[0]) + t);
        lemma_parse_record_inv(ps[0], t);
        assert(t[0] == ',');
        assert(t.drop_first() =~= t2);
        lemma_ser_record_first(ps[0]);
        assert(t2.len() < s.len());
        lemma_parse_records_inv(tail, rest);
        assert(seq![ps[0]] + tail =~= ps);
    }
}

/// The records of `ps` as the migration reads them from a legacy document.
pub open spec fn migrated_views(ps: Seq<PastaView>) -> Seq<PastaView> {
    ps.map_values(|p: PastaView| migrated_view(p))
}

#[verifier::rlimit(100)]
proof fn lemma_parse_records_legacy_inv(ps: Seq<PastaView>, rest: Seq<char>)
    requires
        ps.len() > 0,
        rest.len() > 0,
        rest[0] != ',',
    ensures
        spec_parse_records(ser_records_legacy(ps) + rest) == Some(((migrated_views(ps), true), rest)),
    decreases ps.len(),
{
    reveal_strlit(",");
    let s = ser_records_legacy(ps) + rest;
    if ps.len() == 1 {
        assert(ser_records_legacy(ps) == ser_record_legacy(ps[0]));
        lemma_parse_record_legacy_inv(ps[0], rest);
        assert(seq![migrated_view(ps[0])] =~= migrated_views(ps));
    } else {
        let tail = ps.drop_first();
        let t2 = ser_records_legacy(tail) + rest;
        let t = ","@ + t2;
        assert(s =~= ser_record_legacy(ps[0]) + t);
        lemma_parse_record_legacy_inv(ps[0], t);
        assert(t[0] == ',');
        assert(t.drop_first() =~= t2);
        lemma_ser_record_first(ps[0]);
        assert(t2.len() < s.len());
        lemma_parse_records_legacy_inv(tail, rest);
        assert(seq![migrated_view(ps[0])] + migrated_views(tail) =~= migrated_views(ps));
    }
}

proof fn lemma_ser_records_first(ps: Seq<PastaView>)
    requires
        ps.len() > 0,
    ensures
        ser_records(ps).len() > 0,
        ser_records(ps)[0] == '{',
        ser_records_legacy(ps).len() > 0,
        ser_records_legacy(ps)[0] == '{',
{
    lemma_ser_record_first(ps[0]);
    if ps.len() == 1 {
    } else {
        assert(ser_records(ps)[0] == ser_record(ps[0])[0]);
        assert(ser_records_legacy(ps)[0] == ser_record_legacy(ps[0])[0]);
    }
}

/// The save/load round trip: parsing the document written for any
/// collection yields exactly that collection, with no record migrated.
pub proof fn lemma_save_load_round_trip(ps: Seq<PastaView>)
    ensures
        spec_parse_collection(ser_collection(ps)) == Some((ps, false)),
{
    reveal_strlit("[");
    reveal_strlit("]");
    let s = ser_collection(ps);
    if ps.len() == 0 {
        assert(ser_records(ps) =~= Seq::<char>::empty());
        assert(s =~= "["@ + "]"@);
        lemma_expect_inv("["@, "]"@);
        assert("]"@[0] == ']');
        assert("]"@.drop_first().len() == 0);
        assert(ps =~= Seq::<PastaView>::empty());
    } else {
        let body = ser_records(ps) + "]"@;
        assert(s =~= "["@ + body);
        lemma_expect_inv("["@, body);
        lemma_ser_records_first(ps);
        assert(body[0] == '{');
        lemma_parse_records_inv(ps, "]"@);
        assert("]"@ + Seq::<char>::empty() =~= "]"@);
        lemma_expect_inv("]"@, Seq::<char>::empty());
    }
}

/// The additive migration: parsing a legacy document, in which no record
/// carries the later `hide_read_count` field, yields the same records with
/// that field backfilled to `false` and every other field unchanged, and
/// reports that a migration happened (for a non-empty collection).
pub proof fn lemma_migration_additive(ps: Seq<PastaView>)
    ensures
        spec_parse_collection(ser_collection_legacy(ps)) == Some(
            (migrated_views(ps), ps.len() > 0),
        ),
{
    reveal_strlit("[");
    reveal_strlit("]");
    let s = ser_collection_legacy(ps);
    if ps.len() == 0 {
        assert(ser_records_legacy(ps) =~= Seq::<char>::empty());
        assert(s =~= "["@ + "]"@);
        lemma_expect_inv("["@, "]"@);
        assert("]"@[0] == ']');
        assert("]"@.drop_first().len() == 0);
        assert(migrated_views(ps) =~= Seq::<PastaView>::empty());
    } else {
        let body = ser_records_legacy(ps) + "]"@;
        assert(s =~= "["@ + body);
        lemma_expect_inv("["@, body);
        lemma_ser_records_first(ps);
        assert(body[0] == '{');
        lemma_parse_records_legacy_inv(ps, "]"@);
        assert("]"@ + Seq::<char>::empty() =~= "]"@);
        lemma_expect_inv("]"@, Seq::<char>::empty());
    }
}

} // verus!
