//! Serialization of the record collection into its on-disk document: a
//! compact JSON array of record objects, with the fields of every record in
//! a fixed order. The spec functions here define the document format; the
//! executable writer is proved to emit exactly that format, and the parser
//! (`crate::parse`) is proved to read it back (`crate::codec_laws`).

use vstd::prelude::*;

use crate::pasta::{Pasta, PastaView};

verus! {

/// The decimal digit character for `d` (`d < 10`).
pub open spec fn digit_char(d: nat) -> char {
    if d == 0 {
        '0'
    } else if d == 1 {
        '1'
    } else if d == 2 {
        '2'
    } else if d == 3 {
        '3'
    } else if d == 4 {
        '4'
    } else if d == 5 {
        '5'
    } else if d == 6 {
        '6'
    } else if d == 7 {
        '7'
    } else if d == 8 {
        '8'
    } else {
        '9'
    }
}

/// The decimal digits of `n`, most significant first, without leading
/// zeroes (`0` itself is written as one digit).
pub open spec fn dec_of_u64(n: nat) -> Seq<char>
    decreases n,
{
    if n < 10 {
        seq![digit_char(n)]
    } else {
        dec_of_u64(n / 10).push(digit_char(n % 10))
    }
}

/// A possibly signed decimal number: a leading minus sign when negative.
pub open spec fn dec_of_i64(n: int) -> Seq<char> {
    if n >= 0 {
        dec_of_u64(n as nat)
    } else {
        "-"@ + dec_of_u64((-n) as nat)
    }
}

/// How one character is written inside a quoted string: quote and backslash
/// get a backslash escape, every other character stands for itself.
pub open spec fn esc_char(c: char) -> Seq<char> {
    if c == '"' {
        seq!['\\', '"']
    } else if c == '\\' {
        seq!['\\', '\\']
    } else {
        seq![c]
    }
}

/// A string body with every character escaped as `esc_char` says.
pub open spec fn escaped(s: Seq<char>) -> Seq<char>
    decreases s.len(),
{
    if s.len() == 0 {
        Seq::empty()
    } else {
        esc_char(s[0]) + escaped(s.drop_first())
    }
}

/// A quoted, escaped string.
pub open spec fn quoted(s: Seq<char>) -> Seq<char> {
    "\""@ + escaped(s) + "\""@
}

/// A boolean, written `true` or `false`.
pub open spec fn bool_part(b: bool) -> Seq<char> {
    if b {
        "true"@
    } else {
        "false"@
    }
}

/// An optional string, written `null` or quoted.
pub open spec fn opt_part(o: Option<Seq<char>>) -> Seq<char> {
    match o {
        None => "null"@,
        Some(s) => quoted(s),
    }
}

/// An optional attachment, written `null` or as an object holding the
/// stored file name.
pub open spec fn file_part(o: Option<Seq<char>>) -> Seq<char> {
    match o {
        None => "null"@,
        Some(name) => "{\"name\":"@ + quoted(name) + "}"@,
    }
}

/// Identity, content and attachment of a record.
pub open spec fn ser_fields_a(p: PastaView) -> Seq<char> {
    "{\"id\":"@ + dec_of_u64(p.id as nat) + ",\"content\":"@ + quoted(p.content) + ",\"file\":"@
        + file_part(p.file)
}

/// Extension and the visibility/access flags of a record.
pub open spec fn ser_fields_b(p: PastaView) -> Seq<char> {
    ",\"extension\":"@ + quoted(p.extension) + ",\"private\":"@ + bool_part(p.private)
        + ",\"readonly\":"@ + bool_part(p.readonly) + ",\"editable\":"@ + bool_part(p.editable)
        + ",\"encrypt_server\":"@ + bool_part(p.encrypt_server) + ",\"encrypt_client\":"@
        + bool_part(p.encrypt_client)
}

/// Key material, lifecycle timestamps, counters and kind of a record.
pub open spec fn ser_fields_c(p: PastaView) -> Seq<char> {
    ",\"encrypted_key\":"@ + opt_part(p.encrypted_key) + ",\"created\":"@ + dec_of_i64(
        p.created as int,
    ) + ",\"expiration\":"@ + dec_of_i64(p.expiration as int) + ",\"last_read\":"@ + dec_of_i64(
        p.last_read as int,
    ) + ",\"read_count\":"@ + dec_of_u64(p.read_count as nat) + ",\"burn_after_reads\":"@
        + dec_of_u64(p.burn_after_reads as nat) + ",\"pasta_type\":"@ + quoted(p.pasta_type)
}

/// Every field of a record up to and including `pasta_type`: the part of
/// the record object that every schema version shares.
pub open spec fn ser_record_common(p: PastaView) -> Seq<char> {
    ser_fields_a(p) + ser_fields_b(p) + ser_fields_c(p)
}

/// One record object in the current schema.
pub open spec fn ser_record(p: PastaView) -> Seq<char> {
    ser_record_common(p) + ",\"hide_read_count\":"@ + bool_part(p.hide_read_count) + "}"@
}

/// One record object as a legacy schema wrote it, before the
/// `hide_read_count` field existed. Only the shared fields appear.
pub open spec fn ser_record_legacy(p: PastaView) -> Seq<char> {
    ser_record_common(p) + "}"@
}

/// A non-empty run of record objects, separated by commas.
pub open spec fn ser_records(ps: Seq<PastaView>) -> Seq<char>
    decreases ps.len(),
{
    if ps.len() == 0 {
        Seq::empty()
    } else if ps.len() == 1 {
        ser_record(ps[0])
    } else {
        ser_record(ps[0]) + ","@ + ser_records(ps.drop_first())
    }
}

/// The whole on-disk document: an array of record objects.
pub open spec fn ser_collection(ps: Seq<PastaView>) -> Seq<char> {
    "["@ + ser_records(ps) + "]"@
}

/// A non-empty run of legacy record objects, separated by commas.
pub open spec fn ser_records_legacy(ps: Seq<PastaView>) -> Seq<char>
    decreases ps.len(),
{
    if ps.len() == 0 {
        Seq::empty()
    } else if ps.len() == 1 {
        ser_record_legacy(ps[0])
    } else {
        ser_record_legacy(ps[0]) + ","@ + ser_records_legacy(ps.drop_first())
    }
}

/// A whole document as a legacy schema wrote it.
pub open spec fn ser_collection_legacy(ps: Seq<PastaView>) -> Seq<char> {
    "["@ + ser_records_legacy(ps) + "]"@
}

/// The decimal digit for `d` as a one-character string slice.
fn digit_str(d: u64) -> (s: &'static str)
    requires
        d < 10,
    ensures
        s@ == seq![digit_char(d as nat)],
{
    let s: &'static str = match d {
        0 => "0",
        1 => "1",
        2 => "2",
        3 => "3",
        4 => "4",
        5 => "5",
        6 => "6",
        7 => "7",
        8 => "8",
        _ => "9",
    };
    proof {
        reveal_strlit("0");
        reveal_strlit("1");
        reveal_strlit("2");
        reveal_strlit("3");
        reveal_strlit("4");
        reveal_strlit("5");
        reveal_strlit("6");
        reveal_strlit("7");
        reveal_strlit("8");
        reveal_strlit("9");
        assert(s@ =~= seq![digit_char(d as nat)]);
    }
    s
}

/// Appends the decimal digits of `n`.
fn write_u64(out: &mut String, n: u64)
    ensures
        final(out)@ == old(out)@ + dec_of_u64(n as nat),
    decreases n,
{
    if n < 10 {
        out.append(digit_str(n));
    } else {
        write_u64(out, n / 10);
        out.append(digit_str(n % 10));
    }
    assert(final(out)@ =~= old(out)@ + dec_of_u64(n as nat));
}

/// Appends a possibly signed decimal number.
fn write_i64(out: &mut String, n: i64)
    ensures
        final(out)@ == old(out)@ + dec_of_i64(n as int),
{
    if n >= 0 {
        write_u64(out, n as u64);
    } else {
        out.append("-");
        let mag: u64 = ((-(n + 1)) as u64) + 1;
        assert(mag as nat == (-(n as int)) as nat);
        write_u64(out, mag);
        assert(final(out)@ =~= old(out)@ + dec_of_i64(n as int));
    }
}

proof fn lemma_escaped_push(s: Seq<char>, c: char)
    ensures
        escaped(s.push(c)) == escaped(s) + esc_char(c),
    decreases s.len(),
{
    if s.len() == 0 {
        assert(s.push(c)[0] == c);
        assert(s.push(c).drop_first() =~= Seq::<char>::empty());
        assert(escaped(Seq::<char>::empty()) =~= Seq::<char>::empty());
        assert(escaped(s.push(c)) =~= escaped(s) + esc_char(c));
    } else {
        assert(s.push(c)[0] == s[0]);
        assert(s.push(c).drop_first() =~= s.drop_first().push(c));
        lemma_escaped_push(s.drop_first(), c);
        assert(escaped(s.push(c)) =~= escaped(s) + esc_char(c));
    }
}

/// Appends the escaped body of a string.
fn write_escaped(out: &mut String, s: &str)
    ensures
        final(out)@ == old(out)@ + escaped(s@),
{
    let len = s.unicode_len();
    let mut i: usize = 0;
    proof {
        assert(s@.subrange(0, 0) =~= Seq::<char>::empty());
        assert(escaped(s@.subrange(0, 0)) =~= Seq::<char>::empty());
        assert(out@ =~= old(out)@ + escaped(s@.subrange(0, 0)));
    }
    while i < len
        invariant
            i <= len,
            len == s@.len(),
            out@ == old(out)@ + escaped(s@.subrange(0, i as int)),
        decreases len - i,
    {
        let c = s.get_char(i);
        if c == '"' {
            out.append("\\\"");
            proof {
                reveal_strlit("\\\"");
                assert("\\\""@ =~= esc_char(c));
            }
        } else if c == '\\' {
            out.append("\\\\");
            proof {
                reveal_strlit("\\\\");
                assert("\\\\"@ =~= esc_char(c));
            }
        } else {
            let piece = s.substring_char(i, i + 1);
            out.append(piece);
            proof {
                assert(piece@ =~= esc_char(c));
            }
        }
        proof {
            assert(s@.subrange(0, i + 1) =~= s@.subrange(0, i as int).push(c));
            lemma_escaped_push(s@.subrange(0, i as int), c);
            assert(out@ =~= old(out)@ + escaped(s@.subrange(0, i + 1)));
        }
        i = i + 1;
    }
    proof {
        assert(s@.subrange(0, len as int) =~= s@);
    }
}

/// Appends a quoted, escaped string.
fn write_quoted(out: &mut String, s: &str)
    ensures
        final(out)@ == old(out)@ + quoted(s@),
{
    out.append("\"");
    write_escaped(out, s);
    out.append("\"");
    assert(final(out)@ =~= old(out)@ + quoted(s@));
}

/// Appends `true` or `false`.
fn write_bool(out: &mut String, b: bool)
    ensures
        final(out)@ == old(out)@ + bool_part(b),
{
    if b {
        out.append("true");
    } else {
        out.append("false");
    }
}

/// Appends an optional string as `null` or quoted.
fn write_opt(out: &mut String, o: &Option<String>)
    ensures
        final(out)@ == old(out)@ + opt_part(
            match *o {
                None => None,
                Some(s) => Some(s@),
            },
        ),
{
    match o {
        None => out.append("null"),
        Some(s) => write_quoted(out, s.as_str()),
    }
}

/// Appends an optional attachment as `null` or a one-field object.
fn write_file(out: &mut String, o: &Option<crate::pasta::PastaFile>)
    ensures
        final(out)@ == old(out)@ + file_part(
            match *o {
                None => None,
                Some(f) => Some(f.name@),
            },
        ),
{
    match o {
        None => out.append("null"),
        Some(f) => {
            out.append("{\"name\":");
            write_quoted(out, f.name.as_str());
            out.append("}");
            assert(final(out)@ =~= old(out)@ + file_part(Some(f.name@)));
        },
    }
}

fn write_fields_a(out: &mut String, p: &Pasta)
    ensures
        final(out)@ == old(out)@ + ser_fields_a(p@),
{
    out.append("{\"id\":");
    write_u64(out, p.id);
    out.append(",\"content\":");
    write_quoted(out, p.content.as_str());
    out.append(",\"file\":");
    write_file(out, &p.file);
    assert(final(out)@ =~= old(out)@ + ser_fields_a(p@));
}

#[verifier::rlimit(100)]
fn write_fields_b(out: &mut String, p: &Pasta)
    ensures
        final(out)@ == old(out)@ + ser_fields_b(p@),
{
    out.append(",\"extension\":");
    write_quoted(out, p.extension.as_str());
    out.append(",\"private\":");
    write_bool(out, p.private);
    out.append(",\"readonly\":");
    write_bool(out, p.readonly);
    out.append(",\"editable\":");
    write_bool(out, p.editable);
    out.append(",\"encrypt_server\":");
    write_bool(out, p.encrypt_server);
    out.append(",\"encrypt_client\":");
    write_bool(out, p.encrypt_client);
    assert(final(out)@ =~= old(out)@ + ser_fields_b(p@));
}

#[verifier::rlimit(50)]
fn write_fields_c(out: &mut String, p: &Pasta)
    ensures
        final(out)@ == old(out)@ + ser_fields_c(p@),
{
    out.append(",\"encrypted_key\":");
    write_opt(out, &p.encrypted_key);
    out.append(",\"created\":");
    write_i64(out, p.created);
    out.append(",\"expiration\":");
    write_i64(out, p.expiration);
    out.append(",\"last_read\":");
    write_i64(out, p.last_read);
    out.append(",\"read_count\":");
    write_u64(out, p.read_count);
    out.append(",\"burn_after_reads\":");
    write_u64(out, p.burn_after_reads);
    out.append(",\"pasta_type\":");
    write_quoted(out, p.pasta_type.as_str());
    assert(final(out)@ =~= old(out)@ + ser_fields_c(p@));
}

/// Appends one record object in the current schema.
fn write_record(out: &mut String, p: &Pasta)
    ensures
        final(out)@ == old(out)@ + ser_record(p@),
{
    write_fields_a(out, p);
    write_fields_b(out, p);
    write_fields_c(out, p);
    out.append(",\"hide_read_count\":");
    write_bool(out, p.hide_read_count);
    out.append("}");
    assert(final(out)@ =~= old(out)@ + ser_record(p@));
}

#[verifier::rlimit(50)]
proof fn lemma_ser_records_push(s: Seq<PastaView>, x: PastaView)
    ensures
        ser_records(s.push(x)) == (if s.len() == 0 {
            ser_record(x)
        } else {
            ser_records(s) + ","@ + ser_record(x)
        }),
    decreases s.len(),
{
    if s.len() == 0 {
        assert(s.push(x)[0] == x);
        assert(ser_records(s.push(x)) =~= ser_record(x));
    } else if s.len() == 1 {
        assert(s.push(x).drop_first() =~= seq![x]);
        assert(ser_records(seq![x]) == ser_record(x));
        assert(ser_records(s.push(x)) =~= ser_records(s) + ","@ + ser_record(x));
    } else {
        assert(s.push(x).drop_first() =~= s.drop_first().push(x));
        lemma_ser_records_push(s.drop_first(), x);
        assert(ser_records(s.push(x)) =~= ser_records(s) + ","@ + ser_record(x));
    }
}

/// Serializes the whole collection into its on-disk document. This is the
/// computing half of `save`: the caller writes the returned document to a
/// temporary file and atomically renames it over the canonical one.
pub fn serialize_collection(pastas: &Vec<Pasta>) -> (doc: String)
    ensures
        doc@ == ser_collection(crate::pasta::views_of(pastas@)),
{
    let ghost views = crate::pasta::views_of(pastas@);
    let mut out = String::new();
    out.append("[");
    let n = pastas.len();
    let mut i: usize = 0;
    proof {
        assert(views.take(0) =~= Seq::<PastaView>::empty());
        assert(out@ =~= "["@ + ser_records(views.take(0)));
    }
    while i < n
        invariant
            i <= n,
            n == pastas@.len(),
            views == crate::pasta::views_of(pastas@),
            views.len() == n,
            out@ == "["@ + ser_records(views.take(i as int)),
        decreases n - i,
    {
        if i > 0 {
            out.append(",");
        }
        write_record(&mut out, &pastas[i]);
        proof {
            assert(views.take(i + 1) =~= views.take(i as int).push(views[i as int]));
            lemma_ser_records_push(views.take(i as int), views[i as int]);
            assert(out@ =~= "["@ + ser_records(views.take(i + 1)));
        }
        i = i + 1;
    }
    out.append("]");
    proof {
        assert(views.take(n as int) =~= views);
        assert(out@ =~= ser_collection(views));
    }
    out
}

} // verus!
