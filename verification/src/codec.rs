use vstd::prelude::*;
use crate::report::{fields_view, ReportDocument, ReportEntry};
use crate::text::push_char;
use vstd::string::StrSliceExecFns;

verus! {

/// The lower-case hexadecimal digit character for a value between 0 and 15.
pub open spec fn hex_digit(d: int) -> char {
    if d == 0 {
        '0'
    } else if d == 1 {
        '1'
    } else if d == 2 {
        '2'
    } else if d == 3 {
        '3'
    } else if d == 4 {
        '4'
    } else if d == 5 {
        '5'
    } else if d == 6 {
        '6'
    } else if d == 7 {
        '7'
    } else if d == 8 {
        '8'
    } else if d == 9 {
        '9'
    } else if d == 10 {
        'a'
    } else if d == 11 {
        'b'
    } else if d == 12 {
        'c'
    } else if d == 13 {
        'd'
    } else if d == 14 {
        'e'
    } else {
        'f'
    }
}

/// The value of a lower-case hexadecimal digit character; 16 for any other
/// character.
pub open spec fn hex_val(c: char) -> int {
    if c == '0' {
        0
    } else if c == '1' {
        1
    } else if c == '2' {
        2
    } else if c == '3' {
        3
    } else if c == '4' {
        4
    } else if c == '5' {
        5
    } else if c == '6' {
        6
    } else if c == '7' {
        7
    } else if c == '8' {
        8
    } else if c == '9' {
        9
    } else if c == 'a' {
        10
    } else if c == 'b' {
        11
    } else if c == 'c' {
        12
    } else if c == 'd' {
        13
    } else if c == 'e' {
        14
    } else if c == 'f' {
        15
    } else {
        16
    }
}

/// The character with a given code point.
pub open spec fn char_of_code(n: int) -> char {
    (n as u32) as char
}

/// The escaped form of one character of embedded text: backslashes and
/// double quotes are preceded by a backslash, a control character becomes
/// the six-character `\u00` hexadecimal escape, and every other character is
/// kept, so that the serialized document is valid JSON.
pub open spec fn esc_char(c: char) -> Seq<char> {
    if c == '\\' || c == '"' {
        seq!['\\', c]
    } else if (c as u32) < 32 {
        seq!['\\', 'u', '0', '0', hex_digit((c as u32) as int / 16), hex_digit((c as u32) as int % 16)]
    } else {
        seq![c]
    }
}

/// The escaped form of embedded text.
pub open spec fn esc(s: Seq<char>) -> Seq<char>
    decreases s.len(),
{
    if s.len() == 0 {
        Seq::empty()
    } else {
        esc_char(s[0]) + esc(s.drop_first())
    }
}

pub proof fn lemma_esc_push(s: Seq<char>, c: char)
    ensures
        esc(s.push(c)) == esc(s) + esc_char(c),
    decreases s.len(),
{
    if s.len() == 0 {
        assert(s.push(c).drop_first() =~= s);
        assert(s.push(c)[0] == c);
        assert(esc(s.push(c)) =~= esc(s) + esc_char(c));
    } else {
        lemma_esc_push(s.drop_first(), c);
        assert(s.push(c).drop_first() =~= s.drop_first().push(c));
        assert(s.push(c)[0] == s[0]);
        assert(esc_char(s[0]) + (esc(s.drop_first()) + esc_char(c)) =~= (esc_char(s[0]) + esc(
            s.drop_first(),
        )) + esc_char(c));
    }
}

/// The serialized form of one piece of text: the escaped text in double
/// quotes.
pub open spec fn string_text(s: Seq<char>) -> Seq<char> {
    seq!['"'] + esc(s) + seq!['"']
}

/// The serialized form of one field: `"name":"value"`.
pub open spec fn field_text(f: (Seq<char>, Seq<char>)) -> Seq<char> {
    string_text(f.0) + seq![':'] + string_text(f.1)
}

/// The serialized form of a field list after its first field: each further
/// field preceded by a comma.
pub open spec fn fields_text_tail(fs: Seq<(Seq<char>, Seq<char>)>) -> Seq<char>
    decreases fs.len(),
{
    if fs.len() == 0 {
        Seq::empty()
    } else {
        seq![','] + field_text(fs[0]) + fields_text_tail(fs.drop_first())
    }
}

/// The serialized form of a field list: the fields joined by commas.
pub open spec fn fields_text(fs: Seq<(Seq<char>, Seq<char>)>) -> Seq<char> {
    if fs.len() == 0 {
        Seq::empty()
    } else {
        field_text(fs[0]) + fields_text_tail(fs.drop_first())
    }
}

/// The structure of one report entry: its key and its field list.
pub open spec fn entry_view(e: ReportEntry) -> (Seq<char>, Seq<(Seq<char>, Seq<char>)>) {
    (e.key@, fields_view(e.fields@))
}

/// The structure of a report document: its entries in order.
pub open spec fn doc_view(d: ReportDocument) -> Seq<(Seq<char>, Seq<(Seq<char>, Seq<char>)>)> {
    d.entries@.map_values(|e: ReportEntry| entry_view(e))
}

/// The serialized form of one entry: `"key":{fields}`.
pub open spec fn entry_text(e: (Seq<char>, Seq<(Seq<char>, Seq<char>)>)) -> Seq<char> {
    string_text(e.0) + seq![':', '{'] + fields_text(e.1) + seq!['}']
}

/// The serialized form of an entry list after its first entry.
pub open spec fn entries_text_tail(es: Seq<(Seq<char>, Seq<(Seq<char>, Seq<char>)>)>) -> Seq<char>
    decreases es.len(),
{
    if es.len() == 0 {
        Seq::empty()
    } else {
        seq![','] + entry_text(es[0]) + entries_text_tail(es.drop_first())
    }
}

/// The serialized form of an entry list: the entries joined by commas.
pub open spec fn entries_text(es: Seq<(Seq<char>, Seq<(Seq<char>, Seq<char>)>)>) -> Seq<char> {
    if es.len() == 0 {
        Seq::empty()
    } else {
        entry_text(es[0]) + entries_text_tail(es.drop_first())
    }
}

/// The serialized form of a whole report document: one flat JSON object of
/// objects of strings.
pub open spec fn doc_text(es: Seq<(Seq<char>, Seq<(Seq<char>, Seq<char>)>)>) -> Seq<char> {
    seq!['{'] + entries_text(es) + seq!['}']
}

pub proof fn lemma_fields_text_push(fs: Seq<(Seq<char>, Seq<char>)>, f: (Seq<char>, Seq<char>))
    ensures
        fs.len() == 0 ==> fields_text(fs.push(f)) == field_text(f),
        fs.len() > 0 ==> fields_text(fs.push(f)) == fields_text(fs) + seq![','] + field_text(f),
    decreases fs.len(),
{
    if fs.len() == 0 {
        assert(fs.push(f)[0] == f);
        assert(fs.push(f).drop_first() =~= Seq::<(Seq<char>, Seq<char>)>::empty());
        assert(fields_text(fs.push(f)) =~= field_text(f));
    } else {
        lemma_fields_text_tail_push(fs.drop_first(), f);
        assert(fs.push(f).drop_first() =~= fs.drop_first().push(f));
        assert(fs.push(f)[0] == fs[0]);
        assert(field_text(fs[0]) + (fields_text_tail(fs.drop_first()) + seq![','] + field_text(f))
            =~= (field_text(fs[0]) + fields_text_tail(fs.drop_first())) + seq![','] + field_text(
            f,
        ));
    }
}

proof fn lemma_fields_text_tail_push(fs: Seq<(Seq<char>, Seq<char>)>, f: (Seq<char>, Seq<char>))
    ensures
        fields_text_tail(fs.push(f)) == fields_text_tail(fs) + seq![','] + field_text(f),
    decreases fs.len(),
{
    if fs.len() == 0 {
        assert(fs.push(f)[0] == f);
        assert(fs.push(f).drop_first() =~= fs);
        assert(fields_text_tail(fs.push(f)) =~= fields_text_tail(fs) + seq![','] + field_text(f));
    } else {
        lemma_fields_text_tail_push(fs.drop_first(), f);
        assert(fs.push(f).drop_first() =~= fs.drop_first().push(f));
        assert(fs.push(f)[0] == fs[0]);
        assert(seq![','] + field_text(fs[0]) + (fields_text_tail(fs.drop_first()) + seq![',']
            + field_text(f)) =~= (seq![','] + field_text(fs[0]) + fields_text_tail(
            fs.drop_first(),
        )) + seq![','] + field_text(f));
    }
}

pub proof fn lemma_entries_text_push(
    es: Seq<(Seq<char>, Seq<(Seq<char>, Seq<char>)>)>,
    e: (Seq<char>, Seq<(Seq<char>, Seq<char>)>),
)
    ensures
        es.len() == 0 ==> entries_text(es.push(e)) == entry_text(e),
        es.len() > 0 ==> entries_text(es.push(e)) == entries_text(es) + seq![','] + entry_text(e),
    decreases es.len(),
{
    if es.len() == 0 {
        assert(es.push(e)[0] == e);
        assert(es.push(e).drop_first() =~= Seq::<(Seq<char>, Seq<(Seq<char>, Seq<char>)>)>::empty());
        assert(entries_text(es.push(e)) =~= entry_text(e));
    } else {
        lemma_entries_text_tail_push(es.drop_first(), e);
        assert(es.push(e).drop_first() =~= es.drop_first().push(e));
        assert(es.push(e)[0] == es[0]);
        assert(entry_text(es[0]) + (entries_text_tail(es.drop_first()) + seq![','] + entry_text(e))
            =~= (entry_text(es[0]) + entries_text_tail(es.drop_first())) + seq![','] + entry_text(
            e,
        ));
    }
}

proof fn lemma_entries_text_tail_push(
    es: Seq<(Seq<char>, Seq<(Seq<char>, Seq<char>)>)>,
    e: (Seq<char>, Seq<(Seq<char>, Seq<char>)>),
)
    ensures
        entries_text_tail(es.push(e)) == entries_text_tail(es) + seq![','] + entry_text(e),
    decreases es.len(),
{
    if es.len() == 0 {
        assert(es.push(e)[0] == e);
        assert(es.push(e).drop_first() =~= es);
        assert(entries_text_tail(es.push(e)) =~= entries_text_tail(es) + seq![','] + entry_text(e));
    } else {
        lemma_entries_text_tail_push(es.drop_first(), e);
        assert(es.push(e).drop_first() =~= es.drop_first().push(e));
        assert(es.push(e)[0] == es[0]);
        assert(seq![','] + entry_text(es[0]) + (entries_text_tail(es.drop_first()) + seq![',']
            + entry_text(e)) =~= (seq![','] + entry_text(es[0]) + entries_text_tail(
            es.drop_first(),
        )) + seq![','] + entry_text(e));
    }
}

fn hex_digit_to_char(d: u32) -> (c: char)
    requires
        d < 16,
    ensures
        c == hex_digit(d as int),
{
    match d {
        0 => '0',
        1 => '1',
        2 => '2',
        3 => '3',
        4 => '4',
        5 => '5',
        6 => '6',
        7 => '7',
        8 => '8',
        9 => '9',
        10 => 'a',
        11 => 'b',
        12 => 'c',
        13 => 'd',
        14 => 'e',
        _ => 'f',
    }
}

/// Appends the escaped form of a piece of text.
fn append_escaped(out: &mut String, s: &str)
    ensures
        final(out)@ == old(out)@ + esc(s@),
{
    let n = s.unicode_len();
    let mut i: usize = 0;
    assert(old(out)@ + esc(s@.take(0)) =~= old(out)@);
    while i < n
        invariant
            n == s@.len(),
            i <= n,
            out@ == old(out)@ + esc(s@.take(i as int)),
        decreases n - i,
    {
        let c = s.get_char(i);
        if c == '\\' || c == '"' {
            push_char(out, '\\');
            push_char(out, c);
        } else if (c as u32) < 32 {
            push_char(out, '\\');
            push_char(out, 'u');
            push_char(out, '0');
            push_char(out, '0');
            push_char(out, hex_digit_to_char((c as u32) / 16));
            push_char(out, hex_digit_to_char((c as u32) % 16));
        } else {
            push_char(out, c);
        }
        proof {
            lemma_esc_push(s@.take(i as int), s@[i as int]);
            assert(s@.take(i + 1) =~= s@.take(i as int).push(s@[i as int]));
            assert(out@ =~= old(out)@ + (esc(s@.take(i as int)) + esc_char(s@[i as int])));
        }
        i += 1;
    }
    assert(s@.take(n as int) =~= s@);
}

/// Appends the serialized form of one piece of text: quoted and escaped.
fn append_string_text(out: &mut String, s: &str)
    ensures
        final(out)@ == old(out)@ + string_text(s@),
{
    push_char(out, '"');
    append_escaped(out, s);
    push_char(out, '"');
    assert(out@ =~= old(out)@ + string_text(s@));
}

/// Appends the serialized field list of one entry.
fn append_fields(out: &mut String, fields: &Vec<(String, String)>)
    ensures
        final(out)@ == old(out)@ + fields_text(fields_view(fields@)),
{
    let mut i: usize = 0;
    assert(fields_view(fields@.take(0)) =~= Seq::<(Seq<char>, Seq<char>)>::empty());
    while i < fields.len()
        invariant
            i <= fields@.len(),
            out@ == old(out)@ + fields_text(fields_view(fields@.take(i as int))),
        decreases fields@.len() - i,
    {
        if i > 0 {
            push_char(out, ',');
        }
        append_string_text(out, fields[i].0.as_str());
        push_char(out, ':');
        append_string_text(out, fields[i].1.as_str());
        proof {
            let fv = fields_view(fields@.take(i as int));
            let f = (fields@[i as int].0@, fields@[i as int].1@);
            lemma_fields_text_push(fv, f);
            assert(fields_view(fields@.take(i + 1)) =~= fv.push(f));
            if i == 0 {
                assert(out@ =~= old(out)@ + field_text(f));
            } else {
                assert(out@ =~= old(out)@ + (fields_text(fv) + seq![','] + field_text(f)));
            }
        }
        i += 1;
    }
    assert(fields@.take(fields@.len() as int) =~= fields@);
}

/// Serializes a report document as one flat JSON object of objects of
/// strings, with embedded text escaped.
pub fn serialize_document(d: &ReportDocument) -> (r: String)
    ensures
        r@ == doc_text(doc_view(*d)),
{
    let mut out = String::new();
    push_char(&mut out, '{');
    let mut i: usize = 0;
    assert(doc_view(*d).take(0) =~= Seq::<(Seq<char>, Seq<(Seq<char>, Seq<char>)>)>::empty());
    assert(out@ =~= seq!['{'] + entries_text(doc_view(*d).take(0)));
    while i < d.entries.len()
        invariant
            i <= d.entries@.len(),
            out@ == seq!['{'] + entries_text(doc_view(*d).take(i as int)),
        decreases d.entries@.len() - i,
    {
        if i > 0 {
            push_char(&mut out, ',');
        }
        let entry = &d.entries[i];
        append_string_text(&mut out, entry.key.as_str());
        push_char(&mut out, ':');
        push_char(&mut out, '{');
        append_fields(&mut out, &entry.fields);
        push_char(&mut out, '}');
        proof {
            let ev = doc_view(*d).take(i as int);
            let e = entry_view(d.entries@[i as int]);
            lemma_entries_text_push(ev, e);
            assert(doc_view(*d).take(i + 1) =~= ev.push(e));
            if i == 0 {
                assert(out@ =~= seq!['{'] + entry_text(e));
            } else {
                assert(out@ =~= seq!['{'] + (entries_text(ev) + seq![','] + entry_text(e)));
            }
        }
        i += 1;
    }
    push_char(&mut out, '}');
    proof {
        assert(doc_view(*d).take(d.entries@.len() as int) =~= doc_view(*d));
        assert(out@ =~= doc_text(doc_view(*d)));
    }
    out
}


/// Parses the escaped body of a serialized string up to its closing quote:
/// the decoded text and the remaining input.
pub open spec fn p_strbody(s: Seq<char>) -> Option<(Seq<char>, Seq<char>)>
    decreases s.len(),
{
    if s.len() == 0 {
        None
    } else if s[0] == '"' {
        Some((Seq::empty(), s.skip(1)))
    } else if s[0] == '\\' {
        if s.len() >= 2 && (s[1] == '\\' || s[1] == '"') {
            match p_strbody(s.skip(2)) {
                Some((t, r)) => Some((seq![s[1]] + t, r)),
                None => None,
            }
        } else if s.len() >= 6 && s[1] == 'u' && s[2] == '0' && s[3] == '0' && hex_val(s[4]) < 16
            && hex_val(s[5]) < 16 && hex_val(s[4]) * 16 + hex_val(s[5]) < 32 {
            match p_strbody(s.skip(6)) {
                Some((t, r)) => Some((seq![char_of_code(hex_val(s[4]) * 16 + hex_val(s[5]))] + t, r)),
                None => None,
            }
        } else {
            None
        }
    } else {
        match p_strbody(s.skip(1)) {
            Some((t, r)) => Some((seq![s[0]] + t, r)),
            None => None,
        }
    }
}

/// Parses one serialized string: the decoded text and the remaining input.
pub open spec fn p_string(s: Seq<char>) -> Option<(Seq<char>, Seq<char>)> {
    if s.len() > 0 && s[0] == '"' {
        p_strbody(s.skip(1))
    } else {
        None
    }
}

/// Parses one serialized field: `"name":"value"`.
pub open spec fn p_field(s: Seq<char>) -> Option<((Seq<char>, Seq<char>), Seq<char>)> {
    match p_string(s) {
        None => None,
        Some((k, r)) => if r.len() > 0 && r[0] == ':' {
            match p_string(r.skip(1)) {
                None => None,
                Some((v, r2)) => Some(((k, v), r2)),
            }
        } else {
            None
        },
    }
}

/// Parses the rest of a field list up to its closing brace. The fuel `n`
/// bounds how many further fields may follow.
pub open spec fn p_fields_tail(s: Seq<char>, n: nat) -> Option<
    (Seq<(Seq<char>, Seq<char>)>, Seq<char>),
>
    decreases n,
{
    if s.len() > 0 && s[0] == '}' {
        Some((Seq::empty(), s.skip(1)))
    } else if s.len() > 0 && s[0] == ',' && n > 0 {
        match p_field(s.skip(1)) {
            None => None,
            Some((f, r)) => match p_fields_tail(r, (n - 1) as nat) {
                None => None,
                Some((fs, r2)) => Some((seq![f] + fs, r2)),
            },
        }
    } else {
        None
    }
}

/// Parses a field list up to its closing brace.
pub open spec fn p_fields(s: Seq<char>, n: nat) -> Option<
    (Seq<(Seq<char>, Seq<char>)>, Seq<char>),
> {
    if s.len() > 0 && s[0] == '}' {
        Some((Seq::empty(), s.skip(1)))
    } else {
        match p_field(s) {
            None => None,
            Some((f, r)) => match p_fields_tail(r, n) {
                None => None,
                Some((fs, r2)) => Some((seq![f] + fs, r2)),
            },
        }
    }
}

/// Parses one serialized entry: `"key":{fields}`.
pub open spec fn p_entry(s: Seq<char>, n: nat) -> Option<
    ((Seq<char>, Seq<(Seq<char>, Seq<char>)>), Seq<char>),
> {
    match p_string(s) {
        None => None,
        Some((k, r)) => if r.len() >= 2 && r[0] == ':' && r[1] == '{' {
            match p_fields(r.skip(2), n) {
                None => None,
                Some((fs, r2)) => Some(((k, fs), r2)),
            }
        } else {
            None
        },
    }
}

/// Parses the rest of an entry list up to the document's closing brace.
pub open spec fn p_entries_tail(s: Seq<char>, n: nat) -> Option<
    (Seq<(Seq<char>, Seq<(Seq<char>, Seq<char>)>)>, Seq<char>),
>
    decreases n,
{
    if s.len() > 0 && s[0] == '}' {
        Some((Seq::empty(), s.skip(1)))
    } else if s.len() > 0 && s[0] == ',' && n > 0 {
        match p_entry(s.skip(1), n) {
            None => None,
            Some((e, r)) => match p_entries_tail(r, (n - 1) as nat) {
                None => None,
                Some((es, r2)) => Some((seq![e] + es, r2)),
            },
        }
    } else {
        None
    }
}

/// Parses an entry list up to the document's closing brace.
pub open spec fn p_entries(s: Seq<char>, n: nat) -> Option<
    (Seq<(Seq<char>, Seq<(Seq<char>, Seq<char>)>)>, Seq<char>),
> {
    if s.len() > 0 && s[0] == '}' {
        Some((Seq::empty(), s.skip(1)))
    } else {
        match p_entry(s, n) {
            None => None,
            Some((e, r)) => match p_entries_tail(r, n) {
                None => None,
                Some((es, r2)) => Some((seq![e] + es, r2)),
            },
        }
    }
}

/// Parses a whole serialized report document, demanding that the text is
/// consumed completely.
pub open spec fn p_doc(s: Seq<char>, n: nat) -> Option<
    Seq<(Seq<char>, Seq<(Seq<char>, Seq<char>)>)>,
> {
    if s.len() > 0 && s[0] == '{' {
        match p_entries(s.skip(1), n) {
            None => None,
            Some((es, r)) => if r.len() == 0 {
                Some(es)
            } else {
                None
            },
        }
    } else {
        None
    }
}

proof fn lemma_strbody_complete(t: Seq<char>, rest: Seq<char>)
    ensures
        p_strbody(esc(t) + seq!['"'] + rest) == Some((t, rest)),
    decreases t.len(),
{
    let s = esc(t) + seq!['"'] + rest;
    if t.len() == 0 {
        assert(s[0] == '"');
        assert(s.skip(1) =~= rest);
        assert(t =~= Seq::<char>::empty());
    } else {
        let t1 = t.drop_first();
        lemma_strbody_complete(t1, rest);
        assert(esc(t) == esc_char(t[0]) + esc(t1));
        if t[0] == '\\' || t[0] == '"' {
            assert(s[0] == '\\');
            assert(s[1] == t[0]);
            assert(s.len() >= 2);
            assert(s.skip(2) =~= esc(t1) + seq!['"'] + rest);
            assert(p_strbody(s) == Some((seq![t[0]] + t1, rest)));
            assert(seq![t[0]] + t1 =~= t);
        } else if (t[0] as u32) < 32 {
            let code = (t[0] as u32) as int;
            assert(s[0] == '\\');
            assert(s[1] == 'u');
            assert(s[2] == '0');
            assert(s[3] == '0');
            assert(s[4] == hex_digit(code / 16));
            assert(s[5] == hex_digit(code % 16));
            assert(s.len() >= 6);
            assert(hex_val(hex_digit(code / 16)) == code / 16);
            assert(hex_val(hex_digit(code % 16)) == code % 16);
            assert(hex_val(s[4]) * 16 + hex_val(s[5]) == code);
            let u: u32 = t[0] as u32;
            assert(code as u32 == u);
            vstd::utf8::char_u32_cast(t[0], u);
            assert(char_of_code(code) == t[0]);
            assert(s.skip(6) =~= esc(t1) + seq!['"'] + rest);
            assert(p_strbody(s) == Some((seq![t[0]] + t1, rest)));
            assert(seq![t[0]] + t1 =~= t);
        } else {
            assert(s[0] == t[0]);
            assert(s.skip(1) =~= esc(t1) + seq!['"'] + rest);
            assert(p_strbody(s) == Some((seq![t[0]] + t1, rest)));
            assert(seq![t[0]] + t1 =~= t);
        }
    }
}

proof fn lemma_string_complete(t: Seq<char>, rest: Seq<char>)
    ensures
        p_string(string_text(t) + rest) == Some((t, rest)),
{
    let s = string_text(t) + rest;
    assert(s[0] == '"');
    assert(s.skip(1) =~= esc(t) + seq!['"'] + rest);
    lemma_strbody_complete(t, rest);
}

proof fn lemma_field_complete(f: (Seq<char>, Seq<char>), rest: Seq<char>)
    ensures
        p_field(field_text(f) + rest) == Some((f, rest)),
{
    let s = field_text(f) + rest;
    let mid = seq![':'] + string_text(f.1) + rest;
    assert(s =~= string_text(f.0) + mid);
    lemma_string_complete(f.0, mid);
    assert(mid[0] == ':');
    assert(mid.skip(1) =~= string_text(f.1) + rest);
    lemma_string_complete(f.1, rest);
}

proof fn lemma_fields_tail_complete(fs: Seq<(Seq<char>, Seq<char>)>, rest: Seq<char>, n: nat)
    requires
        n >= fs.len(),
    ensures
        p_fields_tail(fields_text_tail(fs) + seq!['}'] + rest, n) == Some((fs, rest)),
    decreases fs.len(),
{
    let s = fields_text_tail(fs) + seq!['}'] + rest;
    if fs.len() == 0 {
        assert(s[0] == '}');
        assert(s.skip(1) =~= rest);
        assert(fs =~= Seq::<(Seq<char>, Seq<char>)>::empty());
    } else {
        let f0 = fs[0];
        let fs1 = fs.drop_first();
        assert(s[0] == ',');
        let after = fields_text_tail(fs1) + seq!['}'] + rest;
        assert(s.skip(1) =~= field_text(f0) + after);
        lemma_field_complete(f0, after);
        lemma_fields_tail_complete(fs1, rest, (n - 1) as nat);
        assert(p_fields_tail(s, n) == Some((seq![f0] + fs1, rest)));
        assert(seq![f0] + fs1 =~= fs);
    }
}

proof fn lemma_fields_complete(fs: Seq<(Seq<char>, Seq<char>)>, rest: Seq<char>, n: nat)
    requires
        n >= fs.len(),
    ensures
        p_fields(fields_text(fs) + seq!['}'] + rest, n) == Some((fs, rest)),
{
    let s = fields_text(fs) + seq!['}'] + rest;
    if fs.len() == 0 {
        assert(s[0] == '}');
        assert(s.skip(1) =~= rest);
        assert(fs =~= Seq::<(Seq<char>, Seq<char>)>::empty());
    } else {
        let f0 = fs[0];
        let fs1 = fs.drop_first();
        assert(s[0] == '"');
        let after = fields_text_tail(fs1) + seq!['}'] + rest;
        assert(s =~= field_text(f0) + after);
        lemma_field_complete(f0, after);
        lemma_fields_tail_complete(fs1, rest, n);
        assert(p_fields(s, n) == Some((seq![f0] + fs1, rest)));
        assert(seq![f0] + fs1 =~= fs);
    }
}

proof fn lemma_entry_complete(
    e: (Seq<char>, Seq<(Seq<char>, Seq<char>)>),
    rest: Seq<char>,
    n: nat,
)
    requires
        n >= e.1.len(),
    ensures
        p_entry(entry_text(e) + rest, n) == Some((e, rest)),
{
    let s = entry_text(e) + rest;
    let mid = seq![':', '{'] + fields_text(e.1) + seq!['}'] + rest;
    assert(s =~= string_text(e.0) + mid);
    lemma_string_complete(e.0, mid);
    assert(mid.len() >= 2);
    assert(mid[0] == ':');
    assert(mid[1] == '{');
    assert(mid.skip(2) =~= fields_text(e.1) + seq!['}'] + rest);
    lemma_fields_complete(e.1, rest, n);
    assert(p_entry(s, n) == Some(((e.0, e.1), rest)));
    assert((e.0, e.1) == e);
}

/// How many entries and fields a document holds, plus one per entry: a
/// sufficient parsing fuel.
pub open spec fn entries_fuel(es: Seq<(Seq<char>, Seq<(Seq<char>, Seq<char>)>)>) -> nat
    decreases es.len(),
{
    if es.len() == 0 {
        0
    } else {
        1 + es[0].1.len() + entries_fuel(es.drop_first())
    }
}

proof fn lemma_entries_fuel_bounds(es: Seq<(Seq<char>, Seq<(Seq<char>, Seq<char>)>)>)
    ensures
        entries_fuel(es) >= es.len(),
        forall|i: int|
            0 <= i < es.len() ==> entries_fuel(es) >= es.len() + (#[trigger] es[i]).1.len(),
    decreases es.len(),
{
    if es.len() > 0 {
        let es1 = es.drop_first();
        lemma_entries_fuel_bounds(es1);
        assert(forall|i: int| 1 <= i < es.len() ==> es[i] == es1[i - 1]);
    }
}

proof fn lemma_entries_tail_complete(
    es: Seq<(Seq<char>, Seq<(Seq<char>, Seq<char>)>)>,
    rest: Seq<char>,
    n: nat,
)
    requires
        n >= es.len(),
        forall|i: int| 0 <= i < es.len() ==> n >= es.len() + (#[trigger] es[i]).1.len(),
    ensures
        p_entries_tail(entries_text_tail(es) + seq!['}'] + rest, n) == Some((es, rest)),
    decreases es.len(),
{
    let s = entries_text_tail(es) + seq!['}'] + rest;
    if es.len() == 0 {
        assert(s[0] == '}');
        assert(s.skip(1) =~= rest);
        assert(es =~= Seq::<(Seq<char>, Seq<(Seq<char>, Seq<char>)>)>::empty());
    } else {
        let e0 = es[0];
        let es1 = es.drop_first();
        assert(s[0] == ',');
        let after = entries_text_tail(es1) + seq!['}'] + rest;
        assert(s.skip(1) =~= entry_text(e0) + after);
        lemma_entry_complete(e0, after, n);
        assert(forall|i: int| 0 <= i < es1.len() ==> es1[i] == es[i + 1]);
        lemma_entries_tail_complete(es1, rest, (n - 1) as nat);
        assert(p_entries_tail(s, n) == Some((seq![e0] + es1, rest)));
        assert(seq![e0] + es1 =~= es);
    }
}

proof fn lemma_entries_complete(
    es: Seq<(Seq<char>, Seq<(Seq<char>, Seq<char>)>)>,
    rest: Seq<char>,
    n: nat,
)
    requires
        n >= es.len(),
        forall|i: int| 0 <= i < es.len() ==> n >= es.len() + (#[trigger] es[i]).1.len(),
    ensures
        p_entries(entries_text(es) + seq!['}'] + rest, n) == Some((es, rest)),
{
    let s = entries_text(es) + seq!['}'] + rest;
    if es.len() == 0 {
        assert(s[0] == '}');
        assert(s.skip(1) =~= rest);
        assert(es =~= Seq::<(Seq<char>, Seq<(Seq<char>, Seq<char>)>)>::empty());
    } else {
        let e0 = es[0];
        let es1 = es.drop_first();
        assert(s[0] == '"');
        let after = entries_text_tail(es1) + seq!['}'] + rest;
        assert(s =~= entry_text(e0) + after);
        lemma_entry_complete(e0, after, n);
        assert(forall|i: int| 0 <= i < es1.len() ==> es1[i] == es[i + 1]);
        lemma_entries_tail_complete(es1, rest, n);
        assert(p_entries(s, n) == Some((seq![e0] + es1, rest)));
        assert(seq![e0] + es1 =~= es);
    }
}

/// Round trip: parsing the serialized text of a report document yields
/// exactly that document's structure, with any fuel at least the
/// document's own.
pub proof fn lemma_parse_round_trip(es: Seq<(Seq<char>, Seq<(Seq<char>, Seq<char>)>)>, n: nat)
    requires
        n >= entries_fuel(es),
    ensures
        p_doc(doc_text(es), n) == Some(es),
{
    let s = doc_text(es);
    lemma_entries_fuel_bounds(es);
    assert(s[0] == '{');
    assert(s.skip(1) =~= entries_text(es) + seq!['}'] + Seq::<char>::empty());
    lemma_entries_complete(es, Seq::empty(), n);
}

/// No data loss through serialization: two report documents with the same
/// serialized text are structurally equal.
pub proof fn lemma_doc_text_injective(
    a: Seq<(Seq<char>, Seq<(Seq<char>, Seq<char>)>)>,
    b: Seq<(Seq<char>, Seq<(Seq<char>, Seq<char>)>)>,
)
    requires
        doc_text(a) == doc_text(b),
    ensures
        a == b,
{
    let n = entries_fuel(a) + entries_fuel(b);
    lemma_parse_round_trip(a, n);
    lemma_parse_round_trip(b, n);
}


} // verus!
