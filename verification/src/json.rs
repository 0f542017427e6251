//! A JSON codec for flat objects: fields holding null, booleans, integers
//! or plain text. The encoder prints the compact form; the parser reads
//! exactly that form back, and the two are proved to round-trip. Nested
//! values, fractions and escaped text are outside this adapter: the parser
//! reports them as undecodable rather than guessing.
use vstd::prelude::*;
use crate::num::{
    all_digits, dec_digits, dec_val, int_chars, int_to_string, is_digit, lemma_dec_digits_val,
    parse_u64,
};

verus! {

/// One JSON field value: null, a boolean, an integer, or text.
#[derive(Clone, PartialEq, Eq, Debug)]
pub enum JsonValue {
    Null,
    Bool(bool),
    Int(i64),
    Text(String),
}

/// Representation of a field value.
pub enum JsonRep {
    Null,
    Bool(bool),
    Int(i64),
    Text(Seq<char>),
}

impl DeepView for JsonValue {
    type V = JsonRep;

    open spec fn deep_view(&self) -> JsonRep {
        match self {
            JsonValue::Null => JsonRep::Null,
            JsonValue::Bool(b) => JsonRep::Bool(*b),
            JsonValue::Int(n) => JsonRep::Int(*n),
            JsonValue::Text(s) => JsonRep::Text(s@),
        }
    }
}

/// Representation of a flat object: its fields in order.
pub type FieldsRep = Seq<(Seq<char>, JsonRep)>;

/// Whether a character may stand in carried text: anything but the quote,
/// the backslash, and control characters, which would need escaping.
pub open spec fn wf_text_char(c: char) -> bool {
    c != '"' && c != '\\' && c as u32 >= 32
}

/// Whether text can be carried without escaping.
pub open spec fn wf_text(s: Seq<char>) -> bool {
    forall|i: int| 0 <= i < s.len() ==> wf_text_char(#[trigger] s[i])
}

/// Whether a value can be carried.
pub open spec fn wf_value(v: JsonRep) -> bool {
    match v {
        JsonRep::Text(s) => wf_text(s),
        _ => true,
    }
}

/// Whether an object can be carried: every key and every value can.
pub open spec fn wf_object(fs: FieldsRep) -> bool {
    forall|i: int|
        0 <= i < fs.len() ==> wf_text((#[trigger] fs[i]).0) && wf_value(fs[i].1)
}

/// The compact text of one value.
pub open spec fn enc_value(v: JsonRep) -> Seq<char> {
    match v {
        JsonRep::Null => "null"@,
        JsonRep::Bool(b) => if b {
            "true"@
        } else {
            "false"@
        },
        JsonRep::Int(n) => int_chars(n as int),
        JsonRep::Text(s) => seq!['"'] + s + seq!['"'],
    }
}

/// The compact text of one field: quoted key, colon, value.
pub open spec fn enc_field(k: Seq<char>, v: JsonRep) -> Seq<char> {
    seq!['"'] + k + seq!['"', ':'] + enc_value(v)
}

/// The compact text of an object's fields, comma-separated.
pub open spec fn enc_fields(fs: FieldsRep) -> Seq<char>
    decreases fs.len(),
{
    if fs.len() == 0 {
        Seq::empty()
    } else if fs.len() == 1 {
        enc_field(fs[0].0, fs[0].1)
    } else {
        enc_field(fs[0].0, fs[0].1) + seq![','] + enc_fields(fs.drop_first())
    }
}

/// The compact text of a flat object.
pub open spec fn enc_object(fs: FieldsRep) -> Seq<char> {
    seq!['{'] + enc_fields(fs) + seq!['}']
}

/// Append one value's compact text.
fn push_value(v: &JsonValue, out: &mut String)
    ensures
        final(out)@ == old(out)@ + enc_value(v.deep_view()),
{
    match v {
        JsonValue::Null => {
            proof {
                reveal_strlit("null");
            }
            out.append("null");
        },
        JsonValue::Bool(b) => {
            proof {
                reveal_strlit("true");
                reveal_strlit("false");
            }
            if *b {
                out.append("true");
            } else {
                out.append("false");
            }
        },
        JsonValue::Int(n) => {
            let digits = int_to_string(*n);
            out.append(digits.as_str());
        },
        JsonValue::Text(s) => {
            proof {
                reveal_strlit("\"");
            }
            out.append("\"");
            out.append(s.as_str());
            out.append("\"");
            proof {
                assert(out@ =~= old(out)@ + enc_value(v.deep_view()));
            }
        },
    }
}

/// Append the compact text of the fields from `i` on.
fn push_fields(fields: &Vec<(String, JsonValue)>, i: usize, out: &mut String)
    requires
        i <= fields@.len(),
    ensures
        final(out)@ == old(out)@ + enc_fields(fields.deep_view().skip(i as int)),
    decreases fields@.len() - i,
{
    if i == fields.len() {
        proof {
            assert(fields.deep_view().skip(i as int) =~= Seq::<(Seq<char>, JsonRep)>::empty());
            assert(out@ =~= old(out)@ + enc_fields(fields.deep_view().skip(i as int)));
        }
    } else {
        proof {
            reveal_strlit("\"");
            reveal_strlit("\":");
            reveal_strlit(",");
        }
        let ghost fs = fields.deep_view().skip(i as int);
        proof {
            assert(fs[0] == fields.deep_view()[i as int]);
            assert(fields.deep_view()[i as int].0 == fields@[i as int].0@);
            assert(fields.deep_view()[i as int].1 == fields@[i as int].1.deep_view());
        }
        out.append("\"");
        out.append(fields[i].0.as_str());
        out.append("\":");
        push_value(&fields[i].1, out);
        proof {
            assert(out@ =~= old(out)@ + enc_field(fs[0].0, fs[0].1));
        }
        if i + 1 == fields.len() {
            proof {
                assert(fs.len() == 1);
                assert(out@ =~= old(out)@ + enc_fields(fs));
            }
        } else {
            out.append(",");
            push_fields(fields, i + 1, out);
            proof {
                assert(fields.deep_view().skip(i as int + 1) =~= fs.drop_first());
                assert(out@ =~= old(out)@ + enc_fields(fs));
            }
        }
    }
}

/// The number of characters from `j` to the next quote.
pub open spec fn text_len(s: Seq<char>, j: int) -> nat
    decreases s.len() - j,
{
    if !(0 <= j < s.len()) || s[j] == '"' {
        0
    } else {
        1 + text_len(s, j + 1)
    }
}

/// `text_len` is the unique cut: quote-free up to it, stopped by a quote or
/// the end.
pub proof fn lemma_text_len_is(s: Seq<char>, j: int, k: int)
    requires
        0 <= j <= k <= s.len(),
        forall|m: int| j <= m < k ==> s[m] != '"',
        k < s.len() ==> s[k] == '"',
    ensures
        j + text_len(s, j) == k,
    decreases k - j,
{
    if j < k {
        lemma_text_len_is(s, j + 1, k);
    }
}

/// The number of digits from `j` on.
pub open spec fn digits_len(s: Seq<char>, j: int) -> nat
    decreases s.len() - j,
{
    if !(0 <= j < s.len()) || !is_digit(s[j]) {
        0
    } else {
        1 + digits_len(s, j + 1)
    }
}

/// `digits_len` is the unique cut: digits up to it, stopped by a non-digit
/// or the end.
pub proof fn lemma_digits_len_is(s: Seq<char>, j: int, k: int)
    requires
        0 <= j <= k <= s.len(),
        forall|m: int| j <= m < k ==> is_digit(s[m]),
        k < s.len() ==> !is_digit(s[k]),
    ensures
        j + digits_len(s, j) == k,
    decreases k - j,
{
    if j < k {
        lemma_digits_len_is(s, j + 1, k);
    }
}

/// One more than the largest integer a field can hold: the bound a negative
/// number's magnitude must stay within.
pub open spec fn int_mag_bound() -> int {
    i64::MAX as int + 1
}

/// What one value reads as, starting at `i`: the value and the position
/// after it. Only the compact forms are read: the three literals, an
/// integer, or quoted escape-free text.
pub open spec fn parse_value(s: Seq<char>, i: int) -> Option<(JsonRep, int)> {
    if !(0 <= i < s.len()) {
        None
    } else if s[i] == 'n' {
        if i + 4 <= s.len() && s.subrange(i, i + 4) == "null"@ {
            Some((JsonRep::Null, i + 4))
        } else {
            None
        }
    } else if s[i] == 't' {
        if i + 4 <= s.len() && s.subrange(i, i + 4) == "true"@ {
            Some((JsonRep::Bool(true), i + 4))
        } else {
            None
        }
    } else if s[i] == 'f' {
        if i + 5 <= s.len() && s.subrange(i, i + 5) == "false"@ {
            Some((JsonRep::Bool(false), i + 5))
        } else {
            None
        }
    } else if s[i] == '"' {
        let k = i + 1 + text_len(s, i + 1);
        if k < s.len() && wf_text(s.subrange(i + 1, k)) {
            Some((JsonRep::Text(s.subrange(i + 1, k)), k + 1))
        } else {
            None
        }
    } else if s[i] == '-' {
        let k = i + 1 + digits_len(s, i + 1);
        if k == i + 1 {
            None
        } else {
            let v = dec_val(s.subrange(i + 1, k));
            if v <= int_mag_bound() {
                Some((JsonRep::Int((-v) as i64), k))
            } else {
                None
            }
        }
    } else if is_digit(s[i]) {
        let k = i + digits_len(s, i);
        let v = dec_val(s.subrange(i, k));
        if v <= i64::MAX as int {
            Some((JsonRep::Int(v as i64), k))
        } else {
            None
        }
    } else {
        None
    }
}

/// A text scan stays within the string.
pub proof fn lemma_text_len_le(s: Seq<char>, j: int)
    requires
        0 <= j <= s.len(),
    ensures
        j + text_len(s, j) <= s.len(),
    decreases s.len() - j,
{
    if j < s.len() && s[j] != '"' {
        lemma_text_len_le(s, j + 1);
    }
}

/// A digit scan stays within the string.
pub proof fn lemma_digits_len_le(s: Seq<char>, j: int)
    requires
        0 <= j <= s.len(),
    ensures
        j + digits_len(s, j) <= s.len(),
    decreases s.len() - j,
{
    if j < s.len() && is_digit(s[j]) {
        lemma_digits_len_le(s, j + 1);
    }
}

/// A parsed value ends after it began and within the string.
pub proof fn lemma_parse_value_advances(s: Seq<char>, i: int)
    ensures
        parse_value(s, i) matches Some(ve) ==> i < ve.1 <= s.len(),
{
    if 0 <= i < s.len() {
        if s[i] == '"' {
            lemma_text_len_le(s, i + 1);
        } else if s[i] == '-' {
            lemma_digits_len_le(s, i + 1);
        } else if is_digit(s[i]) {
            lemma_digits_len_le(s, i);
        }
    }
}

/// What one field reads as, starting at `i`: quoted key, colon, value.
pub open spec fn parse_field(s: Seq<char>, i: int) -> Option<((Seq<char>, JsonRep), int)> {
    if !(0 <= i < s.len()) || s[i] != '"' {
        None
    } else {
        let k = i + 1 + text_len(s, i + 1);
        if !(k < s.len() && wf_text(s.subrange(i + 1, k))) {
            None
        } else if !(k + 1 < s.len() && s[k + 1] == ':') {
            None
        } else {
            match parse_value(s, k + 2) {
                Some(ve) => Some(((s.subrange(i + 1, k), ve.0), ve.1)),
                None => None,
            }
        }
    }
}

/// A parsed field ends after it began and within the string.
pub proof fn lemma_parse_field_advances(s: Seq<char>, i: int)
    ensures
        parse_field(s, i) matches Some(fe) ==> i < fe.1 <= s.len(),
{
    if 0 <= i < s.len() && s[i] == '"' {
        let k = i + 1 + text_len(s, i + 1);
        lemma_text_len_le(s, i + 1);
        if k < s.len() && wf_text(s.subrange(i + 1, k)) && k + 1 < s.len() && s[k + 1] == ':' {
            lemma_parse_value_advances(s, k + 2);
        }
    }
}

/// What a comma-separated field list reads as, starting at `i`: the fields
/// and the position after them, which the caller expects to close the
/// object.
pub open spec fn parse_fields(s: Seq<char>, i: int) -> Option<(FieldsRep, int)>
    decreases s.len() - i,
    via parse_fields_decreases
{
    match parse_field(s, i) {
        None => None,
        Some(fe) => if fe.1 < s.len() && s[fe.1] == ',' {
            match parse_fields(s, fe.1 + 1) {
                Some(re) => Some((seq![fe.0] + re.0, re.1)),
                None => None,
            }
        } else {
            Some((seq![fe.0], fe.1))
        },
    }
}

#[via_fn]
proof fn parse_fields_decreases(s: Seq<char>, i: int) {
    lemma_parse_field_advances(s, i);
}

/// What a whole body reads as: a braced, comma-separated field list filling
/// the text exactly, or nothing.
pub open spec fn parse_object_full(s: Seq<char>) -> Option<FieldsRep> {
    if s.len() >= 2 && s[0] == '{' {
        if s.len() == 2 && s[1] == '}' {
            Some(Seq::empty())
        } else {
            match parse_fields(s, 1) {
                Some(fe) => if fe.1 == s.len() - 1 && s[fe.1] == '}' {
                    Some(fe.0)
                } else {
                    None
                },
                None => None,
            }
        }
    } else {
        None
    }
}

/// Whatever parses is well formed: the parser only reads carried text.
pub proof fn lemma_parse_fields_wf(s: Seq<char>, i: int)
    ensures
        parse_fields(s, i) matches Some(fe) ==> wf_object(fe.0),
    decreases s.len() - i,
{
    if parse_fields(s, i) is Some {
        let fe = parse_field(s, i)->0;
        lemma_parse_field_advances(s, i);
        if fe.1 < s.len() && s[fe.1] == ',' {
            lemma_parse_fields_wf(s, fe.1 + 1);
        }
    }
}

/// Every value's compact text has at least one character, and its first
/// character says which kind of value it is.
proof fn lemma_enc_value_shape(v: JsonRep)
    ensures
        enc_value(v).len() >= 1,
        v is Null ==> enc_value(v)[0] == 'n',
        v matches JsonRep::Bool(b) ==> enc_value(v)[0] == (if b {
            't'
        } else {
            'f'
        }),
        v matches JsonRep::Int(n) ==> (if n < 0 {
            enc_value(v)[0] == '-'
        } else {
            is_digit(enc_value(v)[0])
        }),
        v is Text ==> enc_value(v)[0] == '"',
{
    reveal_strlit("null");
    reveal_strlit("true");
    reveal_strlit("false");
    match v {
        JsonRep::Int(n) => {
            if n < 0 {
            } else {
                lemma_dec_digits_val(n as int);
                assert(enc_value(v)[0] == dec_digits(n as int)[0]);
            }
        },
        _ => {},
    }
}

/// Reading the compact text of a value gives the value back. The text must
/// sit in `s` at `i`; a number must not be followed by another digit.
proof fn lemma_parse_value_of_enc(s: Seq<char>, i: int, v: JsonRep)
    requires
        wf_value(v),
        0 <= i,
        i + enc_value(v).len() <= s.len(),
        s.subrange(i, i + enc_value(v).len() as int) == enc_value(v),
        v is Int ==> (i + enc_value(v).len() == s.len() || !is_digit(
            s[i + enc_value(v).len() as int],
        )),
    ensures
        parse_value(s, i) == Some((v, i + enc_value(v).len() as int)),
{
    reveal_strlit("null");
    reveal_strlit("true");
    reveal_strlit("false");
    let l = enc_value(v).len() as int;
    let sub = s.subrange(i, i + l);
    lemma_enc_value_shape(v);
    assert(s[i] == sub[0]);
    match v {
        JsonRep::Null => {
            assert(s.subrange(i, i + 4) == "null"@);
        },
        JsonRep::Bool(b) => {
            if b {
                assert(s.subrange(i, i + 4) == "true"@);
            } else {
                assert(s.subrange(i, i + 5) == "false"@);
            }
        },
        JsonRep::Int(n) => {
            if n >= 0 {
                lemma_dec_digits_val(n as int);
                assert forall|m: int| i <= m < i + l implies is_digit(s[m]) by {
                    assert(s[m] == sub[m - i]);
                }
                lemma_digits_len_is(s, i, i + l);
                assert(s.subrange(i, i + l) == dec_digits(n as int));
                assert(dec_val(s.subrange(i, i + l)) == n as int);
                assert(is_digit(s[i]));
                assert(s[i] != 'n' && s[i] != 't' && s[i] != 'f' && s[i] != '"' && s[i] != '-');
                assert(parse_value(s, i) == Some((JsonRep::Int(n), i + l)));
            } else {
                lemma_dec_digits_val(-(n as int));
                assert(s[i] == '-');
                assert(s.subrange(i + 1, i + l) =~= dec_digits(-(n as int))) by {
                    assert(forall|m: int|
                        0 <= m < l - 1 ==> #[trigger] s.subrange(i + 1, i + l)[m] == sub[m + 1]);
                }
                assert forall|m: int| i + 1 <= m < i + l implies is_digit(s[m]) by {
                    assert(s[m] == s.subrange(i + 1, i + l)[m - i - 1]);
                }
                lemma_digits_len_is(s, i + 1, i + l);
                assert(dec_val(s.subrange(i + 1, i + l)) == -(n as int));
                assert(-(n as int) <= int_mag_bound());
                assert(l > 1) by {
                    assert(dec_digits(-(n as int)).len() >= 1);
                }
                assert(parse_value(s, i) == Some((JsonRep::Int(n), i + l)));
            }
        },
        JsonRep::Text(t) => {
            assert(s[i] == '"');
            assert(s.subrange(i + 1, i + l - 1) =~= t) by {
                assert(forall|m: int|
                    0 <= m < t.len() ==> #[trigger] s.subrange(i + 1, i + l - 1)[m] == sub[m + 1]);
            }
            assert forall|m: int| i + 1 <= m < i + l - 1 implies s[m] != '"' by {
                assert(s[m] == t[m - i - 1]);
                assert(wf_text_char(t[m - i - 1]));
            }
            assert(s[i + l - 1] == sub[l - 1]);
            assert(s[i + l - 1] == '"');
            lemma_text_len_is(s, i + 1, i + l - 1);
            assert(wf_text(s.subrange(i + 1, i + l - 1)));
            assert(parse_value(s, i) == Some((JsonRep::Text(t), i + l)));
        },
    }
}

/// Reading the compact text of a field gives the field back.
proof fn lemma_parse_field_of_enc(s: Seq<char>, i: int, k: Seq<char>, v: JsonRep)
    requires
        wf_text(k),
        wf_value(v),
        0 <= i,
        i + enc_field(k, v).len() <= s.len(),
        s.subrange(i, i + enc_field(k, v).len() as int) == enc_field(k, v),
        v is Int ==> (i + enc_field(k, v).len() == s.len() || !is_digit(
            s[i + enc_field(k, v).len() as int],
        )),
    ensures
        parse_field(s, i) == Some(((k, v), i + enc_field(k, v).len() as int)),
{
    let l = enc_field(k, v).len() as int;
    let lv = enc_value(v).len() as int;
    let sub = s.subrange(i, i + l);
    lemma_enc_value_shape(v);
    assert(s[i] == sub[0]);
    assert(s[i] == '"');
    // the key sits quoted right after the opening quote
    assert(s.subrange(i + 1, i + 1 + k.len() as int) =~= k) by {
        assert(forall|m: int|
            0 <= m < k.len() ==> #[trigger] s.subrange(i + 1, i + 1 + k.len() as int)[m] == sub[m
                + 1]);
    }
    assert forall|m: int| i + 1 <= m < i + 1 + k.len() implies s[m] != '"' by {
        assert(s[m] == k[m - i - 1]);
        assert(wf_text_char(k[m - i - 1]));
    }
    let kq = i + 1 + k.len() as int;
    assert(s[kq] == sub[kq - i]);
    assert(s[kq] == '"');
    lemma_text_len_is(s, i + 1, kq);
    assert(wf_text(s.subrange(i + 1, kq)));
    assert(s[kq + 1] == sub[kq + 1 - i]);
    assert(s[kq + 1] == ':');
    assert(kq + 1 < s.len()) by {
        assert(lv >= 1);
    }
    // the value sits after the colon
    assert(s.subrange(kq + 2, i + l) =~= enc_value(v)) by {
        assert(forall|m: int|
            0 <= m < lv ==> #[trigger] s.subrange(kq + 2, i + l)[m] == sub[m + (kq + 2 - i)]);
    }
    lemma_parse_value_of_enc(s, kq + 2, v);
    assert(parse_field(s, i) == Some(((s.subrange(i + 1, kq), v), i + l)));
    assert(s.subrange(i + 1, kq) == k);
}

/// Reading the compact text of one or more fields, up to the closing brace,
/// gives the fields back.
proof fn lemma_parse_fields_of_enc(s: Seq<char>, i: int, fs: FieldsRep)
    requires
        fs.len() >= 1,
        wf_object(fs),
        0 <= i,
        i + enc_fields(fs).len() < s.len(),
        s.subrange(i, i + enc_fields(fs).len() as int) == enc_fields(fs),
        s[i + enc_fields(fs).len() as int] == '}',
    ensures
        parse_fields(s, i) == Some((fs, i + enc_fields(fs).len() as int)),
    decreases fs.len(),
{
    let l = enc_fields(fs).len() as int;
    let f0 = fs[0];
    let l0 = enc_field(f0.0, f0.1).len() as int;
    let sub = s.subrange(i, i + l);
    assert(wf_text(f0.0) && wf_value(f0.1));
    reveal_strlit("null");
    reveal_strlit("true");
    reveal_strlit("false");
    if fs.len() == 1 {
        assert(s[i + l] == '}' && !is_digit('}')) by {
            assert('}' as u32 == 125);
        }
        lemma_parse_field_of_enc(s, i, f0.0, f0.1);
        assert(s[i + l] != ',');
        assert(parse_fields(s, i) == Some((seq![f0], i + l)));
        assert(seq![f0] =~= fs);
    } else {
        let rest = fs.drop_first();
        let lr = enc_fields(rest).len() as int;
        assert(l == l0 + 1 + lr);
        assert(s.subrange(i, i + l0) =~= enc_field(f0.0, f0.1)) by {
            assert(forall|m: int| 0 <= m < l0 ==> #[trigger] s.subrange(i, i + l0)[m] == sub[m]);
        }
        assert(s[i + l0] == sub[l0]);
        assert(s[i + l0] == ',');
        assert(!is_digit(',')) by {
            assert(',' as u32 == 44);
        }
        lemma_parse_field_of_enc(s, i, f0.0, f0.1);
        assert(s.subrange(i + l0 + 1, i + l0 + 1 + lr) =~= enc_fields(rest)) by {
            assert(forall|m: int|
                0 <= m < lr ==> #[trigger] s.subrange(i + l0 + 1, i + l0 + 1 + lr)[m] == sub[m + l0
                    + 1]);
        }
        assert(wf_object(rest)) by {
            assert(forall|m: int| 0 <= m < rest.len() ==> #[trigger] rest[m] == fs[m + 1]);
        }
        lemma_parse_fields_of_enc(s, i + l0 + 1, rest);
        assert(parse_fields(s, i) == Some((seq![f0] + rest, i + l)));
        assert(seq![f0] + rest =~= fs);
    }
}

/// The codec round-trips: reading the compact text of any carriable flat
/// object gives the object back.
pub proof fn lemma_object_round_trip(fs: FieldsRep)
    requires
        wf_object(fs),
    ensures
        parse_object_full(enc_object(fs)) == Some(fs),
{
    let s = enc_object(fs);
    let l = enc_fields(fs).len() as int;
    assert(s.len() == l + 2);
    assert(s[0] == '{');
    assert(s[s.len() - 1] == '}');
    if fs.len() == 0 {
        assert(s.len() == 2 && s[1] == '}');
        assert(parse_object_full(s) == Some(Seq::<(Seq<char>, JsonRep)>::empty()));
        assert(Seq::<(Seq<char>, JsonRep)>::empty() =~= fs);
    } else {
        lemma_enc_value_shape(fs[0].1);
        assert(enc_field(fs[0].0, fs[0].1).len() >= 4);
        assert(l >= enc_field(fs[0].0, fs[0].1).len()) by {
            if fs.len() > 1 {
                assert(enc_fields(fs).len() == enc_field(fs[0].0, fs[0].1).len() + 1
                    + enc_fields(fs.drop_first()).len());
            }
        }
        assert(s.len() > 2);
        assert(s.subrange(1, 1 + l) =~= enc_fields(fs)) by {
            assert(forall|m: int| 0 <= m < l ==> #[trigger] s.subrange(1, 1 + l)[m] == s[m + 1]);
            assert(forall|m: int| 0 <= m < l ==> #[trigger] s[m + 1] == enc_fields(fs)[m]);
        }
        assert(s[1 + l] == '}');
        lemma_parse_fields_of_enc(s, 1, fs);
        assert(parse_object_full(s) == Some(fs));
    }
}

/// Whatever a whole body parses to is well formed.
pub proof fn lemma_parse_object_wf(s: Seq<char>)
    ensures
        parse_object_full(s) matches Some(fs) ==> wf_object(fs),
{
    if s.len() >= 2 && s[0] == '{' && !(s.len() == 2 && s[1] == '}') {
        lemma_parse_fields_wf(s, 1);
    }
}

/// Decide whether text can be carried without escaping.
pub fn text_is_wf(s: &str) -> (b: bool)
    ensures
        b == wf_text(s@),
{
    let len = s.unicode_len();
    for m in 0..len
        invariant
            len == s@.len(),
            forall|j: int| 0 <= j < m ==> wf_text_char(#[trigger] s@[j]),
    {
        let c = s.get_char(m);
        if c == '"' || c == '\\' || (c as u32) < 32 {
            return false;
        }
    }
    true
}

/// Decide whether a value can be carried.
pub fn value_is_wf(v: &JsonValue) -> (b: bool)
    ensures
        b == wf_value(v.deep_view()),
{
    match v {
        JsonValue::Text(s) => text_is_wf(s.as_str()),
        _ => true,
    }
}

/// The position of the next quote at or after `from`, or the end.
fn scan_quote(s: &str, from: usize, len: usize) -> (k: usize)
    requires
        len == s@.len(),
        from <= len,
    ensures
        from <= k <= len,
        forall|m: int| from <= m < k ==> s@[m] != '"',
        k < len ==> s@[k as int] == '"',
    decreases len - from,
{
    if from == len {
        from
    } else if s.get_char(from) == '"' {
        from
    } else {
        scan_quote(s, from + 1, len)
    }
}

/// The position of the first non-digit at or after `from`, or the end.
fn scan_digits(s: &str, from: usize, len: usize) -> (k: usize)
    requires
        len == s@.len(),
        from <= len,
    ensures
        from <= k <= len,
        forall|m: int| from <= m < k ==> is_digit(s@[m]),
        k < len ==> !is_digit(s@[k as int]),
    decreases len - from,
{
    if from == len {
        from
    } else {
        let c = s.get_char(from);
        let d = c as u32;
        if 48 <= d && d <= 57 {
            scan_digits(s, from + 1, len)
        } else {
            from
        }
    }
}

/// Whether the characters in `[from, to)` can be carried as text.
fn check_wf_range(s: &str, from: usize, to: usize, len: usize) -> (ok: bool)
    requires
        len == s@.len(),
        from <= to <= len,
    ensures
        ok == wf_text(s@.subrange(from as int, to as int)),
{
    let ghost sub = s@.subrange(from as int, to as int);
    for m in from..to
        invariant
            len == s@.len(),
            from <= to <= len,
            sub == s@.subrange(from as int, to as int),
            forall|j: int| from <= j < m ==> wf_text_char(#[trigger] s@[j]),
    {
        let c = s.get_char(m);
        let bad = c == '"' || c == '\\' || (c as u32) < 32;
        if bad {
            proof {
                assert(sub[m - from] == s@[m as int]);
                assert(!wf_text_char(sub[m - from]));
            }
            return false;
        }
    }
    proof {
        assert forall|j: int| 0 <= j < sub.len() implies wf_text_char(#[trigger] sub[j]) by {
            assert(sub[j] == s@[from + j]);
        }
    }
    true
}

/// Read one value at `i`.
fn parse_value_exec(s: &str, i: usize, len: usize) -> (r: Option<(JsonValue, usize)>)
    requires
        len == s@.len(),
        i <= len,
    ensures
        match r {
            Some(ve) => parse_value(s@, i as int) == Some((ve.0.deep_view(), ve.1 as int)),
            None => parse_value(s@, i as int) is None,
        },
{
    if i == len {
        return None;
    }
    let c = s.get_char(i);
    if c == 'n' {
        proof {
            reveal_strlit("null");
        }
        if len - i >= 4 && s.get_char(i + 1) == 'u' && s.get_char(i + 2) == 'l' && s.get_char(
            i + 3,
        ) == 'l' {
            proof {
                assert(s@.subrange(i as int, i as int + 4) =~= "null"@);
            }
            Some((JsonValue::Null, i + 4))
        } else {
            proof {
                if i + 4 <= len {
                    assert(s@.subrange(i as int, i as int + 4) != "null"@) by {
                        let sub = s@.subrange(i as int, i as int + 4);
                        if sub == "null"@ {
                            assert(s@[i as int + 1] == sub[1]);
                            assert(s@[i as int + 2] == sub[2]);
                            assert(s@[i as int + 3] == sub[3]);
                        }
                    }
                }
            }
            None
        }
    } else if c == 't' {
        proof {
            reveal_strlit("true");
        }
        if len - i >= 4 && s.get_char(i + 1) == 'r' && s.get_char(i + 2) == 'u' && s.get_char(
            i + 3,
        ) == 'e' {
            proof {
                assert(s@.subrange(i as int, i as int + 4) =~= "true"@);
            }
            Some((JsonValue::Bool(true), i + 4))
        } else {
            proof {
                if i + 4 <= len {
                    assert(s@.subrange(i as int, i as int + 4) != "true"@) by {
                        let sub = s@.subrange(i as int, i as int + 4);
                        if sub == "true"@ {
                            assert(s@[i as int + 1] == sub[1]);
                            assert(s@[i as int + 2] == sub[2]);
                            assert(s@[i as int + 3] == sub[3]);
                        }
                    }
                }
            }
            None
        }
    } else if c == 'f' {
        proof {
            reveal_strlit("false");
        }
        if len - i >= 5 && s.get_char(i + 1) == 'a' && s.get_char(i + 2) == 'l' && s.get_char(
            i + 3,
        ) == 's' && s.get_char(i + 4) == 'e' {
            proof {
                assert(s@.subrange(i as int, i as int + 5) =~= "false"@);
            }
            Some((JsonValue::Bool(false), i + 5))
        } else {
            proof {
                if i + 5 <= len {
                    assert(s@.subrange(i as int, i as int + 5) != "false"@) by {
                        let sub = s@.subrange(i as int, i as int + 5);
                        if sub == "false"@ {
                            assert(s@[i as int + 1] == sub[1]);
                            assert(s@[i as int + 2] == sub[2]);
                            assert(s@[i as int + 3] == sub[3]);
                            assert(s@[i as int + 4] == sub[4]);
                        }
                    }
                }
            }
            None
        }
    } else if c == '"' {
        let k = scan_quote(s, i + 1, len);
        proof {
            lemma_text_len_is(s@, i as int + 1, k as int);
        }
        if k == len {
            return None;
        }
        if !check_wf_range(s, i + 1, k, len) {
            return None;
        }
        let txt = String::from_str(s.substring_char(i + 1, k));
        Some((JsonValue::Text(txt), k + 1))
    } else if c == '-' {
        let k = scan_digits(s, i + 1, len);
        proof {
            lemma_digits_len_is(s@, i as int + 1, k as int);
        }
        if k == i + 1 {
            return None;
        }
        let sub = s.substring_char(i + 1, k);
        proof {
            assert(all_digits(sub@));
        }
        match parse_u64(sub) {
            None => {
                proof {
                    assert(dec_val(s@.subrange(i as int + 1, k as int)) > u64::MAX);
                }
                None
            },
            Some(v) => {
                if v > 9223372036854775808u64 {
                    None
                } else {
                    let neg: i64 = if v == 9223372036854775808u64 {
                        i64::MIN
                    } else {
                        -(v as i64)
                    };
                    proof {
                        assert(neg as int == -(dec_val(s@.subrange(i as int + 1, k as int))));
                    }
                    Some((JsonValue::Int(neg), k))
                }
            },
        }
    } else {
        let d = c as u32;
        if 48 <= d && d <= 57 {
            let k = scan_digits(s, i, len);
            proof {
                lemma_digits_len_is(s@, i as int, k as int);
            }
            let sub = s.substring_char(i, k);
            proof {
                assert(all_digits(sub@));
            }
            match parse_u64(sub) {
                None => {
                    proof {
                        assert(dec_val(s@.subrange(i as int, k as int)) > u64::MAX);
                    }
                    None
                },
                Some(v) => {
                    if v > i64::MAX as u64 {
                        None
                    } else {
                        Some((JsonValue::Int(v as i64), k))
                    }
                },
            }
        } else {
            proof {
                assert(!is_digit(s@[i as int]));
            }
            None
        }
    }
}

/// Read one field at `i`.
fn parse_field_exec(s: &str, i: usize, len: usize) -> (r: Option<((String, JsonValue), usize)>)
    requires
        len == s@.len(),
        i <= len,
    ensures
        match r {
            Some(fe) => parse_field(s@, i as int) == Some(
                ((fe.0.0@, fe.0.1.deep_view()), fe.1 as int),
            ),
            None => parse_field(s@, i as int) is None,
        },
{
    if i == len {
        return None;
    }
    if s.get_char(i) != '"' {
        return None;
    }
    let k = scan_quote(s, i + 1, len);
    proof {
        lemma_text_len_is(s@, i as int + 1, k as int);
    }
    if k == len {
        return None;
    }
    if !check_wf_range(s, i + 1, k, len) {
        return None;
    }
    if !(k + 1 < len) {
        return None;
    }
    if s.get_char(k + 1) != ':' {
        return None;
    }
    let key = String::from_str(s.substring_char(i + 1, k));
    match parse_value_exec(s, k + 2, len) {
        Some((v, e)) => Some(((key, v), e)),
        None => None,
    }
}

/// Read a comma-separated field list at `i`.
fn parse_fields_exec(s: &str, i: usize, len: usize) -> (r: Option<(
    Vec<(String, JsonValue)>,
    usize,
)>)
    requires
        len == s@.len(),
        i <= len,
    ensures
        match r {
            Some(fe) => parse_fields(s@, i as int) matches Some(sp) && fe.0.deep_view() == sp.0
                && fe.1 as int == sp.1,
            None => parse_fields(s@, i as int) is None,
        },
    decreases len - i,
{
    proof {
        lemma_parse_field_advances(s@, i as int);
    }
    match parse_field_exec(s, i, len) {
        None => None,
        Some((field, e)) => {
            if e < len && s.get_char(e) == ',' {
                match parse_fields_exec(s, e + 1, len) {
                    None => None,
                    Some((mut rest, e2)) => {
                        let ghost prev = rest.deep_view();
                        rest.insert(0, field);
                        proof {
                            assert(rest.deep_view() =~= seq![
                                (field.0@, field.1.deep_view()),
                            ] + prev);
                        }
                        Some((rest, e2))
                    },
                }
            } else {
                let mut one: Vec<(String, JsonValue)> = Vec::new();
                one.push(field);
                proof {
                    assert(one.deep_view() =~= seq![(field.0@, field.1.deep_view())]);
                }
                Some((one, e))
            }
        },
    }
}

/// Read a whole body as a flat object: it must be braced, compact, and
/// nothing may follow the closing brace.
pub fn parse_object(s: &str) -> (r: Option<Vec<(String, JsonValue)>>)
    ensures
        match r {
            Some(v) => parse_object_full(s@) matches Some(fs) && v.deep_view() == fs,
            None => parse_object_full(s@) is None,
        },
{
    let len = s.unicode_len();
    if len < 2 {
        return None;
    }
    if s.get_char(0) != '{' {
        return None;
    }
    if len == 2 && s.get_char(1) == '}' {
        let empty: Vec<(String, JsonValue)> = Vec::new();
        proof {
            assert(empty.deep_view() =~= Seq::<(Seq<char>, JsonRep)>::empty());
        }
        return Some(empty);
    }
    match parse_fields_exec(s, 1, len) {
        None => None,
        Some((v, e)) => {
            if e == len - 1 && s.get_char(e) == '}' {
                Some(v)
            } else {
                None
            }
        },
    }
}

/// The compact text of a flat object.
pub fn encode_object(fields: &Vec<(String, JsonValue)>) -> (r: String)
    ensures
        r@ == enc_object(fields.deep_view()),
{
    proof {
        reveal_strlit("{");
        reveal_strlit("}");
    }
    let mut out = String::new();
    out.append("{");
    push_fields(fields, 0, &mut out);
    out.append("}");
    proof {
        assert(fields.deep_view().skip(0) =~= fields.deep_view());
        assert(out@ =~= enc_object(fields.deep_view()));
    }
    out
}

} // verus!
