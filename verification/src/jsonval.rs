//! A JSON value tree with numerals kept as text, so the library can
//! frame, check and rebuild documents without interpreting floating
//! point; a writer; and a strict reader that rejects malformed text.

use vstd::prelude::*;

use crate::strutil::{digit_char, spec_dec_digits, str_eq, u64_to_string};

verus! {

/// One JSON value; a number carries its numeral text unparsed.
#[derive(Debug)]
pub enum JsonValue {
    Null,
    Bool(bool),
    Num(String),
    Str(String),
    Arr(Vec<JsonValue>),
    Obj(Vec<(String, JsonValue)>),
}

pub enum JsonValueView {
    Null,
    Bool(bool),
    Num(Seq<char>),
    Str(Seq<char>),
    Arr(Seq<JsonValueView>),
    Obj(Seq<(Seq<char>, JsonValueView)>),
}

pub open spec fn spec_json_view(v: JsonValue) -> JsonValueView
    decreases v,
{
    match v {
        JsonValue::Null => JsonValueView::Null,
        JsonValue::Bool(b) => JsonValueView::Bool(b),
        JsonValue::Num(t) => JsonValueView::Num(t@),
        JsonValue::Str(s) => JsonValueView::Str(s@),
        JsonValue::Arr(items) => JsonValueView::Arr(
            Seq::new(
                items@.len(),
                |i: int|
                    if 0 <= i < items@.len() {
                        spec_json_view(items@[i])
                    } else {
                        JsonValueView::Null
                    },
            ),
        ),
        JsonValue::Obj(fields) => JsonValueView::Obj(
            Seq::new(
                fields@.len(),
                |i: int|
                    if 0 <= i < fields@.len() {
                        (fields@[i].0@, spec_json_view(fields@[i].1))
                    } else {
                        (Seq::empty(), JsonValueView::Null)
                    },
            ),
        ),
    }
}

impl View for JsonValue {
    type V = JsonValueView;

    open spec fn view(&self) -> JsonValueView {
        spec_json_view(*self)
    }
}

/// The first field with this key, if any; later duplicates are shadowed.
pub open spec fn spec_obj_lookup(
    fields: Seq<(Seq<char>, JsonValueView)>,
    key: Seq<char>,
) -> Option<JsonValueView>
    decreases fields.len(),
{
    if fields.len() == 0 {
        None
    } else if fields[0].0 == key {
        Some(fields[0].1)
    } else {
        spec_obj_lookup(fields.drop_first(), key)
    }
}

/// Looks a key up in an object's field list, exactly as
/// `spec_obj_lookup` states.
pub fn obj_lookup<'a>(fields: &'a Vec<(String, JsonValue)>, key: &str) -> (r: Option<
    &'a JsonValue,
>)
    ensures
        match r {
            Some(v) => spec_obj_lookup(spec_fields_view(fields@), key@) == Some(v@),
            None => spec_obj_lookup(spec_fields_view(fields@), key@) is None,
        },
{
    let len = fields.len();
    let mut i: usize = 0;
    proof {
        assert(spec_fields_view(fields@).skip(0) =~= spec_fields_view(fields@));
    }
    while i < len
        invariant
            len == fields@.len(),
            i <= len,
            spec_obj_lookup(spec_fields_view(fields@), key@) == spec_obj_lookup(
                spec_fields_view(fields@).skip(i as int),
                key@,
            ),
        decreases len - i,
    {
        proof {
            assert(spec_fields_view(fields@).skip(i as int)[0] == spec_fields_view(fields@)[i as int]);
            assert(spec_fields_view(fields@).skip(i as int).drop_first() =~= spec_fields_view(
                fields@,
            ).skip(i + 1));
        }
        if str_eq(fields[i].0.as_str(), key) {
            return Some(&fields[i].1);
        }
        i += 1;
    }
    proof {
        assert(spec_fields_view(fields@).skip(len as int).len() == 0);
    }
    None
}

/// The mathematical value of an object's exec field list.
pub open spec fn spec_fields_view(fields: Seq<(String, JsonValue)>) -> Seq<
    (Seq<char>, JsonValueView),
> {
    Seq::new(fields.len(), |i: int| (fields[i].0@, spec_json_view(fields[i].1)))
}

/// The canonical decimal numeral of a counter.
pub open spec fn spec_u64_numeral(n: u64) -> Seq<char> {
    spec_dec_digits(n as nat)
}


/// The value of the first `i` characters of a digit string.
pub open spec fn spec_digits_val(s: Seq<char>, i: int) -> int
    decreases i,
{
    if i <= 0 {
        0
    } else {
        spec_digits_val(s, i - 1) * 10 + (s[i - 1] as u32 - 48)
    }
}

proof fn lemma_digits_val_prefix(s1: Seq<char>, s2: Seq<char>, i: int)
    requires
        0 <= i <= s1.len(),
        i <= s2.len(),
        forall|k: int| 0 <= k < i ==> s1[k] == s2[k],
    ensures
        spec_digits_val(s1, i) == spec_digits_val(s2, i),
    decreases i,
{
    if i > 0 {
        lemma_digits_val_prefix(s1, s2, i - 1);
    }
}

proof fn lemma_dec_digits_are_digits(n: nat)
    ensures
        forall|i: int|
            0 <= i < spec_dec_digits(n).len() ==> 48 <= (#[trigger] spec_dec_digits(n)[i]) as u32
                <= 57,
    decreases n,
{
    if n < 10 {
    } else {
        lemma_dec_digits_are_digits(n / 10);
        assert forall|i: int| 0 <= i < spec_dec_digits(n).len() implies 48 <= (
        #[trigger] spec_dec_digits(n)[i]) as u32 <= 57 by {
            if i < spec_dec_digits(n).len() - 1 {
                assert(spec_dec_digits(n)[i] == spec_dec_digits(n / 10)[i]);
            }
        }
    }
}

proof fn lemma_digit_char_code(d: nat)
    requires
        d < 10,
    ensures
        digit_char(d) as u32 == 48 + d,
{
}

/// The decimal rendering reads back to its value, prefix by prefix.
proof fn lemma_dec_digits_val(n: nat)
    ensures
        spec_digits_val(spec_dec_digits(n), spec_dec_digits(n).len() as int) == n,
    decreases n,
{
    if n < 10 {
        lemma_digit_char_code(n);
        assert(spec_dec_digits(n) == seq![digit_char(n)]);
        assert(spec_dec_digits(n)[0] == digit_char(n));
        assert(spec_digits_val(spec_dec_digits(n), 1) == spec_digits_val(spec_dec_digits(n), 0)
            * 10 + (spec_dec_digits(n)[0] as u32 - 48));
        assert(spec_digits_val(spec_dec_digits(n), 1) == n);
    } else {
        lemma_digit_char_code(n % 10);
        lemma_dec_digits_val(n / 10);
        let s = spec_dec_digits(n);
        let prev = spec_dec_digits(n / 10);
        assert(s == prev.push(digit_char(n % 10)));
        lemma_digits_val_prefix(s, prev, prev.len() as int);
        assert(spec_digits_val(s, s.len() as int) == spec_digits_val(s, prev.len() as int) * 10 + (
        s[s.len() - 1] as u32 - 48));
    }
}

proof fn lemma_digits_val_nonneg(s: Seq<char>, i: int)
    requires
        i <= s.len(),
        forall|k: int| 0 <= k < s.len() ==> 48 <= (#[trigger] s[k]) as u32 <= 57,
    ensures
        0 <= spec_digits_val(s, i),
    decreases i,
{
    if i > 0 {
        lemma_digits_val_nonneg(s, i - 1);
    }
}

proof fn lemma_digits_val_mono(s: Seq<char>, i: int, j: int)
    requires
        0 <= i <= j <= s.len(),
        forall|k: int| 0 <= k < s.len() ==> 48 <= (#[trigger] s[k]) as u32 <= 57,
    ensures
        spec_digits_val(s, i) <= spec_digits_val(s, j),
    decreases j - i,
{
    if i < j {
        lemma_digits_val_mono(s, i, j - 1);
        lemma_digits_val_nonneg(s, j - 1);
    }
}

proof fn lemma_pow10_len(n: nat, k: nat)
    requires
        k >= 1,
        n < spec_pow10(k),
    ensures
        spec_dec_digits(n).len() <= k,
    decreases k,
{
    if n < 10 {
    } else {
        assert(spec_pow10(k) == 10 * spec_pow10((k - 1) as nat));
        lemma_pow10_len(n / 10, (k - 1) as nat);
    }
}

pub open spec fn spec_pow10(k: nat) -> nat
    decreases k,
{
    if k == 0 {
        1
    } else {
        10 * spec_pow10((k - 1) as nat)
    }
}

/// Parses a decimal counter, accepting exactly the canonical numerals
/// this library emits: the reading is both sound and complete for them.
pub fn parse_u64_numeral(t: &str) -> (r: Option<u64>)
    ensures
        r matches Some(n) ==> t@ == spec_u64_numeral(n),
        forall|n: u64| t@ == spec_u64_numeral(n) ==> r == Some(n),
{
    let len = t.unicode_len();
    if len == 0 || len > 20 {
        proof {
            assert forall|n: u64| t@ == spec_u64_numeral(n) implies false by {
                lemma_dec_digits_len(n as nat);
                reveal_with_fuel(spec_pow10, 21);
                lemma_pow10_len(n as nat, 20);
            }
        }
        return None;
    }
    let mut value: u64 = 0;
    let mut i: usize = 0;
    while i < len
        invariant
            len == t@.len(),
            0 < len <= 20,
            i <= len,
            value as int == spec_digits_val(t@, i as int),
        decreases len - i,
    {
        let c = t.get_char(i);
        let u = c as u32;
        if !(48 <= u && u <= 57) {
            proof {
                assert forall|n: u64| t@ == spec_u64_numeral(n) implies false by {
                    lemma_dec_digits_are_digits(n as nat);
                }
            }
            return None;
        }
        let d = (u - 48) as u64;
        if value > (u64::MAX - d) / 10 {
            proof {
                assert forall|n: u64| t@ == spec_u64_numeral(n) implies false by {
                    lemma_dec_digits_are_digits(n as nat);
                    lemma_dec_digits_val(n as nat);
                    lemma_digits_val_mono(t@, i + 1, len as int);
                    assert(spec_digits_val(t@, i + 1) == value as int * 10 + d);
                    assert(spec_digits_val(t@, i + 1) <= n as int);
                }
            }
            return None;
        }
        value = value * 10 + d;
        i += 1;
    }
    let rendered = u64_to_string(value);
    if str_eq(rendered.as_str(), t) {
        proof {
            assert forall|n: u64| t@ == spec_u64_numeral(n) implies Some(value) == Some::<u64>(
                n,
            ) by {
                lemma_numeral_injective(value, n);
            }
        }
        Some(value)
    } else {
        proof {
            assert forall|n: u64| t@ == spec_u64_numeral(n) implies false by {
                lemma_dec_digits_val(n as nat);
                assert(value as int == spec_digits_val(t@, len as int));
                assert(value == n);
            }
        }
        None
    }
}

/// The escaped form of one character in a JSON string body.
pub open spec fn spec_escaped_char(c: char) -> Seq<char> {
    if c == '"' {
        seq!['\\', '"']
    } else if c == '\\' {
        seq!['\\', '\\']
    } else if c == '\n' {
        seq!['\\', 'n']
    } else if c == '\r' {
        seq!['\\', 'r']
    } else if c == '\t' {
        seq!['\\', 't']
    } else {
        seq![c]
    }
}

/// The escaped JSON string body of the text from position `i` on.
pub open spec fn spec_escaped_from(s: Seq<char>, i: int) -> Seq<char>
    decreases s.len() - i,
{
    if i < 0 || i >= s.len() {
        Seq::empty()
    } else {
        spec_escaped_char(s[i]) + spec_escaped_from(s, i + 1)
    }
}

/// The items of an array rendered from index `j` on, comma-separated.
pub open spec fn spec_render_items(items: Seq<JsonValueView>, j: int) -> Seq<char>
    decreases items, items.len() - j, 0int,
{
    if j < 0 || j >= items.len() {
        Seq::empty()
    } else {
        (if j > 0 {
            seq![',']
        } else {
            Seq::empty()
        }) + spec_render_json(items[j]) + spec_render_items(items, j + 1)
    }
}

/// The fields of an object rendered from index `j` on.
pub open spec fn spec_render_fields(fields: Seq<(Seq<char>, JsonValueView)>, j: int) -> Seq<char>
    decreases fields, fields.len() - j, 0int,
{
    if j < 0 || j >= fields.len() {
        Seq::empty()
    } else {
        (if j > 0 {
            seq![',']
        } else {
            Seq::empty()
        }) + seq!['"'] + spec_escaped_from(fields[j].0, 0) + seq!['"', ':'] + spec_render_json(
            fields[j].1,
        ) + spec_render_fields(fields, j + 1)
    }
}

/// The exact JSON text of a value: keywords and numerals verbatim,
/// strings quoted and escaped, arrays and objects comma-separated in
/// order with no added whitespace.
pub open spec fn spec_render_json(v: JsonValueView) -> Seq<char>
    decreases v, 0int, 1int,
{
    match v {
        JsonValueView::Null => "null"@,
        JsonValueView::Bool(b) => if b {
            "true"@
        } else {
            "false"@
        },
        JsonValueView::Num(t) => t,
        JsonValueView::Str(s) => seq!['"'] + spec_escaped_from(s, 0) + seq!['"'],
        JsonValueView::Arr(items) => seq!['['] + spec_render_items(items, 0) + seq![']'],
        JsonValueView::Obj(fields) => seq!['{'] + spec_render_fields(fields, 0) + seq!['}'],
    }
}

/// Writes a string body with JSON escaping for quotes, backslashes and
/// the control characters this library emits, exactly as
/// `spec_escaped_from` states.
#[verifier::loop_isolation(false)]
fn write_escaped(s: &str, out: &mut String)
    ensures
        final(out)@ == old(out)@ + spec_escaped_from(s@, 0),
{
    let len = s.unicode_len();
    let mut i: usize = 0;
    while i < len
        invariant
            i <= len,
            out@ + spec_escaped_from(s@, i as int) == old(out)@ + spec_escaped_from(s@, 0),
        decreases len - i,
    {
        let ghost out0 = out@;
        let c = s.get_char(i);
        if c == '"' {
            out.append("\\\"");
            proof {
                reveal_strlit("\\\"");
                assert(out@ =~= out0 + spec_escaped_char(c));
            }
        } else if c == '\\' {
            out.append("\\\\");
            proof {
                reveal_strlit("\\\\");
                assert(out@ =~= out0 + spec_escaped_char(c));
            }
        } else if c == '\n' {
            out.append("\\n");
            proof {
                reveal_strlit("\\n");
                assert(out@ =~= out0 + spec_escaped_char(c));
            }
        } else if c == '\r' {
            out.append("\\r");
            proof {
                reveal_strlit("\\r");
                assert(out@ =~= out0 + spec_escaped_char(c));
            }
        } else if c == '\t' {
            out.append("\\t");
            proof {
                reveal_strlit("\\t");
                assert(out@ =~= out0 + spec_escaped_char(c));
            }
        } else {
            out.push(c);
            proof {
                assert(out@ =~= out0 + spec_escaped_char(c));
            }
        }
        proof {
            assert(out0 + (spec_escaped_char(s@[i as int]) + spec_escaped_from(s@, i + 1)) =~= (
            out0 + spec_escaped_char(s@[i as int])) + spec_escaped_from(s@, i + 1));
        }
        i += 1;
    }
    proof {
        assert(out@ + Seq::<char>::empty() =~= out@);
    }
}

/// Renders a value as JSON text, exactly as `spec_render_json` states.
#[verifier::loop_isolation(false)]
pub fn write_json(v: &JsonValue, out: &mut String)
    ensures
        final(out)@ == old(out)@ + spec_render_json(v@),
    decreases *v,
{
    match v {
        JsonValue::Null => {
            out.append("null");
        },
        JsonValue::Bool(b) => {
            if *b {
                out.append("true");
            } else {
                out.append("false");
            }
        },
        JsonValue::Num(t) => {
            out.append(t.as_str());
        },
        JsonValue::Str(s) => {
            out.append("\"");
            write_escaped(s.as_str(), out);
            out.append("\"");
            proof {
                reveal_strlit("\"");
                assert(out@ =~= old(out)@ + spec_render_json(v@));
            }
        },
        JsonValue::Arr(items) => {
            out.append("[");
            let ghost itemsv = v@->Arr_0;
            let ghost out1 = out@;
            proof {
                reveal_strlit("[");
                reveal_strlit("]");
                reveal_strlit(",");
            }
            let len = items.len();
            let mut i: usize = 0;
            while i < len
                invariant
                    len == items@.len(),
                    i <= len,
                    itemsv.len() == len,
                    out@ + spec_render_items(itemsv, i as int) == out1 + spec_render_items(
                        itemsv,
                        0,
                    ),
                decreases len - i,
            {
                let ghost out_a = out@;
                if i > 0 {
                    out.append(",");
                }
                proof {
                    assert(decreases_to!(*v => v->Arr_0@[i as int]));
                    assert(itemsv[i as int] == items@[i as int]@);
                }
                let ghost out_b = out@;
                write_json(&items[i], out);
                proof {
                    assert(out@ == out_b + spec_render_json(itemsv[i as int]));
                    assert(out_a + ((if i > 0 {
                        seq![',']
                    } else {
                        Seq::<char>::empty()
                    }) + spec_render_json(itemsv[i as int]) + spec_render_items(itemsv, i + 1))
                        =~= out@ + spec_render_items(itemsv, i + 1));
                }
                i += 1;
            }
            out.append("]");
            proof {
                assert(spec_render_items(itemsv, len as int) =~= Seq::<char>::empty());
                assert(out1 + spec_render_items(itemsv, 0) + "]"@ =~= old(out)@ + ("["@
                    + spec_render_items(itemsv, 0) + "]"@));
                assert("["@ =~= seq!['[']);
                assert("]"@ =~= seq![']']);
                assert(out@ =~= old(out)@ + spec_render_json(v@));
            }
        },
        JsonValue::Obj(fields) => {
            out.append("{");
            let ghost fieldsv = v@->Obj_0;
            let ghost out1 = out@;
            proof {
                reveal_strlit("{");
                reveal_strlit("}");
                reveal_strlit(",");
                reveal_strlit("\"");
                reveal_strlit("\":");
            }
            let len = fields.len();
            let mut i: usize = 0;
            while i < len
                invariant
                    len == fields@.len(),
                    i <= len,
                    fieldsv.len() == len,
                    out@ + spec_render_fields(fieldsv, i as int) == out1 + spec_render_fields(
                        fieldsv,
                        0,
                    ),
                decreases len - i,
            {
                let ghost out_a = out@;
                if i > 0 {
                    out.append(",");
                }
                out.append("\"");
                write_escaped(fields[i].0.as_str(), out);
                out.append("\":");
                proof {
                    assert(decreases_to!(*v => v->Obj_0@[i as int].1));
                    assert(fieldsv[i as int].0 == fields@[i as int].0@);
                    assert(fieldsv[i as int].1 == fields@[i as int].1@);
                }
                let ghost out_b = out@;
                write_json(&fields[i].1, out);
                proof {
                    assert(out@ == out_b + spec_render_json(fieldsv[i as int].1));
                    assert(out_a + ((if i > 0 {
                        seq![',']
                    } else {
                        Seq::<char>::empty()
                    }) + seq!['"'] + spec_escaped_from(fieldsv[i as int].0, 0) + seq!['"', ':']
                        + spec_render_json(fieldsv[i as int].1) + spec_render_fields(
                        fieldsv,
                        i + 1,
                    )) =~= out@ + spec_render_fields(fieldsv, i + 1));
                }
                i += 1;
            }
            out.append("}");
            proof {
                assert(spec_render_fields(fieldsv, len as int) =~= Seq::<char>::empty());
                assert("{"@ =~= seq!['{']);
                assert("}"@ =~= seq!['}']);
                assert(out@ =~= old(out)@ + spec_render_json(v@));
            }
        },
    }
}

/// Renders a value as a JSON document, exactly as `spec_render_json`
/// states.
pub fn render_json(v: &JsonValue) -> (r: String)
    ensures
        r@ == spec_render_json(v@),
{
    let mut out = String::new();
    write_json(v, &mut out);
    proof {
        assert(Seq::<char>::empty() + spec_render_json(v@) =~= spec_render_json(v@));
    }
    out
}

fn skip_ws(chars: &Vec<char>, pos: usize) -> (r: usize)
    requires
        pos <= chars@.len(),
    ensures
        pos <= r <= chars@.len(),
{
    let len = chars.len();
    let mut i: usize = pos;
    while i < len && (chars[i] == ' ' || chars[i] == '\t' || chars[i] == '\n' || chars[i] == '\r')
        invariant
            len == chars@.len(),
            pos <= i <= len,
        decreases len - i,
    {
        i += 1;
    }
    i
}

fn match_keyword(chars: &Vec<char>, pos: usize, kw: &str) -> (r: bool)
    requires
        pos <= chars@.len(),
    ensures
        r ==> pos + kw@.len() <= chars@.len(),
{
    let klen = kw.unicode_len();
    let len = chars.len();
    if klen > len - pos {
        return false;
    }
    let mut j: usize = 0;
    while j < klen
        invariant
            klen == kw@.len(),
            len == chars@.len(),
            pos + klen <= len,
            j <= klen,
        decreases klen - j,
    {
        if chars[pos + j] != kw.get_char(j) {
            return false;
        }
        j += 1;
    }
    true
}

fn is_num_char(c: char) -> bool {
    let u = c as u32;
    (48 <= u && u <= 57) || c == '-' || c == '+' || c == '.' || c == 'e' || c == 'E'
}

fn parse_json_string(chars: &Vec<char>, pos: usize) -> (r: Result<(String, usize), String>)
    requires
        pos <= chars@.len(),
    ensures
        r matches Ok(p) ==> pos < p.1 <= chars@.len(),
{
    let len = chars.len();
    if pos >= len || chars[pos] != '"' {
        return Err("expected string".to_owned());
    }
    let mut out = String::new();
    let mut i: usize = pos + 1;
    while i < len
        invariant
            len == chars@.len(),
            pos < i <= len,
        decreases len - i,
    {
        let c = chars[i];
        if c == '"' {
            return Ok((out, i + 1));
        }
        if c == '\\' {
            if i + 1 >= len {
                return Err("unterminated escape".to_owned());
            }
            let e = chars[i + 1];
            if e == '"' {
                out.push('"');
            } else if e == '\\' {
                out.push('\\');
            } else if e == '/' {
                out.push('/');
            } else if e == 'n' {
                out.push('\n');
            } else if e == 't' {
                out.push('\t');
            } else if e == 'r' {
                out.push('\r');
            } else {
                return Err("unsupported escape in string".to_owned());
            }
            i += 2;
        } else {
            out.push(c);
            i += 1;
        }
    }
    Err("unterminated string".to_owned())
}

/// Reads one JSON value; leading whitespace is accepted, and the
/// position after the value is returned.
#[verifier::loop_isolation(false)]
pub fn parse_json_value(chars: &Vec<char>, pos: usize) -> (r: Result<(JsonValue, usize), String>)
    requires
        pos <= chars@.len(),
    ensures
        r matches Ok(p) ==> pos <= p.1 <= chars@.len(),
    decreases chars@.len() - pos, 1int,
{
    let len = chars.len();
    let start = skip_ws(chars, pos);
    if start >= len {
        return Err("unexpected end of document".to_owned());
    }
    let c = chars[start];
    if c == 'n' {
        if match_keyword(chars, start, "null") {
            proof {
                reveal_strlit("null");
            }
            return Ok((JsonValue::Null, start + 4));
        }
        return Err("malformed literal".to_owned());
    }
    if c == 't' {
        if match_keyword(chars, start, "true") {
            proof {
                reveal_strlit("true");
            }
            return Ok((JsonValue::Bool(true), start + 4));
        }
        return Err("malformed literal".to_owned());
    }
    if c == 'f' {
        if match_keyword(chars, start, "false") {
            proof {
                reveal_strlit("false");
            }
            return Ok((JsonValue::Bool(false), start + 5));
        }
        return Err("malformed literal".to_owned());
    }
    if c == '"' {
        let (s, after) = parse_json_string(chars, start)?;
        return Ok((JsonValue::Str(s), after));
    }
    if is_num_char(c) {
        let mut t = String::new();
        let mut i: usize = start;
        while i < len && is_num_char(chars[i])
            invariant
                start <= i <= len,
            decreases len - i,
        {
            t.push(chars[i]);
            i += 1;
        }
        if i == start {
            return Err("malformed number".to_owned());
        }
        return Ok((JsonValue::Num(t), i));
    }
    if c == '[' {
        let mut items: Vec<JsonValue> = Vec::new();
        let mut i: usize = skip_ws(chars, start + 1);
        if i < len && chars[i] == ']' {
            return Ok((JsonValue::Arr(items), i + 1));
        }
        loop
            invariant
                start < i <= chars@.len(),
            decreases chars@.len() - i,
        {
            let (item, after) = parse_json_value(chars, i)?;
            items.push(item);
            let next = skip_ws(chars, after);
            if next < len && chars[next] == ',' {
                let advanced = skip_ws(chars, next + 1);
                if advanced <= i {
                    return Err("malformed array".to_owned());
                }
                i = advanced;
            } else if next < len && chars[next] == ']' {
                return Ok((JsonValue::Arr(items), next + 1));
            } else {
                return Err("expected ',' or ']' in array".to_owned());
            }
        }
    }
    if c == '{' {
        let mut fields: Vec<(String, JsonValue)> = Vec::new();
        let mut i: usize = skip_ws(chars, start + 1);
        if i < len && chars[i] == '}' {
            return Ok((JsonValue::Obj(fields), i + 1));
        }
        loop
            invariant
                start < i <= chars@.len(),
            decreases chars@.len() - i,
        {
            let key_start = skip_ws(chars, i);
            let (key, after_key) = parse_json_string(chars, key_start)?;
            let colon = skip_ws(chars, after_key);
            if colon >= len || chars[colon] != ':' {
                return Err("expected ':' in object".to_owned());
            }
            let (value, after_value) = parse_json_value(chars, colon + 1)?;
            fields.push((key, value));
            let next = skip_ws(chars, after_value);
            if next < len && chars[next] == ',' {
                if next + 1 <= i {
                    return Err("malformed object".to_owned());
                }
                i = next + 1;
            } else if next < len && chars[next] == '}' {
                return Ok((JsonValue::Obj(fields), next + 1));
            } else {
                return Err("expected ',' or '}' in object".to_owned());
            }
        }
    }
    Err("unexpected character in document".to_owned())
}

/// Parses one JSON document; trailing whitespace is accepted.
pub fn parse_json(s: &str) -> (r: Result<JsonValue, String>)
{
    let len = s.unicode_len();
    let mut chars: Vec<char> = Vec::new();
    let mut i: usize = 0;
    while i < len
        invariant
            len == s@.len(),
            i <= len,
        decreases len - i,
    {
        chars.push(s.get_char(i));
        i += 1;
    }
    let (value, after) = parse_json_value(&chars, 0)?;
    let rest = skip_ws(&chars, after);
    if rest < chars.len() {
        return Err("unexpected trailing input in document".to_owned());
    }
    Ok(value)
}


proof fn lemma_dec_digits_len(n: nat)
    ensures
        spec_dec_digits(n).len() >= 1,
        n >= 10 ==> spec_dec_digits(n).len() >= 2,
    decreases n,
{
    if n >= 10 {
        lemma_dec_digits_len(n / 10);
    }
}

/// Two different counters never share a numeral: the decimal rendering
/// is injective, so a parsed counter is exactly the one written.
pub proof fn lemma_numeral_injective(a: u64, b: u64)
    ensures
        spec_u64_numeral(a) == spec_u64_numeral(b) ==> a == b,
    decreases a,
{
    if spec_u64_numeral(a) == spec_u64_numeral(b) {
        lemma_dec_digits_len(a as nat);
        lemma_dec_digits_len(b as nat);
        if a < 10 && b < 10 {
            assert(spec_dec_digits(a as nat)[0] == spec_dec_digits(b as nat)[0]);
        } else if a < 10 || b < 10 {
            assert(spec_dec_digits(a as nat).len() != spec_dec_digits(b as nat).len());
        } else {
            assert(spec_dec_digits(a as nat).last() == spec_dec_digits(b as nat).last());
            assert(a % 10 == b % 10);
            assert(spec_dec_digits(a as nat).drop_last() =~= spec_dec_digits((a / 10) as nat));
            assert(spec_dec_digits(b as nat).drop_last() =~= spec_dec_digits((b / 10) as nat));
            lemma_numeral_injective(a / 10, b / 10);
        }
    }
}

} // verus!


