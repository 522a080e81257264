//! A small JSON document model with a verified printer and parser.
//!
//! The grammar covers what the platform's event payloads use: `null`, the two
//! booleans, unsigned integer numbers, strings (with the short escape
//! sequences), arrays and objects. Documents outside this subset (signed or
//! fractional numbers, `\u` escapes) are rejected by the parser.

use vstd::prelude::*;
use vstd::string::*;

verus! {

/// An owned JSON document.
pub enum Json {
    Null,
    Bool(bool),
    UInt(u64),
    Str(String),
    Arr(Vec<Json>),
    Obj(Vec<(String, Json)>),
}

/// The mathematical value of a [`Json`] document.
pub enum JsonV {
    Null,
    Bool(bool),
    UInt(u64),
    Str(Seq<char>),
    Arr(Seq<JsonV>),
    Obj(Seq<(Seq<char>, JsonV)>),
}

impl View for Json {
    type V = JsonV;

    open spec fn view(&self) -> JsonV
        decreases self,
    {
        match self {
            Json::Null => JsonV::Null,
            Json::Bool(b) => JsonV::Bool(*b),
            Json::UInt(n) => JsonV::UInt(*n),
            Json::Str(s) => JsonV::Str(s@),
            Json::Arr(items) => JsonV::Arr(view_items(items@)),
            Json::Obj(fields) => JsonV::Obj(view_fields(fields@)),
        }
    }
}

/// The values of a sequence of documents, element by element.
pub open spec fn view_items(s: Seq<Json>) -> Seq<JsonV>
    decreases s,
{
    if s.len() == 0 {
        Seq::empty()
    } else {
        seq![s[0]@] + view_items(s.drop_first())
    }
}

/// The values of an object's fields, pair by pair.
pub open spec fn view_fields(s: Seq<(String, Json)>) -> Seq<(Seq<char>, JsonV)>
    decreases s,
{
    if s.len() == 0 {
        Seq::empty()
    } else {
        seq![(s[0].0@, s[0].1@)] + view_fields(s.drop_first())
    }
}

/// `view_items` keeps the length and maps each element to its value.
pub broadcast proof fn lemma_view_items(s: Seq<Json>)
    ensures
        (#[trigger] view_items(s)).len() == s.len(),
        forall|i: int| 0 <= i < s.len() ==> view_items(s)[i] == s[i]@,
    decreases s,
{
    if s.len() != 0 {
        lemma_view_items(s.drop_first());
        assert(view_items(s) == seq![s[0]@] + view_items(s.drop_first()));
        assert forall|i: int| 0 <= i < s.len() implies view_items(s)[i] == s[i]@ by {
            if i > 0 {
                assert(view_items(s)[i] == view_items(s.drop_first())[i - 1]);
                assert(s.drop_first()[i - 1] == s[i]);
            }
        }
    }
}

/// `view_fields` keeps the length and maps each pair to its values.
pub broadcast proof fn lemma_view_fields(s: Seq<(String, Json)>)
    ensures
        (#[trigger] view_fields(s)).len() == s.len(),
        forall|i: int| 0 <= i < s.len() ==> view_fields(s)[i] == (s[i].0@, s[i].1@),
    decreases s,
{
    if s.len() != 0 {
        lemma_view_fields(s.drop_first());
        assert(view_fields(s) == seq![(s[0].0@, s[0].1@)] + view_fields(s.drop_first()));
        assert forall|i: int| 0 <= i < s.len() implies view_fields(s)[i] == (s[i].0@, s[i].1@) by {
            if i > 0 {
                assert(view_fields(s)[i] == view_fields(s.drop_first())[i - 1]);
                assert(s.drop_first()[i - 1] == s[i]);
            }
        }
    }
}

/// The first value bound to `key` in an object's field list, if any.
pub open spec fn obj_get(fields: Seq<(Seq<char>, JsonV)>, key: Seq<char>) -> Option<JsonV>
    decreases fields.len(),
{
    if fields.len() == 0 {
        None
    } else if fields[0].0 == key {
        Some(fields[0].1)
    } else {
        obj_get(fields.drop_first(), key)
    }
}

/// The decimal digit for a value below ten.
pub open spec fn digit_char(d: u64) -> char {
    if d == 0 { '0' } else if d == 1 { '1' } else if d == 2 { '2' } else if d == 3 { '3' }
    else if d == 4 { '4' } else if d == 5 { '5' } else if d == 6 { '6' } else if d == 7 { '7' }
    else if d == 8 { '8' } else { '9' }
}

/// The shortest decimal rendering of `n`.
pub open spec fn print_u64(n: u64) -> Seq<char>
    decreases n,
{
    if n < 10 {
        seq![digit_char(n)]
    } else {
        print_u64(n / 10) + seq![digit_char(n % 10)]
    }
}

/// How one character is written inside a string literal: a quote or a
/// backslash is escaped, every other character stands as itself.
pub open spec fn escape_char(c: char) -> Seq<char> {
    if c == '"' {
        seq!['\\', '"']
    } else if c == '\\' {
        seq!['\\', '\\']
    } else {
        seq![c]
    }
}

/// The body of a string literal, character by character.
pub open spec fn escape_str(s: Seq<char>) -> Seq<char>
    decreases s.len(),
{
    if s.len() == 0 {
        Seq::empty()
    } else {
        escape_str(s.drop_last()) + escape_char(s.last())
    }
}

/// A quoted, escaped string literal.
pub open spec fn print_str(s: Seq<char>) -> Seq<char> {
    seq!['"'] + escape_str(s) + seq!['"']
}

/// The canonical text of a JSON value: no whitespace, fields in the order the
/// object holds them.
pub open spec fn print_json(j: JsonV) -> Seq<char>
    decreases j,
{
    match j {
        JsonV::Null => seq!['n', 'u', 'l', 'l'],
        JsonV::Bool(b) => if b { seq!['t', 'r', 'u', 'e'] } else { seq!['f', 'a', 'l', 's', 'e'] },
        JsonV::UInt(n) => print_u64(n),
        JsonV::Str(s) => print_str(s),
        JsonV::Arr(items) => seq!['['] + print_items(items) + seq![']'],
        JsonV::Obj(fields) => seq!['{'] + print_fields(fields) + seq!['}'],
    }
}

/// Array elements joined by commas.
pub open spec fn print_items(items: Seq<JsonV>) -> Seq<char>
    decreases items,
{
    if items.len() == 0 {
        Seq::empty()
    } else if items.len() == 1 {
        print_json(items[0])
    } else {
        print_json(items[0]) + seq![','] + print_items(items.drop_first())
    }
}

/// Object fields, each a quoted key, a colon and a value, joined by commas.
pub open spec fn print_fields(fields: Seq<(Seq<char>, JsonV)>) -> Seq<char>
    decreases fields,
{
    if fields.len() == 0 {
        Seq::empty()
    } else if fields.len() == 1 {
        print_str(fields[0].0) + seq![':'] + print_json(fields[0].1)
    } else {
        print_str(fields[0].0) + seq![':'] + print_json(fields[0].1) + seq![',']
            + print_fields(fields.drop_first())
    }
}

/// Extending an array's element list appends one comma-separated rendering.
pub proof fn lemma_print_items_push(items: Seq<JsonV>, x: JsonV)
    ensures
        print_items(items.push(x)) == if items.len() == 0 {
            print_json(x)
        } else {
            (print_items(items) + seq![','] + print_json(x))
        },
    decreases items,
{
    if items.len() == 0 {
        assert(items.push(x)[0] == x);
        assert(items.push(x).len() == 1);
    } else {
        lemma_print_items_push(items.drop_first(), x);
        assert(items.push(x).drop_first() =~= items.drop_first().push(x));
        assert(items.push(x)[0] == items[0]);
        if items.len() == 1 {
            assert(print_items(items) == print_json(items[0]));
        }
        assert(print_items(items.push(x)) == print_json(items[0]) + seq![','] + print_items(
            items.drop_first().push(x),
        ));
        if items.drop_first().len() == 0 {
            assert(print_items(items.push(x)) == print_json(items[0]) + seq![','] + print_json(x));
        } else {
            assert(print_items(items.push(x)) == print_json(items[0]) + seq![','] + (print_items(
                items.drop_first(),
            ) + seq![','] + print_json(x)));
            assert(print_json(items[0]) + seq![','] + (print_items(items.drop_first()) + seq![',']
                + print_json(x)) =~= (print_json(items[0]) + seq![','] + print_items(
                items.drop_first(),
            )) + seq![','] + print_json(x));
        }
    }
}

/// Extending an object's field list appends one comma-separated rendering.
pub proof fn lemma_print_fields_push(fields: Seq<(Seq<char>, JsonV)>, k: Seq<char>, v: JsonV)
    ensures
        print_fields(fields.push((k, v))) == if fields.len() == 0 {
            (print_str(k) + seq![':'] + print_json(v))
        } else {
            (print_fields(fields) + seq![','] + (print_str(k) + seq![':'] + print_json(v)))
        },
    decreases fields,
{
    let fx = fields.push((k, v));
    if fields.len() == 0 {
        assert(fx[0] == (k, v));
        assert(fx.len() == 1);
    } else {
        lemma_print_fields_push(fields.drop_first(), k, v);
        assert(fx.drop_first() =~= fields.drop_first().push((k, v)));
        assert(fx[0] == fields[0]);
        let head = print_str(fields[0].0) + seq![':'] + print_json(fields[0].1);
        let entry = print_str(k) + seq![':'] + print_json(v);
        assert(print_fields(fx) == head + seq![','] + print_fields(fields.drop_first().push((k, v))));
        if fields.drop_first().len() == 0 {
            assert(print_fields(fx) == head + seq![','] + entry);
            assert(print_fields(fields) == head);
        } else {
            assert(print_fields(fx) == head + seq![','] + (print_fields(fields.drop_first())
                + seq![','] + entry));
            assert(head + seq![','] + (print_fields(fields.drop_first()) + seq![','] + entry)
                =~= (head + seq![','] + print_fields(fields.drop_first())) + seq![','] + entry);
        }
    }
}

/// Relies on `String::push`: appends exactly one character.
#[verifier::external_body]
pub(crate) fn push_char(out: &mut String, c: char)
    ensures
        final(out)@ == old(out)@ + seq![c],
{
    out.push(c);
}

/// The decimal digit for a value below ten.
fn digit_char_of(d: u64) -> (c: char)
    requires
        d < 10,
    ensures
        c == digit_char(d),
{
    if d == 0 { '0' } else if d == 1 { '1' } else if d == 2 { '2' } else if d == 3 { '3' }
    else if d == 4 { '4' } else if d == 5 { '5' } else if d == 6 { '6' } else if d == 7 { '7' }
    else if d == 8 { '8' } else { '9' }
}

/// Writes the decimal rendering of `n`.
fn write_u64(n: u64, out: &mut String)
    ensures
        final(out)@ == old(out)@ + print_u64(n),
    decreases n,
{
    if n < 10 {
        push_char(out, digit_char_of(n));
    } else {
        write_u64(n / 10, out);
        push_char(out, digit_char_of(n % 10));
        proof {
            assert((old(out)@ + print_u64(n / 10)) + seq![digit_char(n % 10)] =~= old(out)@
                + (print_u64(n / 10) + seq![digit_char(n % 10)]));
        }
    }
}

/// Writes a quoted, escaped string literal.
fn write_str_value(s: &str, out: &mut String)
    ensures
        final(out)@ == old(out)@ + print_str(s@),
{
    push_char(out, '"');
    let n = s.unicode_len();
    let mut i: usize = 0;
    while i < n
        invariant
            n == s@.len(),
            i <= n,
            out@ == old(out)@ + seq!['"'] + escape_str(s@.take(i as int)),
        decreases n - i,
    {
        let c = s.get_char(i);
        proof {
            assert(s@.take(i as int + 1).drop_last() =~= s@.take(i as int));
            assert(s@.take(i as int + 1).last() == s@[i as int]);
            assert(escape_str(s@.take(i as int + 1)) == escape_str(s@.take(i as int))
                + escape_char(s@[i as int]));
        }
        if c == '"' {
            push_char(out, '\\');
            push_char(out, '"');
        } else if c == '\\' {
            push_char(out, '\\');
            push_char(out, '\\');
        } else {
            push_char(out, c);
        }
        proof {
            assert(out@ =~= old(out)@ + seq!['"'] + escape_str(s@.take(i as int + 1)));
        }
        i = i + 1;
    }
    proof {
        assert(s@.take(n as int) =~= s@);
    }
    push_char(out, '"');
    proof {
        assert(out@ =~= old(out)@ + print_str(s@));
    }
}

/// Writes the canonical text of `j` after what `out` already holds.
#[verifier::rlimit(80)]
#[verifier::loop_isolation(false)]
pub fn write_json(j: &Json, out: &mut String)
    ensures
        final(out)@ == old(out)@ + print_json(j@),
    decreases j,
{
    match j {
        Json::Null => {
            out.append("null");
            proof {
                reveal_strlit("null");
                assert(out@ =~= old(out)@ + print_json(j@));
            }
        },
        Json::Bool(b) => {
            if *b {
                out.append("true");
                proof {
                    reveal_strlit("true");
                    assert(out@ =~= old(out)@ + print_json(j@));
                }
            } else {
                out.append("false");
                proof {
                    reveal_strlit("false");
                    assert(out@ =~= old(out)@ + print_json(j@));
                }
            }
        },
        Json::UInt(n) => {
            write_u64(*n, out);
        },
        Json::Str(s) => {
            write_str_value(s.as_str(), out);
        },
        Json::Arr(items) => {
            push_char(out, '[');
            let ghost iv = view_items(items@);
            proof {
                lemma_view_items(items@);
            }
            let mut i: usize = 0;
            while i < items.len()
                invariant
                    i <= items.len(),
                    iv == view_items(items@),
                    iv.len() == items@.len(),
                    forall|k: int| 0 <= k < items@.len() ==> iv[k] == items@[k]@,
                    out@ == old(out)@ + seq!['['] + print_items(iv.take(i as int)),
                decreases items.len() - i,
            {
                if i > 0 {
                    push_char(out, ',');
                }
                proof {
                    assert(decreases_to!(*j => j->Arr_0));
                    assert(decreases_to!(*items => items@));
                    assert(decreases_to!(items@ => items@[i as int]));
                    assert(decreases_to!(*j => items@[i as int]));
                }
                write_json(&items[i], out);
                proof {
                    lemma_print_items_push(iv.take(i as int), iv[i as int]);
                    assert(iv.take(i as int).push(iv[i as int]) =~= iv.take(i as int + 1));
                    assert(out@ =~= old(out)@ + seq!['['] + print_items(iv.take(i as int + 1)));
                }
                i = i + 1;
            }
            proof {
                assert(iv.take(items@.len() as int) =~= iv);
            }
            push_char(out, ']');
            proof {
                assert(out@ =~= old(out)@ + print_json(j@));
            }
        },
        Json::Obj(fields) => {
            push_char(out, '{');
            let ghost fv = view_fields(fields@);
            proof {
                lemma_view_fields(fields@);
            }
            let mut i: usize = 0;
            while i < fields.len()
                invariant
                    i <= fields.len(),
                    fv == view_fields(fields@),
                    fv.len() == fields@.len(),
                    forall|k: int| 0 <= k < fields@.len() ==> fv[k] == (fields@[k].0@, fields@[k].1@),
                    out@ == old(out)@ + seq!['{'] + print_fields(fv.take(i as int)),
                decreases fields.len() - i,
            {
                if i > 0 {
                    push_char(out, ',');
                }
                write_str_value(fields[i].0.as_str(), out);
                push_char(out, ':');
                proof {
                    assert(decreases_to!(*j => j->Obj_0));
                    assert(decreases_to!(*fields => fields@));
                    assert(decreases_to!(fields@ => fields@[i as int]));
                    assert(decreases_to!(fields@[i as int] => fields@[i as int].1));
                    assert(decreases_to!(*j => fields@[i as int].1));
                }
                write_json(&fields[i].1, out);
                proof {
                    lemma_print_fields_push(fv.take(i as int), fv[i as int].0, fv[i as int].1);
                    assert(fv.take(i as int).push(fv[i as int]) =~= fv.take(i as int + 1));
                    assert(out@ =~= old(out)@ + seq!['{'] + print_fields(fv.take(i as int + 1)));
                }
                i = i + 1;
            }
            proof {
                assert(fv.take(fields@.len() as int) =~= fv);
            }
            push_char(out, '}');
            proof {
                assert(out@ =~= old(out)@ + print_json(j@));
            }
        },
    }
}

/// The canonical text of `j` as an owned string.
pub fn to_text(j: &Json) -> (r: String)
    ensures
        r@ == print_json(j@),
{
    let mut out = String::new();
    write_json(j, &mut out);
    out
}

/// JSON insignificant whitespace.
pub open spec fn is_ws(c: char) -> bool {
    c == ' ' || c == '\t' || c == '\n' || c == '\r'
}

/// The first position at or after `i` that does not hold whitespace.
pub open spec fn skip_ws(s: Seq<char>, i: int) -> int
    decreases s.len() - i,
{
    if 0 <= i && i < s.len() && is_ws(s[i]) {
        skip_ws(s, i + 1)
    } else {
        i
    }
}

/// `x`, forced into the closed interval from `lo` to the text's length.
///
/// The recursive grammar functions below measure their progress by the
/// distance to the end of the text, so every position handed to a recursive
/// call runs through this bound. On every reachable path the bound changes
/// nothing, which `skip_ws` and the parsing functions themselves guarantee;
/// it only makes the measure's decrease plain to the termination checker.
pub open spec fn bounded_pos(s: Seq<char>, x: int, lo: int) -> int {
    if x < lo {
        lo
    } else if x > s.len() {
        s.len() as int
    } else {
        x
    }
}

/// A decimal digit.
pub open spec fn is_digit(c: char) -> bool {
    c == '0' || c == '1' || c == '2' || c == '3' || c == '4' || c == '5' || c == '6' || c == '7'
        || c == '8' || c == '9'
}

/// The value of a decimal digit.
pub open spec fn digit_val(c: char) -> u64 {
    if c == '0' { 0 } else if c == '1' { 1 } else if c == '2' { 2 } else if c == '3' { 3 }
    else if c == '4' { 4 } else if c == '5' { 5 } else if c == '6' { 6 } else if c == '7' { 7 }
    else if c == '8' { 8 } else { 9 }
}

/// The first position at or after `i` that does not hold a digit.
pub open spec fn digits_end(s: Seq<char>, i: int) -> int
    decreases s.len() - i,
{
    if 0 <= i && i < s.len() && is_digit(s[i]) {
        digits_end(s, i + 1)
    } else {
        i
    }
}

/// The value of the digit run from `i` (inclusive) to `end` (exclusive).
pub open spec fn digits_value(s: Seq<char>, i: int, end: int) -> nat
    decreases end - i,
{
    if end <= i {
        0
    } else {
        (digits_value(s, i, end - 1) * 10 + digit_val(s[end - 1])) as nat
    }
}

/// A number: a digit run whose value fits in `u64`.
pub open spec fn parse_number(s: Seq<char>, i: int) -> Option<(JsonV, int)> {
    let end = digits_end(s, i);
    if end == i {
        None
    } else if digits_value(s, i, end) > u64::MAX {
        None
    } else {
        Some((JsonV::UInt(digits_value(s, i, end) as u64), end))
    }
}

/// The character an escape sequence stands for, if the sequence is known.
pub open spec fn unescape(c: char) -> Option<char> {
    if c == '"' { Some('"') } else if c == '\\' { Some('\\') } else if c == '/' { Some('/') }
    else if c == 'n' { Some('\n') } else if c == 't' { Some('\t') } else if c == 'r' { Some('\r') }
    else if c == 'b' { Some('\u{8}') } else if c == 'f' { Some('\u{c}') } else { None }
}

/// The body of a string literal starting at `i` (just past the opening
/// quote): the characters up to the closing quote, and the position past it.
pub open spec fn parse_string_body(s: Seq<char>, i: int) -> Option<(Seq<char>, int)>
    decreases s.len() - i,
{
    if i < 0 || i >= s.len() {
        None
    } else if s[i] == '"' {
        Some((Seq::empty(), i + 1))
    } else if s[i] == '\\' {
        if i + 1 >= s.len() {
            None
        } else {
            match unescape(s[i + 1]) {
                None => None,
                Some(c) => match parse_string_body(s, i + 2) {
                    None => None,
                    Some((rest, j)) => Some((seq![c] + rest, j)),
                },
            }
        }
    } else {
        match parse_string_body(s, i + 1) {
            None => None,
            Some((rest, j)) => Some((seq![s[i]] + rest, j)),
        }
    }
}

/// One JSON value starting exactly at `i` (no leading whitespace), and the
/// position just past it.
pub open spec fn parse_value(s: Seq<char>, i: int) -> Option<(JsonV, int)>
    decreases s.len() - i, 0int,
{
    if i < 0 || i >= s.len() {
        None
    } else if s[i] == 'n' {
        if i + 4 <= s.len() && s[i + 1] == 'u' && s[i + 2] == 'l' && s[i + 3] == 'l' {
            Some((JsonV::Null, i + 4))
        } else {
            None
        }
    } else if s[i] == 't' {
        if i + 4 <= s.len() && s[i + 1] == 'r' && s[i + 2] == 'u' && s[i + 3] == 'e' {
            Some((JsonV::Bool(true), i + 4))
        } else {
            None
        }
    } else if s[i] == 'f' {
        if i + 5 <= s.len() && s[i + 1] == 'a' && s[i + 2] == 'l' && s[i + 3] == 's' && s[i + 4]
            == 'e' {
            Some((JsonV::Bool(false), i + 5))
        } else {
            None
        }
    } else if s[i] == '"' {
        match parse_string_body(s, i + 1) {
            None => None,
            Some((st, j)) => Some((JsonV::Str(st), j)),
        }
    } else if is_digit(s[i]) {
        parse_number(s, i)
    } else if s[i] == '[' {
        let j = bounded_pos(s, skip_ws(s, i + 1), i + 1);
        if j < s.len() && s[j] == ']' {
            Some((JsonV::Arr(Seq::empty()), j + 1))
        } else {
            match parse_items(s, j) {
                None => None,
                Some((items, k)) => Some((JsonV::Arr(items), k)),
            }
        }
    } else if s[i] == '{' {
        let j = bounded_pos(s, skip_ws(s, i + 1), i + 1);
        if j < s.len() && s[j] == '}' {
            Some((JsonV::Obj(Seq::empty()), j + 1))
        } else {
            match parse_fields(s, j) {
                None => None,
                Some((fields, k)) => Some((JsonV::Obj(fields), k)),
            }
        }
    } else {
        None
    }
}

/// One or more comma-separated array elements starting exactly at `i`, up to
/// and including the closing bracket.
pub open spec fn parse_items(s: Seq<char>, i: int) -> Option<(Seq<JsonV>, int)>
    decreases s.len() - i, 1int,
{
    if i < 0 || i >= s.len() {
        None
    } else {
        match parse_value(s, i) {
            None => None,
            Some((v, k)) => {
                let k2 = bounded_pos(s, skip_ws(s, k), i);
                if k2 < s.len() && s[k2] == ',' {
                    let n = bounded_pos(s, skip_ws(s, k2 + 1), i + 1);
                    match parse_items(s, n) {
                        None => None,
                        Some((rest, m)) => Some((seq![v] + rest, m)),
                    }
                } else if k2 < s.len() && s[k2] == ']' {
                    Some((seq![v], k2 + 1))
                } else {
                    None
                }
            },
        }
    }
}

/// One or more comma-separated object fields starting exactly at `i`, up to
/// and including the closing brace.
pub open spec fn parse_fields(s: Seq<char>, i: int) -> Option<(Seq<(Seq<char>, JsonV)>, int)>
    decreases s.len() - i, 1int,
{
    if i < 0 || i >= s.len() || s[i] != '"' {
        None
    } else {
        match parse_string_body(s, i + 1) {
            None => None,
            Some((key, k)) => {
                let k2 = bounded_pos(s, skip_ws(s, k), i);
                if k2 < s.len() && s[k2] == ':' {
                    let k3 = bounded_pos(s, skip_ws(s, k2 + 1), i + 1);
                    match parse_value(s, k3) {
                        None => None,
                        Some((v, m)) => {
                            let m2 = bounded_pos(s, skip_ws(s, m), i);
                            if m2 < s.len() && s[m2] == ',' {
                                let n = bounded_pos(s, skip_ws(s, m2 + 1), i + 1);
                                match parse_fields(s, n) {
                                    None => None,
                                    Some((rest, e)) => Some((seq![(key, v)] + rest, e)),
                                }
                            } else if m2 < s.len() && s[m2] == '}' {
                                Some((seq![(key, v)], m2 + 1))
                            } else {
                                None
                            }
                        },
                    }
                } else {
                    None
                }
            },
        }
    }
}

/// The value of a whole document: one JSON value, possibly surrounded by
/// whitespace, with nothing after it.
pub open spec fn parse_json(s: Seq<char>) -> Option<JsonV> {
    match parse_value(s, skip_ws(s, 0)) {
        None => None,
        Some((v, j)) => if skip_ws(s, j) == s.len() {
            Some(v)
        } else {
            None
        },
    }
}


/// The characters of `s`, one vector element per character.
fn str_to_chars(s: &str) -> (v: Vec<char>)
    ensures
        v@ == s@,
{
    let n = s.unicode_len();
    let mut v: Vec<char> = Vec::new();
    let mut i: usize = 0;
    while i < n
        invariant
            n == s@.len(),
            i <= n,
            v@ == s@.take(i as int),
        decreases n - i,
    {
        v.push(s.get_char(i));
        proof {
            assert(s@.take(i as int).push(s@[i as int]) =~= s@.take(i as int + 1));
        }
        i = i + 1;
    }
    proof {
        assert(s@.take(n as int) =~= s@);
    }
    v
}

/// Whether `c` is JSON whitespace.
fn is_ws_x(c: char) -> (b: bool)
    ensures
        b == is_ws(c),
{
    c == ' ' || c == '\t' || c == '\n' || c == '\r'
}

/// Whether `c` is a decimal digit.
fn is_digit_x(c: char) -> (b: bool)
    ensures
        b == is_digit(c),
{
    c == '0' || c == '1' || c == '2' || c == '3' || c == '4' || c == '5' || c == '6' || c == '7'
        || c == '8' || c == '9'
}

/// The value of a decimal digit.
fn digit_val_x(c: char) -> (d: u64)
    ensures
        d == digit_val(c),
{
    if c == '0' { 0 } else if c == '1' { 1 } else if c == '2' { 2 } else if c == '3' { 3 }
    else if c == '4' { 4 } else if c == '5' { 5 } else if c == '6' { 6 } else if c == '7' { 7 }
    else if c == '8' { 8 } else { 9 }
}

/// Skips whitespace from `i` on.
fn skip_ws_x(s: &Vec<char>, i: usize) -> (r: usize)
    requires
        i <= s@.len(),
    ensures
        r as int == skip_ws(s@, i as int),
        i <= r <= s@.len(),
{
    let mut p: usize = i;
    while p < s.len() && is_ws_x(s[p])
        invariant
            i <= p <= s@.len(),
            skip_ws(s@, i as int) == skip_ws(s@, p as int),
        decreases s@.len() - p,
    {
        p = p + 1;
    }
    p
}

/// Finds the end of the digit run from `i` on.
fn digits_end_x(s: &Vec<char>, i: usize) -> (r: usize)
    requires
        i <= s@.len(),
    ensures
        r as int == digits_end(s@, i as int),
        i <= r <= s@.len(),
        forall|k: int| i <= k < r ==> is_digit(s@[k]),
{
    let mut p: usize = i;
    while p < s.len() && is_digit_x(s[p])
        invariant
            i <= p <= s@.len(),
            digits_end(s@, i as int) == digits_end(s@, p as int),
            forall|k: int| i <= k < p ==> is_digit(s@[k]),
        decreases s@.len() - p,
    {
        p = p + 1;
    }
    p
}

/// Parses a number starting at `i`.
fn parse_number_x(s: &Vec<char>, i: usize) -> (r: Option<(u64, usize)>)
    requires
        i <= s@.len(),
    ensures
        match r {
            Some((n, k)) => parse_number(s@, i as int) == Some((JsonV::UInt(n), k as int)) && i
                < k <= s@.len(),
            None => parse_number(s@, i as int) is None,
        },
{
    let end = digits_end_x(s, i);
    if end == i {
        return None;
    }
    let mut acc: u128 = 0;
    let mut over: bool = false;
    let mut p: usize = i;
    while p < end
        invariant
            i <= p <= end <= s@.len(),
            end as int == digits_end(s@, i as int),
            forall|k: int| i <= k < end ==> is_digit(s@[k]),
            !over ==> acc == digits_value(s@, i as int, p as int) && acc <= u64::MAX as u128,
            over ==> digits_value(s@, i as int, p as int) > u64::MAX,
        decreases end - p,
    {
        let d = digit_val_x(s[p]);
        proof {
            assert(digits_value(s@, i as int, p as int + 1) == digits_value(
                s@,
                i as int,
                p as int,
            ) * 10 + digit_val(s@[p as int]));
        }
        if !over {
            acc = acc * 10 + d as u128;
            if acc > u64::MAX as u128 {
                over = true;
            }
        }
        p = p + 1;
    }
    if over {
        None
    } else {
        Some((acc as u64, end))
    }
}

/// The character an escape sequence stands for, if the sequence is known.
fn unescape_x(c: char) -> (r: Option<char>)
    ensures
        r == unescape(c),
{
    if c == '"' { Some('"') } else if c == '\\' { Some('\\') } else if c == '/' { Some('/') }
    else if c == 'n' { Some('\n') } else if c == 't' { Some('\t') } else if c == 'r' { Some('\r') }
    else if c == 'b' { Some('\u{8}') } else if c == 'f' { Some('\u{c}') } else { None }
}

/// Parses a string literal's body from just past the opening quote.
fn parse_string_x(s: &Vec<char>, i: usize) -> (r: Option<(String, usize)>)
    requires
        i <= s@.len(),
    ensures
        match r {
            Some((st, k)) => parse_string_body(s@, i as int) == Some((st@, k as int)) && i < k
                <= s@.len(),
            None => parse_string_body(s@, i as int) is None,
        },
{
    let mut out = String::new();
    let mut p: usize = i;
    loop
        invariant
            i <= p <= s@.len(),
            match parse_string_body(s@, p as int) {
                None => parse_string_body(s@, i as int) is None,
                Some((rest, j)) => parse_string_body(s@, i as int) == Some((out@ + rest, j)),
            },
        decreases s@.len() - p,
    {
        if p >= s.len() {
            return None;
        }
        let c = s[p];
        if c == '"' {
            proof {
                assert(out@ + Seq::<char>::empty() =~= out@);
            }
            return Some((out, p + 1));
        } else if c == '\\' {
            if p + 1 >= s.len() {
                return None;
            }
            match unescape_x(s[p + 1]) {
                None => {
                    return None;
                },
                Some(u) => {
                    let ghost out_old = out@;
                    push_char(&mut out, u);
                    proof {
                        assert forall|rest: Seq<char>, j: int|
                            parse_string_body(s@, p as int + 2) == Some::<(Seq<char>, int)>((
                                rest,
                                j,
                            )) implies out_old + (seq![u] + rest) =~= out@ + rest by {}
                    }
                    p = p + 2;
                },
            }
        } else {
            let ghost out_old = out@;
            push_char(&mut out, c);
            proof {
                assert forall|rest: Seq<char>, j: int|
                    parse_string_body(s@, p as int + 1) == Some::<(Seq<char>, int)>((
                        rest,
                        j,
                    )) implies out_old + (seq![c] + rest) =~= out@ + rest by {}
            }
            p = p + 1;
        }
    }
}


/// Parses one JSON value starting exactly at `i`.
#[verifier::rlimit(100)]
#[verifier::loop_isolation(false)]
fn parse_value_x(s: &Vec<char>, i: usize) -> (r: Option<(Json, usize)>)
    requires
        i <= s@.len(),
    ensures
        match r {
            Some((v, k)) => parse_value(s@, i as int) == Some((v@, k as int)) && i < k <= s@.len(),
            None => parse_value(s@, i as int) is None,
        },
    decreases s@.len() - i,
{
    if i >= s.len() {
        return None;
    }
    let c = s[i];
    if c == 'n' {
        if s.len() - i >= 4 && s[i + 1] == 'u' && s[i + 2] == 'l' && s[i + 3] == 'l' {
            Some((Json::Null, i + 4))
        } else {
            None
        }
    } else if c == 't' {
        if s.len() - i >= 4 && s[i + 1] == 'r' && s[i + 2] == 'u' && s[i + 3] == 'e' {
            Some((Json::Bool(true), i + 4))
        } else {
            None
        }
    } else if c == 'f' {
        if s.len() - i >= 5 && s[i + 1] == 'a' && s[i + 2] == 'l' && s[i + 3] == 's' && s[i + 4]
            == 'e' {
            Some((Json::Bool(false), i + 5))
        } else {
            None
        }
    } else if c == '"' {
        match parse_string_x(s, i + 1) {
            None => None,
            Some((st, k)) => Some((Json::Str(st), k)),
        }
    } else if is_digit_x(c) {
        match parse_number_x(s, i) {
            None => None,
            Some((n, k)) => Some((Json::UInt(n), k)),
        }
    } else if c == '[' {
        let mut p = skip_ws_x(s, i + 1);
        if p < s.len() && s[p] == ']' {
            proof {
                assert(view_items(Seq::<Json>::empty()) == Seq::<JsonV>::empty());
            }
            return Some((Json::Arr(Vec::new()), p + 1));
        }
        let mut items: Vec<Json> = Vec::new();
        proof {
            assert(view_items(items@) + Seq::<JsonV>::empty() =~= view_items(items@));
        }
        loop
            invariant
                i < p <= s@.len(),
                match parse_items(s@, p as int) {
                    None => parse_value(s@, i as int) is None,
                    Some((rest, m)) => parse_value(s@, i as int) == Some((
                        JsonV::Arr(view_items(items@) + rest),
                        m,
                    )),
                },
            decreases s@.len() - p,
        {
            match parse_value_x(s, p) {
                None => {
                    return None;
                },
                Some((v, k)) => {
                    let k2 = skip_ws_x(s, k);
                    if k2 < s.len() && s[k2] == ',' {
                        let p2 = skip_ws_x(s, k2 + 1);
                        let ghost items_old = items@;
                        items.push(v);
                        proof {
                            lemma_view_items(items_old);
                            lemma_view_items(items@);
                            assert(items@ == items_old.push(v));
                            assert(view_items(items@) =~= view_items(items_old) + seq![v@]);
                            assert forall|rest2: Seq<JsonV>|
                                true implies view_items(items_old) + (seq![v@] + rest2)
                                =~= view_items(items@) + rest2 by {}
                        }
                        p = p2;
                    } else if k2 < s.len() && s[k2] == ']' {
                        let ghost items_old = items@;
                        items.push(v);
                        proof {
                            lemma_view_items(items_old);
                            lemma_view_items(items@);
                            assert(items@ == items_old.push(v));
                            assert(view_items(items@) =~= view_items(items_old) + seq![v@]);
                        }
                        return Some((Json::Arr(items), k2 + 1));
                    } else {
                        return None;
                    }
                },
            }
        }
    } else if c == '{' {
        let mut p = skip_ws_x(s, i + 1);
        if p < s.len() && s[p] == '}' {
            proof {
                assert(view_fields(Seq::<(String, Json)>::empty()) == Seq::<(
                    Seq<char>,
                    JsonV,
                )>::empty());
            }
            return Some((Json::Obj(Vec::new()), p + 1));
        }
        let mut fields: Vec<(String, Json)> = Vec::new();
        proof {
            assert(view_fields(fields@) + Seq::<(Seq<char>, JsonV)>::empty() =~= view_fields(
                fields@,
            ));
        }
        loop
            invariant
                i < p <= s@.len(),
                match parse_fields(s@, p as int) {
                    None => parse_value(s@, i as int) is None,
                    Some((rest, m)) => parse_value(s@, i as int) == Some((
                        JsonV::Obj(view_fields(fields@) + rest),
                        m,
                    )),
                },
            decreases s@.len() - p,
        {
            if p >= s.len() || s[p] != '"' {
                return None;
            }
            match parse_string_x(s, p + 1) {
                None => {
                    return None;
                },
                Some((key, k)) => {
                    let k2 = skip_ws_x(s, k);
                    if k2 < s.len() && s[k2] == ':' {
                        let k3 = skip_ws_x(s, k2 + 1);
                        match parse_value_x(s, k3) {
                            None => {
                                return None;
                            },
                            Some((v, m)) => {
                                let m2 = skip_ws_x(s, m);
                                if m2 < s.len() && s[m2] == ',' {
                                    let p2 = skip_ws_x(s, m2 + 1);
                                    let ghost fields_old = fields@;
                                    let ghost kv = (key@, v@);
                                    fields.push((key, v));
                                    proof {
                                        lemma_view_fields(fields_old);
                                        lemma_view_fields(fields@);
                                        assert(fields@ == fields_old.push(fields@[fields_old.len() as int]));
                                        assert(view_fields(fields@) =~= view_fields(fields_old)
                                            + seq![kv]);
                                        assert forall|rest2: Seq<(Seq<char>, JsonV)>|
                                            true implies view_fields(fields_old) + (seq![kv]
                                            + rest2) =~= view_fields(fields@) + rest2 by {}
                                    }
                                    p = p2;
                                } else if m2 < s.len() && s[m2] == '}' {
                                    let ghost fields_old = fields@;
                                    let ghost kv = (key@, v@);
                                    fields.push((key, v));
                                    proof {
                                        lemma_view_fields(fields_old);
                                        lemma_view_fields(fields@);
                                        assert(view_fields(fields@) =~= view_fields(fields_old)
                                            + seq![kv]);
                                    }
                                    return Some((Json::Obj(fields), m2 + 1));
                                } else {
                                    return None;
                                }
                            },
                        }
                    } else {
                        return None;
                    }
                },
            }
        }
    } else {
        None
    }
}

/// Parses a whole document: one JSON value, possibly surrounded by
/// whitespace, with nothing after it.
pub fn parse_text(s: &str) -> (r: Option<Json>)
    ensures
        match r {
            Some(j) => parse_json(s@) == Some(j@),
            None => parse_json(s@) is None,
        },
{
    let chars = str_to_chars(s);
    let p = skip_ws_x(&chars, 0);
    match parse_value_x(&chars, p) {
        None => None,
        Some((j, k)) => {
            let e = skip_ws_x(&chars, k);
            if e == chars.len() {
                Some(j)
            } else {
                None
            }
        },
    }
}

} // verus!
