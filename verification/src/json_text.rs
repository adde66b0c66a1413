//! The compact JSON text of a value: no spaces, strings escaped with `\"`,
//! `\\`, `\n`, `\r`, `\t`, `\b`, `\f` and `\u00XX` for other control
//! characters, fields in their order.
use vstd::prelude::*;
use crate::json::{Json, JsonValue, jv, jv_fields, jv_items, lemma_jv_fields_len, lemma_jv_items_len};
use crate::text::{chars_of, decimal, decimal_string, push_str};

verus! {

broadcast use vstd::std_specs::vec::group_vec_axioms;

/// The lower-case hexadecimal digit for `d` (`d < 16`).
pub open spec fn hex_digit(d: nat) -> char {
    if d < 10 {
        (('0' as u32) + d) as char
    } else {
        (('a' as u32) + d - 10) as char
    }
}

/// How a character is written inside a JSON string.
pub open spec fn escape_char(c: char) -> Seq<char> {
    if c == '"' {
        seq!['\\', '"']
    } else if c == '\\' {
        seq!['\\', '\\']
    } else if c == '\n' {
        seq!['\\', 'n']
    } else if c == '\r' {
        seq!['\\', 'r']
    } else if c == '\t' {
        seq!['\\', 't']
    } else if c == '\u{8}' {
        seq!['\\', 'b']
    } else if c == '\u{c}' {
        seq!['\\', 'f']
    } else if (c as u32) < 0x20 {
        seq!['\\', 'u', '0', '0', hex_digit(((c as u32) / 16) as nat), hex_digit(((c as u32) % 16) as nat)]
    } else {
        seq![c]
    }
}

/// The characters of a string as written inside a JSON string.
pub open spec fn escaped(s: Seq<char>) -> Seq<char>
    decreases s.len(),
{
    if s.len() == 0 {
        Seq::empty()
    } else {
        escaped(s.drop_last()) + escape_char(s.last())
    }
}

/// A JSON string literal.
pub open spec fn quoted(s: Seq<char>) -> Seq<char> {
    seq!['"'] + escaped(s) + seq!['"']
}

/// An integer in decimal, with a minus sign when negative.
pub open spec fn int_text(i: int) -> Seq<char> {
    if i < 0 {
        seq!['-'] + decimal((-i) as nat)
    } else {
        decimal(i as nat)
    }
}

/// The compact JSON text of a value.
pub open spec fn json_text(j: Json) -> Seq<char>
    decreases j,
{
    match j {
        Json::Null => "null"@,
        Json::Bool(b) => if b {
            "true"@
        } else {
            "false"@
        },
        Json::Int(i) => int_text(i),
        Json::Number(t) => t,
        Json::Str(s) => quoted(s),
        Json::Array(items) => seq!['['] + items_text(items) + seq![']'],
        Json::Object(fields) => seq!['{'] + fields_text(fields) + seq!['}'],
    }
}

/// Values written one after another, separated by commas.
pub open spec fn items_text(items: Seq<Json>) -> Seq<char>
    decreases items,
{
    if items.len() == 0 {
        Seq::empty()
    } else if items.len() == 1 {
        json_text(items[0])
    } else {
        items_text(items.drop_last()) + seq![','] + json_text(items.last())
    }
}

/// Fields written as `"key":value`, separated by commas.
pub open spec fn fields_text(fields: Seq<(Seq<char>, Json)>) -> Seq<char>
    decreases fields,
{
    if fields.len() == 0 {
        Seq::empty()
    } else if fields.len() == 1 {
        quoted(fields[0].0) + seq![':'] + json_text(fields[0].1)
    } else {
        fields_text(fields.drop_last()) + seq![','] + quoted(fields.last().0) + seq![':'] + json_text(fields.last().1)
    }
}

fn hex(d: u32) -> (c: char)
    requires
        d < 16,
    ensures
        c == hex_digit(d as nat),
{
    if d < 10 {
        let u = 0x30u32 + d;
        assert(u == ('0' as u32) + d);
        (u as u8) as char
    } else {
        let u = 0x61u32 + d - 10;
        assert(u == ('a' as u32) + d - 10);
        (u as u8) as char
    }
}

fn push_escaped_char(out: &mut String, c: char)
    ensures
        final(out)@ == old(out)@ + escape_char(c),
{
    let ghost before = out@;
    if c == '"' {
        out.push('\\');
        out.push('"');
    } else if c == '\\' {
        out.push('\\');
        out.push('\\');
    } else if c == '\n' {
        out.push('\\');
        out.push('n');
    } else if c == '\r' {
        out.push('\\');
        out.push('r');
    } else if c == '\t' {
        out.push('\\');
        out.push('t');
    } else if c == '\u{8}' {
        out.push('\\');
        out.push('b');
    } else if c == '\u{c}' {
        out.push('\\');
        out.push('f');
    } else if (c as u32) < 0x20 {
        let u = c as u32;
        out.push('\\');
        out.push('u');
        out.push('0');
        out.push('0');
        out.push(hex(u / 16));
        out.push(hex(u % 16));
    } else {
        out.push(c);
    }
    assert(out@ =~= before + escape_char(c));
}

/// Appends a JSON string literal holding `s`.
pub fn push_quoted(out: &mut String, s: &str)
    ensures
        final(out)@ == old(out)@ + quoted(s@),
{
    let ghost start = out@;
    let cs = chars_of(s);
    out.push('"');
    let mut i: usize = 0;
    while i < cs.len()
        invariant
            cs@ == s@,
            i <= cs@.len(),
            out@ == start + seq!['"'] + escaped(cs@.take(i as int)),
        decreases cs.len() - i,
    {
        assert(cs@.take(i + 1).drop_last() =~= cs@.take(i as int));
        push_escaped_char(out, cs[i]);
        assert(out@ =~= start + seq!['"'] + escaped(cs@.take(i + 1)));
        i += 1;
    }
    assert(cs@.take(cs@.len() as int) =~= cs@);
    out.push('"');
    assert(out@ =~= start + quoted(s@));
}

fn push_int(out: &mut String, i: i64)
    ensures
        final(out)@ == old(out)@ + int_text(i as int),
{
    if i < 0 {
        out.push('-');
        let m: u64 = if i == i64::MIN {
            9223372036854775808u64
        } else {
            (-i) as u64
        };
        push_str(out, decimal_string(m).as_str());
    } else {
        push_str(out, decimal_string(i as u64).as_str());
    }
}

/// Appends the compact JSON text of `v`.
pub fn write_json(v: &JsonValue, out: &mut String)
    ensures
        final(out)@ == old(out)@ + json_text(jv(*v)),
    decreases v,
{
    let ghost start = out@;
    match v {
        JsonValue::Null => push_str(out, "null"),
        JsonValue::Bool(b) => if *b {
            push_str(out, "true")
        } else {
            push_str(out, "false")
        },
        JsonValue::Int(i) => push_int(out, *i),
        JsonValue::UInt(u) => push_str(out, decimal_string(*u).as_str()),
        JsonValue::Number(t) => push_str(out, t.as_str()),
        JsonValue::Str(s) => push_quoted(out, s.as_str()),
        JsonValue::Array(items) => {
            let ghost iv = jv_items(items@);
            proof {
                lemma_jv_items_len(items@);
            }
            out.push('[');
            let mut i: usize = 0;
            while i < items.len()
                invariant
                    *v == JsonValue::Array(*items),
                    iv == jv_items(items@),
                    iv.len() == items@.len(),
                    forall|k: int| 0 <= k < items@.len() ==> #[trigger] iv[k] == jv(items@[k]),
                    i <= items@.len(),
                    out@ == start + seq!['['] + items_text(iv.take(i as int)),
                decreases items.len() - i,
            {
                proof {
                    assert(decreases_to!(*v => v->Array_0));
                    assert(decreases_to!(*items => items@));
                    assert(decreases_to!(items@ => items@[i as int]));
                    assert(iv.take(i + 1).drop_last() =~= iv.take(i as int));
                }
                if i > 0 {
                    out.push(',');
                }
                write_json(&items[i], out);
                proof {
                    if i == 0 {
                        assert(iv.take(1) =~= seq![iv[0]]);
                    }
                    assert(out@ =~= start + seq!['['] + items_text(iv.take(i + 1)));
                }
                i += 1;
            }
            assert(iv.take(items@.len() as int) =~= iv);
            out.push(']');
            assert(out@ =~= start + json_text(jv(*v)));
        },
        JsonValue::Object(fields) => {
            let ghost fv = jv_fields(fields@);
            proof {
                lemma_jv_fields_len(fields@);
            }
            out.push('{');
            let mut i: usize = 0;
            while i < fields.len()
                invariant
                    *v == JsonValue::Object(*fields),
                    fv == jv_fields(fields@),
                    fv.len() == fields@.len(),
                    forall|k: int| 0 <= k < fields@.len() ==> #[trigger] fv[k] == (fields@[k].0@, jv(fields@[k].1)),
                    i <= fields@.len(),
                    out@ == start + seq!['{'] + fields_text(fv.take(i as int)),
                decreases fields.len() - i,
            {
                proof {
                    assert(decreases_to!(*v => v->Object_0));
                    assert(decreases_to!(*fields => fields@));
                    assert(decreases_to!(fields@ => fields@[i as int]));
                    assert(decreases_to!(fields@[i as int] => fields@[i as int].1));
                    assert(fv.take(i + 1).drop_last() =~= fv.take(i as int));
                }
                if i > 0 {
                    out.push(',');
                }
                push_quoted(out, fields[i].0.as_str());
                out.push(':');
                write_json(&fields[i].1, out);
                proof {
                    if i == 0 {
                        assert(fv.take(1) =~= seq![fv[0]]);
                    }
                    assert(out@ =~= start + seq!['{'] + fields_text(fv.take(i + 1)));
                }
                i += 1;
            }
            assert(fv.take(fields@.len() as int) =~= fv);
            out.push('}');
            assert(out@ =~= start + json_text(jv(*v)));
        },
    }
}

/// The compact JSON text of `v`.
pub fn to_json_text(v: &JsonValue) -> (r: String)
    ensures
        r@ == json_text(jv(*v)),
{
    let mut out = String::new();
    write_json(v, &mut out);
    assert(out@ =~= json_text(jv(*v)));
    out
}

} // verus!
