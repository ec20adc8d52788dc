use vstd::prelude::*;
use vstd::string::StringExecFns;

use crate::text::{
    decimal, hex_bytes, join, lemma_join_step, push_hex, push_int, push_str,
};

verus! {

/// A dynamically typed payload as it arrives in a response.
///
/// `Float` keeps the IEEE 754 double-precision bits of the number (a single-precision
/// number is widened first, which is exact), together with the decimal text that Rust's
/// float formatting gives for a finite value. `Text(None)` is a string that was not
/// valid UTF-8.
pub enum Value {
    Nil,
    Boolean(bool),
    Integer(i128),
    Float { bits: u64, text: String },
    Text(Option<String>),
    Binary(Vec<u8>),
    Array(Vec<Value>),
    Mapping(Vec<(Value, Value)>),
    Ext(i8, Vec<u8>),
}

pub open spec fn is_nan_bits(bits: u64) -> bool {
    (bits >> 52u64) & 0x7ffu64 == 0x7ffu64 && bits & 0xf_ffff_ffff_ffffu64 != 0
}

pub const POS_INFINITY_BITS: u64 = 0x7ff0_0000_0000_0000u64;

pub const NEG_INFINITY_BITS: u64 = 0xfff0_0000_0000_0000u64;

/// Display text of a double given by its bits; `text` is the rendering of a finite value.
pub open spec fn float_text(bits: u64, text: Seq<char>) -> Seq<char> {
    if is_nan_bits(bits) {
        "NaN"@
    } else if bits == POS_INFINITY_BITS {
        "Infinity"@
    } else if bits == NEG_INFINITY_BITS {
        "-Infinity"@
    } else {
        text
    }
}

/// Every not-a-number reads `NaN`, and the two infinities read `Infinity` and
/// `-Infinity`, whatever finite rendering the value carries.
pub proof fn lemma_non_finite_text(bits: u64, text: String)
    ensures
        is_nan_bits(bits) ==> canonical(Value::Float { bits, text }) == "NaN"@,
        canonical(Value::Float { bits: POS_INFINITY_BITS, text }) == "Infinity"@,
        canonical(Value::Float { bits: NEG_INFINITY_BITS, text }) == "-Infinity"@,
{
    assert(!is_nan_bits(POS_INFINITY_BITS)) by (bit_vector);
    assert(!is_nan_bits(NEG_INFINITY_BITS)) by (bit_vector);
}

/// The canonical display text of a value.
pub open spec fn canonical(v: Value) -> Seq<char>
    decreases v,
{
    match v {
        Value::Nil => "null"@,
        Value::Boolean(b) => if b { "true"@ } else { "false"@ },
        Value::Integer(i) => decimal(i as int),
        Value::Float { bits, text } => float_text(bits, text@),
        Value::Text(s) => match s {
            Some(t) => t@,
            None => seq![],
        },
        Value::Binary(b) => hex_bytes(b@),
        Value::Array(items) => "["@ + join(item_texts(items@), ", "@) + "]"@,
        Value::Mapping(pairs) => "{"@ + join(pair_texts(pairs@), ", "@) + "}"@,
        Value::Ext(_, _) => "<ext>"@,
    }
}

/// The canonical text of each item of a sequence.
pub open spec fn item_texts(items: Seq<Value>) -> Seq<Seq<char>>
    decreases items,
{
    Seq::new(
        items.len(),
        |i: int|
            if 0 <= i < items.len() {
                canonical(items[i])
            } else {
                seq![]
            },
    )
}

/// The text `key: value` of each entry of a mapping.
pub open spec fn pair_texts(pairs: Seq<(Value, Value)>) -> Seq<Seq<char>>
    decreases pairs,
{
    Seq::new(
        pairs.len(),
        |i: int|
            if 0 <= i < pairs.len() {
                canonical(pairs[i].0) + ": "@ + canonical(pairs[i].1)
            } else {
                seq![]
            },
    )
}

/// The text of a double given by its bits: `NaN`, `Infinity`, `-Infinity` for the
/// non-finite values, else `text`.
pub fn float_to_string(bits: u64, text: &String) -> (r: String)
    ensures
        r@ == float_text(bits, text@),
{
    if (bits >> 52u64) & 0x7ffu64 == 0x7ffu64 && bits & 0xf_ffff_ffff_ffffu64 != 0 {
        String::from_str("NaN")
    } else if bits == POS_INFINITY_BITS {
        String::from_str("Infinity")
    } else if bits == NEG_INFINITY_BITS {
        String::from_str("-Infinity")
    } else {
        text.clone()
    }
}

/// Appends the canonical text of `v`.
pub fn push_value(out: &mut String, v: &Value)
    ensures
        final(out)@ == old(out)@ + canonical(*v),
    decreases v,
{
    match v {
        Value::Nil => push_str(out, "null"),
        Value::Boolean(b) => {
            if *b {
                push_str(out, "true")
            } else {
                push_str(out, "false")
            }
        },
        Value::Integer(i) => push_int(out, *i),
        Value::Float { bits, text } => {
            let t = float_to_string(*bits, text);
            push_str(out, t.as_str());
        },
        Value::Text(s) => {
            match s {
                Some(t) => push_str(out, t.as_str()),
                None => {
                    assert(old(out)@ + seq![] =~= old(out)@);
                },
            }
        },
        Value::Binary(b) => push_hex(out, b),
        Value::Array(items) => {
            let ghost start = out@;
            let ghost parts = item_texts(items@);
            assert forall|i: int| 0 <= i < items@.len() implies decreases_to!(*v => #[trigger] items@[i]) by {
                assert(decreases_to!(*v => items@[i]));
            }
            push_str(out, "[");
            let mut k: usize = 0;
            while k < items.len()
                invariant
                    *v == Value::Array(*items),
                    forall|i: int| 0 <= i < items@.len() ==> decreases_to!(*v => #[trigger] items@[i]),
                    k <= items@.len(),
                    parts.len() == items@.len(),
                    forall|i: int| 0 <= i < items@.len() ==> parts[i] == canonical(#[trigger] items@[i]),
                    out@ == start + "["@ + join(parts.take(k as int), ", "@),
                decreases items.len() - k,
            {
                proof {
                    lemma_join_step(parts, k as int, ", "@);
                }
                if k > 0 {
                    push_str(out, ", ");
                }
                push_value(out, &items[k]);
                k = k + 1;
                assert(out@ =~= start + "["@ + join(parts.take(k as int), ", "@));
            }
            push_str(out, "]");
            assert(parts.take(k as int) =~= parts);
                        assert(out@ =~= start + canonical(*v));
        },
        Value::Mapping(pairs) => {
            let ghost start = out@;
            let ghost parts = pair_texts(pairs@);
            assert forall|i: int| 0 <= i < pairs@.len() implies decreases_to!(*v => #[trigger] pairs@[i].0)
                && decreases_to!(*v => pairs@[i].1) by {
                assert(decreases_to!(*v => pairs@[i]));
                assert(decreases_to!(*v => pairs@[i].0));
                assert(decreases_to!(*v => pairs@[i].1));
            }
            push_str(out, "{");
            let mut k: usize = 0;
            while k < pairs.len()
                invariant
                    *v == Value::Mapping(*pairs),
                    forall|i: int| 0 <= i < pairs@.len() ==> decreases_to!(*v => #[trigger] pairs@[i].0)
                        && decreases_to!(*v => pairs@[i].1),
                    k <= pairs@.len(),
                    parts.len() == pairs@.len(),
                    forall|i: int|
                        0 <= i < pairs@.len() ==> parts[i] == canonical(#[trigger] pairs@[i].0) + ": "@
                            + canonical(pairs@[i].1),
                    out@ == start + "{"@ + join(parts.take(k as int), ", "@),
                decreases pairs.len() - k,
            {
                proof {
                    lemma_join_step(parts, k as int, ", "@);
                }
                if k > 0 {
                    push_str(out, ", ");
                }
                let pair = &pairs[k];
                push_value(out, &pair.0);
                push_str(out, ": ");
                push_value(out, &pair.1);
                k = k + 1;
                assert(out@ =~= start + "{"@ + join(parts.take(k as int), ", "@));
            }
            push_str(out, "}");
            assert(parts.take(k as int) =~= parts);
                        assert(out@ =~= start + canonical(*v));
        },
        Value::Ext(_, _) => push_str(out, "<ext>"),
    }
}

/// The canonical display text of a response payload.
pub fn value_to_mcp_string(value: Value) -> (r: String)
    ensures
        r@ == canonical(value),
{
    let mut out = String::new();
    push_value(&mut out, &value);
    assert(out@ =~= canonical(value));
    out
}

} // verus!
