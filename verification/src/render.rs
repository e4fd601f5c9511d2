//! Textual rendering of decoded values: a locale-independent, decimal
//! rendering of each element, elements separated by a comma and a space,
//! rationals written as numerator, a slash, and denominator.
use vstd::prelude::*;
use vstd::string::StringExecFns;

use crate::value::{Rational, Value, ValueView};

verus! {

/// The decimal digit character for one digit value.
pub open spec fn digit_char(d: int) -> char
    recommends
        0 <= d < 10,
{
    if d == 0 {
        '0'
    } else if d == 1 {
        '1'
    } else if d == 2 {
        '2'
    } else if d == 3 {
        '3'
    } else if d == 4 {
        '4'
    } else if d == 5 {
        '5'
    } else if d == 6 {
        '6'
    } else if d == 7 {
        '7'
    } else if d == 8 {
        '8'
    } else {
        '9'
    }
}

/// The decimal rendering of a natural number, most significant digit
/// first, with no leading zeroes (zero itself is the single digit `0`).
pub open spec fn dec_chars(v: nat) -> Seq<char>
    decreases v,
{
    if v < 10 {
        seq![digit_char(v as int)]
    } else {
        dec_chars(v / 10) + seq![digit_char((v % 10) as int)]
    }
}

/// The decimal rendering of an integer: a leading minus sign for a
/// negative value, then the rendering of its magnitude.
pub open spec fn dec_chars_int(v: int) -> Seq<char> {
    if v < 0 {
        seq!['-'] + dec_chars((-v) as nat)
    } else {
        dec_chars(v as nat)
    }
}

/// The rendering of a rational: numerator, a slash, denominator.
pub open spec fn rational_chars(numerator: int, denominator: int) -> Seq<char> {
    dec_chars_int(numerator) + seq!['/'] + dec_chars_int(denominator)
}

/// Renderings joined by a comma and a space.
pub open spec fn join_chars(parts: Seq<Seq<char>>) -> Seq<char>
    decreases parts.len(),
{
    if parts.len() == 0 {
        Seq::empty()
    } else if parts.len() == 1 {
        parts[0]
    } else {
        join_chars(parts.drop_last()) + seq![',', ' '] + parts.last()
    }
}

/// The rendering of a decoded value: text as itself, every numeric
/// variant as its elements' decimal renderings joined by a comma and a
/// space, undefined bytes rendered like unsigned bytes.
pub open spec fn render_value(v: ValueView) -> Seq<char> {
    match v {
        ValueView::Text(t) => t,
        ValueView::U8(s) => join_chars(Seq::new(s.len(), |i: int| dec_chars_int(s[i] as int))),
        ValueView::I8(s) => join_chars(Seq::new(s.len(), |i: int| dec_chars_int(s[i] as int))),
        ValueView::U16(s) => join_chars(Seq::new(s.len(), |i: int| dec_chars_int(s[i] as int))),
        ValueView::I16(s) => join_chars(Seq::new(s.len(), |i: int| dec_chars_int(s[i] as int))),
        ValueView::U32(s) => join_chars(Seq::new(s.len(), |i: int| dec_chars_int(s[i] as int))),
        ValueView::I32(s) => join_chars(Seq::new(s.len(), |i: int| dec_chars_int(s[i] as int))),
        ValueView::URational(s) => join_chars(
            Seq::new(s.len(), |i: int| rational_chars(s[i].0 as int, s[i].1 as int)),
        ),
        ValueView::IRational(s) => join_chars(
            Seq::new(s.len(), |i: int| rational_chars(s[i].0 as int, s[i].1 as int)),
        ),
        ValueView::Undefined(s) => join_chars(
            Seq::new(s.len(), |i: int| dec_chars_int(s[i] as int)),
        ),
    }
}

fn digit_str(d: u64) -> (r: &'static str)
    requires
        d < 10,
    ensures
        r@ == seq![digit_char(d as int)],
{
    if d == 0 {
        proof {
            reveal_strlit("0");
            assert("0"@ =~= seq![digit_char(0int)]);
        }
        "0"
    } else if d == 1 {
        proof {
            reveal_strlit("1");
            assert("1"@ =~= seq![digit_char(1int)]);
        }
        "1"
    } else if d == 2 {
        proof {
            reveal_strlit("2");
            assert("2"@ =~= seq![digit_char(2int)]);
        }
        "2"
    } else if d == 3 {
        proof {
            reveal_strlit("3");
            assert("3"@ =~= seq![digit_char(3int)]);
        }
        "3"
    } else if d == 4 {
        proof {
            reveal_strlit("4");
            assert("4"@ =~= seq![digit_char(4int)]);
        }
        "4"
    } else if d == 5 {
        proof {
            reveal_strlit("5");
            assert("5"@ =~= seq![digit_char(5int)]);
        }
        "5"
    } else if d == 6 {
        proof {
            reveal_strlit("6");
            assert("6"@ =~= seq![digit_char(6int)]);
        }
        "6"
    } else if d == 7 {
        proof {
            reveal_strlit("7");
            assert("7"@ =~= seq![digit_char(7int)]);
        }
        "7"
    } else if d == 8 {
        proof {
            reveal_strlit("8");
            assert("8"@ =~= seq![digit_char(8int)]);
        }
        "8"
    } else {
        proof {
            reveal_strlit("9");
            assert("9"@ =~= seq![digit_char(9int)]);
        }
        "9"
    }
}

fn push_dec_u64(out: &mut String, v: u64)
    ensures
        final(out)@ == old(out)@ + dec_chars(v as nat),
    decreases v,
{
    if v < 10 {
        out.append(digit_str(v));
    } else {
        push_dec_u64(out, v / 10);
        out.append(digit_str(v % 10));
        proof {
            assert(final(out)@ =~= old(out)@ + dec_chars(v as nat));
        }
    }
}

fn push_dec_i64(out: &mut String, v: i64)
    ensures
        final(out)@ == old(out)@ + dec_chars_int(v as int),
    decreases v,
{
    if v >= 0 {
        push_dec_u64(out, v as u64);
    } else {
        proof {
            reveal_strlit("-");
            assert("-"@ =~= seq!['-']);
        }
        out.append("-");
        let magnitude: u64 = if v == i64::MIN {
            0x8000_0000_0000_0000u64
        } else {
            (-v) as u64
        };
        push_dec_u64(out, magnitude);
        proof {
            assert(final(out)@ =~= old(out)@ + dec_chars_int(v as int));
        }
    }
}

fn push_separator(out: &mut String)
    ensures
        final(out)@ == old(out)@ + seq![',', ' '],
{
    proof {
        reveal_strlit(", ");
        assert(", "@ =~= seq![',', ' ']);
    }
    out.append(", ");
}

fn join_dec_ints(vals: &Vec<i64>) -> (r: String)
    ensures
        r@ == join_chars(Seq::new(vals@.len(), |i: int| dec_chars_int(vals@[i] as int))),
{
    let ghost parts = Seq::new(vals@.len(), |i: int| dec_chars_int(vals@[i] as int));
    let mut out = String::new();
    let mut i: usize = 0;
    while i < vals.len()
        invariant
            i <= vals@.len(),
            parts == Seq::new(vals@.len(), |j: int| dec_chars_int(vals@[j] as int)),
            out@ == join_chars(parts.subrange(0, i as int)),
        decreases vals@.len() - i,
    {
        if i > 0 {
            push_separator(&mut out);
        }
        push_dec_i64(&mut out, vals[i]);
        proof {
            assert(parts.subrange(0, i + 1).drop_last() =~= parts.subrange(0, i as int));
            assert(parts.subrange(0, i + 1).last() == parts[i as int]);
            if i == 0 {
                assert(out@ =~= join_chars(parts.subrange(0, i + 1)));
            }
        }
        i += 1;
    }
    proof {
        assert(parts.subrange(0, parts.len() as int) =~= parts);
    }
    out
}

fn join_dec_urationals(vals: &Vec<Rational<u32>>) -> (r: String)
    ensures
        r@ == join_chars(
            Seq::new(vals@.len(), |i: int| rational_chars(vals@[i].0 as int, vals@[i].1 as int)),
        ),
{
    let ghost parts = Seq::new(
        vals@.len(),
        |i: int| rational_chars(vals@[i].0 as int, vals@[i].1 as int),
    );
    let mut out = String::new();
    let mut i: usize = 0;
    while i < vals.len()
        invariant
            i <= vals@.len(),
            parts == Seq::new(
                vals@.len(),
                |j: int| rational_chars(vals@[j].0 as int, vals@[j].1 as int),
            ),
            out@ == join_chars(parts.subrange(0, i as int)),
        decreases vals@.len() - i,
    {
        if i > 0 {
            push_separator(&mut out);
        }
        push_dec_i64(&mut out, vals[i].0 as i64);
        proof {
            reveal_strlit("/");
            assert("/"@ =~= seq!['/']);
        }
        out.append("/");
        push_dec_i64(&mut out, vals[i].1 as i64);
        proof {
            assert(parts.subrange(0, i + 1).drop_last() =~= parts.subrange(0, i as int));
            assert(parts.subrange(0, i + 1).last() == parts[i as int]);
            assert(out@ =~= join_chars(parts.subrange(0, i + 1)));
        }
        i += 1;
    }
    proof {
        assert(parts.subrange(0, parts.len() as int) =~= parts);
    }
    out
}

fn join_dec_irationals(vals: &Vec<Rational<i32>>) -> (r: String)
    ensures
        r@ == join_chars(
            Seq::new(vals@.len(), |i: int| rational_chars(vals@[i].0 as int, vals@[i].1 as int)),
        ),
{
    let ghost parts = Seq::new(
        vals@.len(),
        |i: int| rational_chars(vals@[i].0 as int, vals@[i].1 as int),
    );
    let mut out = String::new();
    let mut i: usize = 0;
    while i < vals.len()
        invariant
            i <= vals@.len(),
            parts == Seq::new(
                vals@.len(),
                |j: int| rational_chars(vals@[j].0 as int, vals@[j].1 as int),
            ),
            out@ == join_chars(parts.subrange(0, i as int)),
        decreases vals@.len() - i,
    {
        if i > 0 {
            push_separator(&mut out);
        }
        push_dec_i64(&mut out, vals[i].0 as i64);
        proof {
            reveal_strlit("/");
            assert("/"@ =~= seq!['/']);
        }
        out.append("/");
        push_dec_i64(&mut out, vals[i].1 as i64);
        proof {
            assert(parts.subrange(0, i + 1).drop_last() =~= parts.subrange(0, i as int));
            assert(parts.subrange(0, i + 1).last() == parts[i as int]);
            assert(out@ =~= join_chars(parts.subrange(0, i + 1)));
        }
        i += 1;
    }
    proof {
        assert(parts.subrange(0, parts.len() as int) =~= parts);
    }
    out
}

fn u8s_as_i64s(vals: &Vec<u8>) -> (r: Vec<i64>)
    ensures
        r@.len() == vals@.len(),
        forall|i: int| 0 <= i < r@.len() ==> r@[i] == vals@[i] as i64,
{
    let mut out: Vec<i64> = Vec::new();
    let mut i: usize = 0;
    while i < vals.len()
        invariant
            i <= vals@.len(),
            out@.len() == i,
            forall|j: int| 0 <= j < i ==> out@[j] == vals@[j] as i64,
        decreases vals@.len() - i,
    {
        out.push(vals[i] as i64);
        i += 1;
    }
    out
}

fn i8s_as_i64s(vals: &Vec<i8>) -> (r: Vec<i64>)
    ensures
        r@.len() == vals@.len(),
        forall|i: int| 0 <= i < r@.len() ==> r@[i] == vals@[i] as i64,
{
    let mut out: Vec<i64> = Vec::new();
    let mut i: usize = 0;
    while i < vals.len()
        invariant
            i <= vals@.len(),
            out@.len() == i,
            forall|j: int| 0 <= j < i ==> out@[j] == vals@[j] as i64,
        decreases vals@.len() - i,
    {
        out.push(vals[i] as i64);
        i += 1;
    }
    out
}

fn u16s_as_i64s(vals: &Vec<u16>) -> (r: Vec<i64>)
    ensures
        r@.len() == vals@.len(),
        forall|i: int| 0 <= i < r@.len() ==> r@[i] == vals@[i] as i64,
{
    let mut out: Vec<i64> = Vec::new();
    let mut i: usize = 0;
    while i < vals.len()
        invariant
            i <= vals@.len(),
            out@.len() == i,
            forall|j: int| 0 <= j < i ==> out@[j] == vals@[j] as i64,
        decreases vals@.len() - i,
    {
        out.push(vals[i] as i64);
        i += 1;
    }
    out
}

fn i16s_as_i64s(vals: &Vec<i16>) -> (r: Vec<i64>)
    ensures
        r@.len() == vals@.len(),
        forall|i: int| 0 <= i < r@.len() ==> r@[i] == vals@[i] as i64,
{
    let mut out: Vec<i64> = Vec::new();
    let mut i: usize = 0;
    while i < vals.len()
        invariant
            i <= vals@.len(),
            out@.len() == i,
            forall|j: int| 0 <= j < i ==> out@[j] == vals@[j] as i64,
        decreases vals@.len() - i,
    {
        out.push(vals[i] as i64);
        i += 1;
    }
    out
}

fn u32s_as_i64s(vals: &Vec<u32>) -> (r: Vec<i64>)
    ensures
        r@.len() == vals@.len(),
        forall|i: int| 0 <= i < r@.len() ==> r@[i] == vals@[i] as i64,
{
    let mut out: Vec<i64> = Vec::new();
    let mut i: usize = 0;
    while i < vals.len()
        invariant
            i <= vals@.len(),
            out@.len() == i,
            forall|j: int| 0 <= j < i ==> out@[j] == vals@[j] as i64,
        decreases vals@.len() - i,
    {
        out.push(vals[i] as i64);
        i += 1;
    }
    out
}

fn i32s_as_i64s(vals: &Vec<i32>) -> (r: Vec<i64>)
    ensures
        r@.len() == vals@.len(),
        forall|i: int| 0 <= i < r@.len() ==> r@[i] == vals@[i] as i64,
{
    let mut out: Vec<i64> = Vec::new();
    let mut i: usize = 0;
    while i < vals.len()
        invariant
            i <= vals@.len(),
            out@.len() == i,
            forall|j: int| 0 <= j < i ==> out@[j] == vals@[j] as i64,
        decreases vals@.len() - i,
    {
        out.push(vals[i] as i64);
        i += 1;
    }
    out
}

/// Render a decoded value as text, as [`render_value`] describes it.
pub fn value_text(value: &Value) -> (r: String)
    ensures
        r@ == render_value(value@),
{
    match value {
        Value::Text(s) => s.clone(),
        Value::U8(v) => {
            let ints = u8s_as_i64s(v);
            let r = join_dec_ints(&ints);
            proof {
                assert(Seq::new(ints@.len(), |i: int| dec_chars_int(ints@[i] as int)) =~= Seq::new(
                    v@.len(),
                    |i: int| dec_chars_int(v@[i] as int),
                ));
            }
            r
        },
        Value::I8(v) => {
            let ints = i8s_as_i64s(v);
            let r = join_dec_ints(&ints);
            proof {
                assert(Seq::new(ints@.len(), |i: int| dec_chars_int(ints@[i] as int)) =~= Seq::new(
                    v@.len(),
                    |i: int| dec_chars_int(v@[i] as int),
                ));
            }
            r
        },
        Value::U16(v) => {
            let ints = u16s_as_i64s(v);
            let r = join_dec_ints(&ints);
            proof {
                assert(Seq::new(ints@.len(), |i: int| dec_chars_int(ints@[i] as int)) =~= Seq::new(
                    v@.len(),
                    |i: int| dec_chars_int(v@[i] as int),
                ));
            }
            r
        },
        Value::I16(v) => {
            let ints = i16s_as_i64s(v);
            let r = join_dec_ints(&ints);
            proof {
                assert(Seq::new(ints@.len(), |i: int| dec_chars_int(ints@[i] as int)) =~= Seq::new(
                    v@.len(),
                    |i: int| dec_chars_int(v@[i] as int),
                ));
            }
            r
        },
        Value::U32(v) => {
            let ints = u32s_as_i64s(v);
            let r = join_dec_ints(&ints);
            proof {
                assert(Seq::new(ints@.len(), |i: int| dec_chars_int(ints@[i] as int)) =~= Seq::new(
                    v@.len(),
                    |i: int| dec_chars_int(v@[i] as int),
                ));
            }
            r
        },
        Value::I32(v) => {
            let ints = i32s_as_i64s(v);
            let r = join_dec_ints(&ints);
            proof {
                assert(Seq::new(ints@.len(), |i: int| dec_chars_int(ints@[i] as int)) =~= Seq::new(
                    v@.len(),
                    |i: int| dec_chars_int(v@[i] as int),
                ));
            }
            r
        },
        Value::URational(v) => join_dec_urationals(v),
        Value::IRational(v) => join_dec_irationals(v),
        Value::Undefined(v) => {
            let ints = u8s_as_i64s(v);
            let r = join_dec_ints(&ints);
            proof {
                assert(Seq::new(ints@.len(), |i: int| dec_chars_int(ints@[i] as int)) =~= Seq::new(
                    v@.len(),
                    |i: int| dec_chars_int(v@[i] as int),
                ));
            }
            r
        },
    }
}

} // verus!
