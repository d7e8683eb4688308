//! Rendering of a decoded value tree to JSON text, compact or pretty.
//!
//! Both renderings are specified character by character as spec functions,
//! and the executable renderers are proved to emit exactly that text, so
//! rendering the same tree twice yields byte-identical output.  Byte
//! sequences render as arrays of numbers; keys are quoted with the usual
//! JSON escapes; the pretty form indents by two spaces per level.

use vstd::prelude::*;
use vstd::string::StrSliceExecFns;
use crate::value::{
    lemma_value_entries_model, value_entries_model, value_model, ValueMap, ValueModel, ValueNode,
};

verus! {

/// The decimal digit character for `n` in `0 ..= 9`.
pub open spec fn dec_digit(n: int) -> char {
    if n == 0 {
        '0'
    } else if n == 1 {
        '1'
    } else if n == 2 {
        '2'
    } else if n == 3 {
        '3'
    } else if n == 4 {
        '4'
    } else if n == 5 {
        '5'
    } else if n == 6 {
        '6'
    } else if n == 7 {
        '7'
    } else if n == 8 {
        '8'
    } else {
        '9'
    }
}

/// The decimal rendering of a nonnegative number, most significant digit
/// first, with no leading zeros.
pub open spec fn dec_str(n: int) -> Seq<char>
    decreases n,
{
    if n < 10 {
        seq![dec_digit(n)]
    } else {
        dec_str(n / 10).push(dec_digit(n % 10))
    }
}

/// The lower-case hexadecimal digit character for `n` in `0 ..= 15`.
pub open spec fn hex_digit(n: int) -> char {
    if n < 10 {
        dec_digit(n)
    } else if n == 10 {
        'a'
    } else if n == 11 {
        'b'
    } else if n == 12 {
        'c'
    } else if n == 13 {
        'd'
    } else if n == 14 {
        'e'
    } else {
        'f'
    }
}

/// How one character appears inside a JSON string: quotes and backslashes
/// are escaped, control characters take the `\u00..` form, and every other
/// character stands for itself.
pub open spec fn escape_char(c: char) -> Seq<char> {
    if c == '"' {
        seq!['\\', '"']
    } else if c == '\\' {
        seq!['\\', '\\']
    } else if (c as u32) < 32 {
        seq!['\\', 'u', '0', '0', hex_digit((c as u32) as int / 16), hex_digit(
            (c as u32) as int % 16,
        )]
    } else {
        seq![c]
    }
}

/// The escaped rendering of the characters of `s` from index `i` on.
pub open spec fn escape_from(s: Seq<char>, i: int) -> Seq<char>
    decreases s.len() - i,
{
    if i < 0 || i >= s.len() {
        Seq::empty()
    } else {
        escape_char(s[i]) + escape_from(s, i + 1)
    }
}

/// A JSON string literal: the escaped characters between double quotes.
pub open spec fn quoted(s: Seq<char>) -> Seq<char> {
    seq!['"'] + escape_from(s, 0) + seq!['"']
}

/// The compact rendering of the bytes of `bs` from index `i` on, as
/// comma-separated decimal numbers.
pub open spec fn rc_bytes(bs: Seq<u8>, i: int) -> Seq<char>
    decreases bs.len() - i,
{
    if i < 0 || i >= bs.len() {
        Seq::empty()
    } else {
        dec_str(bs[i] as int) + (if i + 1 < bs.len() {
            seq![',']
        } else {
            Seq::empty()
        }) + rc_bytes(bs, i + 1)
    }
}

/// The compact rendering of one value.
pub open spec fn rc_node(v: ValueModel) -> Seq<char>
    decreases v, 0int,
{
    match v {
        ValueModel::U64(x) => dec_str(x as int),
        ValueModel::U32(x) => dec_str(x as int),
        ValueModel::Bool(b) => if b {
            seq!['t', 'r', 'u', 'e']
        } else {
            seq!['f', 'a', 'l', 's', 'e']
        },
        ValueModel::Bytes(bs) => seq!['['] + rc_bytes(bs, 0) + seq![']'],
        ValueModel::Group(es) => seq!['{'] + rc_entries(es, 0) + seq!['}'],
    }
}

/// The compact rendering of a group's fields from index `i` on.
pub open spec fn rc_entries(es: Seq<(Seq<char>, ValueModel)>, i: int) -> Seq<char>
    decreases es, es.len() - i,
{
    if i < 0 || i >= es.len() {
        Seq::empty()
    } else {
        quoted(es[i].0) + seq![':'] + rc_node(es[i].1) + (if i + 1 < es.len() {
            seq![',']
        } else {
            Seq::empty()
        }) + rc_entries(es, i + 1)
    }
}

/// The compact rendering of a whole decoded record.
pub open spec fn render_compact_obj(es: Seq<(Seq<char>, ValueModel)>) -> Seq<char> {
    seq!['{'] + rc_entries(es, 0) + seq!['}']
}

/// The pretty rendering of the bytes of `bs` from index `i` on, one per
/// line, indented by `pad`.
pub open spec fn rp_bytes(bs: Seq<u8>, i: int, pad: Seq<char>) -> Seq<char>
    decreases bs.len() - i,
{
    if i < 0 || i >= bs.len() {
        Seq::empty()
    } else {
        pad + dec_str(bs[i] as int) + (if i + 1 < bs.len() {
            seq![',']
        } else {
            Seq::empty()
        }) + seq!['\n'] + rp_bytes(bs, i + 1, pad)
    }
}

/// The pretty rendering of one value whose surrounding line is indented by
/// `pad`: nested lines gain two more spaces of indent.
pub open spec fn rp_node(v: ValueModel, pad: Seq<char>) -> Seq<char>
    decreases v, 0int,
{
    match v {
        ValueModel::U64(x) => dec_str(x as int),
        ValueModel::U32(x) => dec_str(x as int),
        ValueModel::Bool(b) => if b {
            seq!['t', 'r', 'u', 'e']
        } else {
            seq!['f', 'a', 'l', 's', 'e']
        },
        ValueModel::Bytes(bs) => if bs.len() == 0 {
            seq!['[', ']']
        } else {
            seq!['[', '\n'] + rp_bytes(bs, 0, pad + seq![' ', ' ']) + pad + seq![']']
        },
        ValueModel::Group(es) => if es.len() == 0 {
            seq!['{', '}']
        } else {
            seq!['{', '\n'] + rp_entries(es, 0, pad + seq![' ', ' ']) + pad + seq!['}']
        },
    }
}

/// The pretty rendering of a group's fields from index `i` on, one per
/// line, indented by `pad`.
pub open spec fn rp_entries(es: Seq<(Seq<char>, ValueModel)>, i: int, pad: Seq<char>) -> Seq<char>
    decreases es, es.len() - i,
{
    if i < 0 || i >= es.len() {
        Seq::empty()
    } else {
        pad + quoted(es[i].0) + seq![':', ' '] + rp_node(es[i].1, pad) + (if i + 1 < es.len() {
            seq![',']
        } else {
            Seq::empty()
        }) + seq!['\n'] + rp_entries(es, i + 1, pad)
    }
}

/// The pretty rendering of a whole decoded record.
pub open spec fn render_pretty_obj(es: Seq<(Seq<char>, ValueModel)>) -> Seq<char> {
    rp_node(ValueModel::Group(es), Seq::empty())
}

/// The decimal digit character for `n`, executable.
fn dec_digit_exec(n: u64) -> (c: char)
    requires
        n < 10,
    ensures
        c == dec_digit(n as int),
{
    if n == 0 {
        '0'
    } else if n == 1 {
        '1'
    } else if n == 2 {
        '2'
    } else if n == 3 {
        '3'
    } else if n == 4 {
        '4'
    } else if n == 5 {
        '5'
    } else if n == 6 {
        '6'
    } else if n == 7 {
        '7'
    } else if n == 8 {
        '8'
    } else {
        '9'
    }
}

/// Appends the decimal rendering of `n`.
fn push_dec(n: u64, out: &mut Vec<char>)
    ensures
        final(out)@ == old(out)@ + dec_str(n as int),
    decreases n,
{
    if n < 10 {
        out.push(dec_digit_exec(n));
        proof {
            assert(out@ =~= old(out)@ + dec_str(n as int));
        }
    } else {
        push_dec(n / 10, out);
        out.push(dec_digit_exec(n % 10));
        proof {
            assert(out@ =~= old(out)@ + dec_str(n as int));
        }
    }
}

/// Appends the hexadecimal digit character for `n`.
fn hex_digit_exec(n: u32) -> (c: char)
    requires
        n < 16,
    ensures
        c == hex_digit(n as int),
{
    if n < 10 {
        dec_digit_exec(n as u64)
    } else if n == 10 {
        'a'
    } else if n == 11 {
        'b'
    } else if n == 12 {
        'c'
    } else if n == 13 {
        'd'
    } else if n == 14 {
        'e'
    } else {
        'f'
    }
}

/// Appends one character in its escaped form.
fn push_escaped_char(c: char, out: &mut Vec<char>)
    ensures
        final(out)@ == old(out)@ + escape_char(c),
{
    if c == '"' {
        out.push('\\');
        out.push('"');
    } else if c == '\\' {
        out.push('\\');
        out.push('\\');
    } else {
        let u = c as u32;
        if u < 32 {
            out.push('\\');
            out.push('u');
            out.push('0');
            out.push('0');
            out.push(hex_digit_exec(u / 16));
            out.push(hex_digit_exec(u % 16));
        } else {
            out.push(c);
        }
    }
    proof {
        assert(out@ =~= old(out)@ + escape_char(c));
    }
}

/// Appends a quoted, escaped JSON string literal for `s`.
fn push_quoted(s: &String, out: &mut Vec<char>)
    ensures
        final(out)@ == old(out)@ + quoted(s@),
{
    out.push('"');
    let ghost start = out@;
    let n = s.as_str().unicode_len();
    let mut i: usize = 0;
    while i < n
        invariant
            n == s@.len(),
            i <= n,
            out@ + escape_from(s@, i as int) == start + escape_from(s@, 0),
        decreases n - i,
    {
        let ghost before = out@;
        let c = s.as_str().get_char(i);
        push_escaped_char(c, out);
        proof {
            assert(escape_from(s@, i as int) == escape_char(s@[i as int]) + escape_from(
                s@,
                i as int + 1,
            ));
            assert(out@ + escape_from(s@, i as int + 1) =~= before + escape_from(s@, i as int));
        }
        i = i + 1;
    }
    out.push('"');
    proof {
        assert(escape_from(s@, n as int) == Seq::<char>::empty());
        assert(out@ =~= old(out)@ + quoted(s@));
    }
}

/// Appends every character of `src`.
fn push_all(src: &Vec<char>, out: &mut Vec<char>)
    ensures
        final(out)@ == old(out)@ + src@,
{
    let mut i: usize = 0;
    while i < src.len()
        invariant
            i <= src@.len(),
            out@ == old(out)@ + src@.subrange(0, i as int),
        decreases src@.len() - i,
    {
        out.push(src[i]);
        proof {
            assert(out@ =~= old(out)@ + src@.subrange(0, i as int + 1));
        }
        i = i + 1;
    }
    proof {
        assert(src@.subrange(0, src@.len() as int) =~= src@);
    }
}

/// Appends the compact rendering of the bytes of `bs` from `i` on.
fn render_bytes_compact(bs: &Vec<u8>, i: usize, out: &mut Vec<char>)
    requires
        i <= bs@.len(),
    ensures
        final(out)@ == old(out)@ + rc_bytes(bs@, i as int),
    decreases bs@.len() - i,
{
    if i >= bs.len() {
        proof {
            assert(out@ =~= old(out)@ + rc_bytes(bs@, i as int));
        }
        return ;
    }
    push_dec(bs[i] as u64, out);
    if i + 1 < bs.len() {
        out.push(',');
    }
    render_bytes_compact(bs, i + 1, out);
    proof {
        assert(out@ =~= old(out)@ + rc_bytes(bs@, i as int));
    }
}

/// Appends the compact rendering of one value.
fn render_node_compact(v: &ValueNode, out: &mut Vec<char>)
    ensures
        final(out)@ == old(out)@ + rc_node(value_model(*v)),
    decreases *v, 0int,
{
    match v {
        ValueNode::U64(x) => {
            push_dec(*x, out);
        },
        ValueNode::U32(x) => {
            push_dec(*x as u64, out);
        },
        ValueNode::Bool(b) => {
            if *b {
                out.push('t');
                out.push('r');
                out.push('u');
                out.push('e');
            } else {
                out.push('f');
                out.push('a');
                out.push('l');
                out.push('s');
                out.push('e');
            }
            proof {
                assert(out@ =~= old(out)@ + rc_node(value_model(*v)));
            }
        },
        ValueNode::Bytes(bs) => {
            out.push('[');
            render_bytes_compact(bs, 0, out);
            out.push(']');
            proof {
                assert(out@ =~= old(out)@ + rc_node(value_model(*v)));
            }
        },
        ValueNode::Group(m) => {
            out.push('{');
            render_entries_compact(&m.entries, 0, out);
            out.push('}');
            proof {
                assert(out@ =~= old(out)@ + rc_node(value_model(*v)));
            }
        },
    }
}

/// Appends the compact rendering of a group's fields from `i` on.
fn render_entries_compact(es: &Vec<(String, ValueNode)>, i: usize, out: &mut Vec<char>)
    requires
        i <= es@.len(),
    ensures
        final(out)@ == old(out)@ + rc_entries(value_entries_model(es@), i as int),
    decreases es@, es@.len() - i,
{
    proof {
        lemma_value_entries_model(es@);
    }
    let ghost model = value_entries_model(es@);
    if i >= es.len() {
        proof {
            assert(out@ =~= old(out)@ + rc_entries(model, i as int));
        }
        return ;
    }
    push_quoted(&es[i].0, out);
    out.push(':');
    render_node_compact(&es[i].1, out);
    if i + 1 < es.len() {
        out.push(',');
    }
    render_entries_compact(es, i + 1, out);
    proof {
        assert(model[i as int] == (es@[i as int].0@, value_model(es@[i as int].1)));
        assert(out@ =~= old(out)@ + rc_entries(model, i as int));
    }
}

/// Appends the pretty rendering of the bytes of `bs` from `i` on.
fn render_bytes_pretty(bs: &Vec<u8>, i: usize, pad: &Vec<char>, out: &mut Vec<char>)
    requires
        i <= bs@.len(),
    ensures
        final(out)@ == old(out)@ + rp_bytes(bs@, i as int, pad@),
    decreases bs@.len() - i,
{
    if i >= bs.len() {
        proof {
            assert(out@ =~= old(out)@ + rp_bytes(bs@, i as int, pad@));
        }
        return ;
    }
    push_all(pad, out);
    push_dec(bs[i] as u64, out);
    if i + 1 < bs.len() {
        out.push(',');
    }
    out.push('\n');
    render_bytes_pretty(bs, i + 1, pad, out);
    proof {
        assert(out@ =~= old(out)@ + rp_bytes(bs@, i as int, pad@));
    }
}

/// Appends the pretty rendering of one value at the current indent.
fn render_node_pretty(v: &ValueNode, pad: &mut Vec<char>, out: &mut Vec<char>)
    ensures
        final(pad)@ == old(pad)@,
        final(out)@ == old(out)@ + rp_node(value_model(*v), old(pad)@),
    decreases *v, 0int,
{
    match v {
        ValueNode::U64(x) => {
            push_dec(*x, out);
        },
        ValueNode::U32(x) => {
            push_dec(*x as u64, out);
        },
        ValueNode::Bool(b) => {
            if *b {
                out.push('t');
                out.push('r');
                out.push('u');
                out.push('e');
            } else {
                out.push('f');
                out.push('a');
                out.push('l');
                out.push('s');
                out.push('e');
            }
            proof {
                assert(out@ =~= old(out)@ + rp_node(value_model(*v), pad@));
            }
        },
        ValueNode::Bytes(bs) => {
            if bs.len() == 0 {
                out.push('[');
                out.push(']');
                proof {
                    assert(out@ =~= old(out)@ + rp_node(value_model(*v), pad@));
                }
            } else {
                out.push('[');
                out.push('\n');
                pad.push(' ');
                pad.push(' ');
                proof {
                    assert(pad@ =~= old(pad)@ + seq![' ', ' ']);
                }
                render_bytes_pretty(bs, 0, pad, out);
                pad.pop();
                pad.pop();
                proof {
                    assert(pad@ =~= old(pad)@);
                }
                push_all(pad, out);
                out.push(']');
                proof {
                    assert(out@ =~= old(out)@ + rp_node(value_model(*v), old(pad)@));
                }
            }
        },
        ValueNode::Group(m) => {
            if m.entries.len() == 0 {
                out.push('{');
                out.push('}');
                proof {
                    lemma_value_entries_model(m.entries@);
                    assert(out@ =~= old(out)@ + rp_node(value_model(*v), pad@));
                }
            } else {
                out.push('{');
                out.push('\n');
                pad.push(' ');
                pad.push(' ');
                proof {
                    assert(pad@ =~= old(pad)@ + seq![' ', ' ']);
                }
                render_entries_pretty(&m.entries, 0, pad, out);
                pad.pop();
                pad.pop();
                proof {
                    assert(pad@ =~= old(pad)@);
                }
                push_all(pad, out);
                out.push('}');
                proof {
                    lemma_value_entries_model(m.entries@);
                    assert(out@ =~= old(out)@ + rp_node(value_model(*v), old(pad)@));
                }
            }
        },
    }
}

/// Appends the pretty rendering of a group's fields from `i` on.
fn render_entries_pretty(es: &Vec<(String, ValueNode)>, i: usize, pad: &mut Vec<char>, out: &mut Vec<
    char,
>)
    requires
        i <= es@.len(),
    ensures
        final(pad)@ == old(pad)@,
        final(out)@ == old(out)@ + rp_entries(value_entries_model(es@), i as int, old(pad)@),
    decreases es@, es@.len() - i,
{
    proof {
        lemma_value_entries_model(es@);
    }
    let ghost model = value_entries_model(es@);
    if i >= es.len() {
        proof {
            assert(out@ =~= old(out)@ + rp_entries(model, i as int, pad@));
        }
        return ;
    }
    push_all(pad, out);
    push_quoted(&es[i].0, out);
    out.push(':');
    out.push(' ');
    render_node_pretty(&es[i].1, pad, out);
    if i + 1 < es.len() {
        out.push(',');
    }
    out.push('\n');
    render_entries_pretty(es, i + 1, pad, out);
    proof {
        assert(model[i as int] == (es@[i as int].0@, value_model(es@[i as int].1)));
        assert(out@ =~= old(out)@ + rp_entries(model, i as int, old(pad)@));
    }
}

/// Relies on `String`'s `FromIterator` implementation: collecting characters
/// yields the string of exactly those characters, in order.
#[verifier::external_body]
fn string_from_chars(v: &Vec<char>) -> (r: String)
    ensures
        r@ == v@,
{
    v.iter().collect()
}

/// The compact JSON text of a decoded record: its fields in order inside
/// one pair of braces, with no added whitespace.
pub fn render_compact(m: &ValueMap) -> (r: String)
    ensures
        r@ == render_compact_obj(m.model()),
{
    let mut out: Vec<char> = Vec::new();
    out.push('{');
    render_entries_compact(&m.entries, 0, &mut out);
    out.push('}');
    proof {
        assert(out@ =~= render_compact_obj(m.model()));
    }
    string_from_chars(&out)
}

/// The pretty JSON text of a decoded record: one field per line, nested
/// lines indented by two more spaces each.
pub fn render_pretty(m: &ValueMap) -> (r: String)
    ensures
        r@ == render_pretty_obj(m.model()),
{
    let mut out: Vec<char> = Vec::new();
    let mut pad: Vec<char> = Vec::new();
    if m.entries.len() == 0 {
        out.push('{');
        out.push('}');
        proof {
            lemma_value_entries_model(m.entries@);
            assert(out@ =~= render_pretty_obj(m.model()));
        }
    } else {
        out.push('{');
        out.push('\n');
        pad.push(' ');
        pad.push(' ');
        proof {
            assert(pad@ =~= Seq::<char>::empty() + seq![' ', ' ']);
        }
        render_entries_pretty(&m.entries, 0, &mut pad, &mut out);
        out.push('}');
        proof {
            lemma_value_entries_model(m.entries@);
            assert(out@ =~= render_pretty_obj(m.model()));
        }
    }
    string_from_chars(&out)
}

} // verus!
