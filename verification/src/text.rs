//! Text primitives shared by every emitter: indentation and decimal numerals.

use vstd::prelude::*;
use vstd::string::StringExecFns;

verus! {

/// Number of columns by which one nesting level indents.
pub const INDENT_WIDTH: usize = 4;

/// The blanks that make up one level of indentation.
pub open spec fn indent_unit() -> Seq<char> {
    seq![' ', ' ', ' ', ' ']
}

/// The blanks in front of a line nested `depth` levels deep.
pub open spec fn indent_text(depth: nat) -> Seq<char>
    decreases depth,
{
    if depth == 0 {
        Seq::empty()
    } else {
        indent_text((depth - 1) as nat) + indent_unit()
    }
}

/// The character that writes the digit `d`.
pub open spec fn digit_char(d: nat) -> char {
    if d == 0 {
        '0'
    } else if d == 1 {
        '1'
    } else if d == 2 {
        '2'
    } else if d == 3 {
        '3'
    } else if d == 4 {
        '4'
    } else if d == 5 {
        '5'
    } else if d == 6 {
        '6'
    } else if d == 7 {
        '7'
    } else if d == 8 {
        '8'
    } else {
        '9'
    }
}

/// The decimal numeral of `n`: most significant digit first, no leading zero.
pub open spec fn decimal(n: nat) -> Seq<char>
    decreases n,
{
    if n < 10 {
        seq![digit_char(n)]
    } else {
        decimal(n / 10).push(digit_char(n % 10))
    }
}

/// The decimal numeral of a signed value: a minus sign in front of negatives.
pub open spec fn signed_decimal(v: int) -> Seq<char> {
    if v < 0 {
        seq!['-'] + decimal((-v) as nat)
    } else {
        decimal(v as nat)
    }
}

/// Every indentation prefix is made of ASCII blanks, four per level.
pub proof fn lemma_indent_text(depth: nat)
    ensures
        indent_text(depth).len() == 4 * depth,
        vstd::utf8::is_ascii_chars(indent_text(depth)),
        forall|i: int| 0 <= i < indent_text(depth).len() ==> indent_text(depth)[i] == ' ',
    decreases depth,
{
    if depth > 0 {
        lemma_indent_text((depth - 1) as nat);
    }
}

/// Dropping the last four blanks of a prefix gives the prefix one level up.
pub proof fn lemma_indent_text_outer(depth: nat)
    requires
        depth > 0,
    ensures
        indent_text(depth).len() >= 4,
        indent_text(depth).subrange(0, indent_text(depth).len() - 4) == indent_text(
            (depth - 1) as nat,
        ),
{
    lemma_indent_text(depth);
    lemma_indent_text((depth - 1) as nat);
}

/// The one-character string that writes the digit `d`.
fn digit_str(d: u8) -> (s: &'static str)
    requires
        d < 10,
    ensures
        s@ == seq![digit_char(d as nat)],
{
    proof {
        reveal_strlit("0");
        reveal_strlit("1");
        reveal_strlit("2");
        reveal_strlit("3");
        reveal_strlit("4");
        reveal_strlit("5");
        reveal_strlit("6");
        reveal_strlit("7");
        reveal_strlit("8");
        reveal_strlit("9");
    }
    let s = if d == 0 {
        "0"
    } else if d == 1 {
        "1"
    } else if d == 2 {
        "2"
    } else if d == 3 {
        "3"
    } else if d == 4 {
        "4"
    } else if d == 5 {
        "5"
    } else if d == 6 {
        "6"
    } else if d == 7 {
        "7"
    } else if d == 8 {
        "8"
    } else {
        "9"
    };
    s
}

/// Appends the decimal numeral of `n` to `out`.
pub fn push_decimal(out: &mut String, n: u128)
    ensures
        final(out)@ == old(out)@ + decimal(n as nat),
    decreases n,
{
    if n >= 10 {
        push_decimal(out, n / 10);
    }
    let d: u8 = (n % 10) as u8;
    out.append(digit_str(d));
}

/// Appends the decimal numeral of the signed value `v` to `out`.
pub fn push_signed_decimal(out: &mut String, v: i128)
    ensures
        final(out)@ == old(out)@ + signed_decimal(v as int),
{
    if v < 0 {
        proof {
            reveal_strlit("-");
        }
        out.append("-");
        let magnitude: u128 = (-(v + 1)) as u128 + 1;
        push_decimal(out, magnitude);
    } else {
        push_decimal(out, v as u128);
    }
}

/// Appends the indentation prefix of nesting level `depth` to `out`.
pub fn push_indent(out: &mut String, depth: usize)
    ensures
        final(out)@ == old(out)@ + indent_text(depth as nat),
{
    let mut i: usize = 0;
    proof {
        reveal_strlit("    ");
    }
    while i < depth
        invariant
            i <= depth,
            out@ == old(out)@ + indent_text(i as nat),
            "    "@ == indent_unit(),
        decreases depth - i,
    {
        out.append("    ");
        i = i + 1;
    }
}

/// The name of the local variable that holds binding `binding`.
pub open spec fn var_text(binding: nat) -> Seq<char> {
    seq!['v'] + decimal(binding)
}

/// The name of the parameter at position `index`.
pub open spec fn arg_text(index: nat) -> Seq<char> {
    seq!['a', 'r', 'g'] + decimal(index)
}

/// Appends the name of the local variable that holds binding `binding`.
pub fn push_var(out: &mut String, binding: usize)
    ensures
        final(out)@ == old(out)@ + var_text(binding as nat),
{
    proof {
        reveal_strlit("v");
    }
    out.append("v");
    push_decimal(out, binding as u128);
}

/// Appends the name of the parameter at position `index`.
pub fn push_arg(out: &mut String, index: usize)
    ensures
        final(out)@ == old(out)@ + arg_text(index as nat),
{
    proof {
        reveal_strlit("arg");
    }
    out.append("arg");
    push_decimal(out, index as u128);
}

} // verus!
