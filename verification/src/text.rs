use vstd::prelude::*;

verus! {

/// Width of the numbering field: line numbers are right-aligned to at least
/// this many characters before the tab that separates them from the line.
pub const NUMBER_WIDTH: usize = 6;

/// A character that counts as whitespace for the blank-line test: the
/// Unicode `White_Space` set, as used by `str::trim`.
pub open spec fn is_space_char(c: char) -> bool {
    c == ' ' || c == '\t' || c == '\n' || c == '\r' || c == '\u{b}' || c == '\u{c}'
        || c == '\u{85}' || c == '\u{a0}' || c == '\u{1680}'
        || ('\u{2000}' as u32 <= c as u32 && c as u32 <= '\u{200a}' as u32)
        || c == '\u{2028}' || c == '\u{2029}' || c == '\u{202f}' || c == '\u{205f}'
        || c == '\u{3000}'
}

/// A blank line: every character is whitespace, so trimming leaves nothing.
pub open spec fn is_blank(s: Seq<char>) -> bool {
    forall|i: int| 0 <= i < s.len() ==> is_space_char(#[trigger] s[i])
}

/// Whether `c` counts as whitespace for the blank-line test.
pub fn char_is_space(c: char) -> (b: bool)
    ensures
        b == is_space_char(c),
{
    c == ' ' || c == '\t' || c == '\n' || c == '\r' || c == '\u{b}' || c == '\u{c}'
        || c == '\u{85}' || c == '\u{a0}' || c == '\u{1680}'
        || ('\u{2000}' as u32 <= c as u32 && c as u32 <= '\u{200a}' as u32)
        || c == '\u{2028}' || c == '\u{2029}' || c == '\u{202f}' || c == '\u{205f}'
        || c == '\u{3000}'
}

/// Whether the line consists only of whitespace.
pub fn line_is_blank(s: &str) -> (b: bool)
    ensures
        b == is_blank(s@),
{
    let len = s.unicode_len();
    let mut j: usize = 0;
    while j < len
        invariant
            len == s@.len(),
            j <= len,
            forall|i: int| 0 <= i < j ==> is_space_char(#[trigger] s@[i]),
        decreases len - j,
    {
        let c = s.get_char(j);
        if !char_is_space(c) {
            assert(!is_blank(s@));
            return false;
        }
        j += 1;
    }
    true
}

/// Appends one character to a string.
///
/// Relies on `String::push` of std: it appends the given character to the
/// end of the string.
#[verifier::external_body]
pub(crate) fn push_char(s: &mut String, c: char)
    ensures
        final(s)@ == old(s)@ + seq![c],
{
    s.push(c);
}

/// What one character contributes to the tab-expanded line: a horizontal
/// tab becomes `^I`, every other character stands unchanged.
pub open spec fn tab_expansion_of(c: char) -> Seq<char> {
    if c == '\t' {
        seq!['^', 'I']
    } else {
        seq![c]
    }
}

/// The line with every horizontal tab replaced by `^I` and every other
/// character unchanged.
pub open spec fn tab_expanded(s: Seq<char>) -> Seq<char>
    decreases s.len(),
{
    if s.len() == 0 {
        Seq::empty()
    } else {
        tab_expanded(s.drop_last()) + tab_expansion_of(s.last())
    }
}

/// Replaces every horizontal tab in the line with `^I`.
pub fn expand_tabs(s: &str) -> (r: String)
    ensures
        r@ == tab_expanded(s@),
{
    let len = s.unicode_len();
    let mut r = String::new();
    let mut j: usize = 0;
    while j < len
        invariant
            len == s@.len(),
            j <= len,
            r@ == tab_expanded(s@.take(j as int)),
        decreases len - j,
    {
        let c = s.get_char(j);
        if c == '\t' {
            push_char(&mut r, '^');
            push_char(&mut r, 'I');
        } else {
            push_char(&mut r, c);
        }
        proof {
            let t = s@.take(j as int + 1);
            assert(t.drop_last() =~= s@.take(j as int));
            assert(t.last() == s@[j as int]);
            assert(r@ =~= tab_expanded(t));
        }
        j += 1;
    }
    proof {
        assert(s@.take(len as int) =~= s@);
    }
    r
}

/// The character for one decimal digit.
pub open spec fn decimal_digit(d: nat) -> char {
    if d == 0 {
        '0'
    } else if d == 1 {
        '1'
    } else if d == 2 {
        '2'
    } else if d == 3 {
        '3'
    } else if d == 4 {
        '4'
    } else if d == 5 {
        '5'
    } else if d == 6 {
        '6'
    } else if d == 7 {
        '7'
    } else if d == 8 {
        '8'
    } else {
        '9'
    }
}

/// The decimal representation of `n`, most significant digit first.
pub open spec fn decimal_digits(n: nat) -> Seq<char>
    decreases n,
{
    if n < 10 {
        seq![decimal_digit(n)]
    } else {
        decimal_digits(n / 10) + seq![decimal_digit(n % 10)]
    }
}

/// The character for the decimal digit `d`.
fn decimal_digit_char(d: usize) -> (c: char)
    requires
        d < 10,
    ensures
        c == decimal_digit(d as nat),
{
    if d == 0 {
        '0'
    } else if d == 1 {
        '1'
    } else if d == 2 {
        '2'
    } else if d == 3 {
        '3'
    } else if d == 4 {
        '4'
    } else if d == 5 {
        '5'
    } else if d == 6 {
        '6'
    } else if d == 7 {
        '7'
    } else if d == 8 {
        '8'
    } else {
        '9'
    }
}

/// Appends the decimal representation of `n` to `out`.
fn push_decimal(out: &mut String, n: usize)
    ensures
        final(out)@ == old(out)@ + decimal_digits(n as nat),
    decreases n,
{
    if n >= 10 {
        push_decimal(out, n / 10);
    }
    let d = decimal_digit_char(n % 10);
    push_char(out, d);
    proof {
        if n < 10 {
            assert(n % 10 == n as int);
            assert(old(out)@ + seq![decimal_digit(n as nat)] =~= final(out)@);
        } else {
            assert(old(out)@ + decimal_digits(n as nat) =~= (old(out)@ + decimal_digits(
                n as nat / 10,
            )) + seq![decimal_digit(n as nat % 10)]);
        }
    }
}

/// The numbering prefix for line number `n`: the decimal representation of
/// `n`, right-aligned with spaces to a field of width at least
/// `NUMBER_WIDTH`, followed by a tab.
pub open spec fn spec_number_prefix(n: nat) -> Seq<char> {
    let digits = decimal_digits(n);
    let pad: Seq<char> = if digits.len() < NUMBER_WIDTH {
        Seq::new((NUMBER_WIDTH - digits.len()) as nat, |i: int| ' ')
    } else {
        Seq::empty()
    };
    pad + digits + seq!['\t']
}

/// Builds the numbering prefix for line number `n`.
pub fn number_prefix(n: usize) -> (r: String)
    ensures
        r@ == spec_number_prefix(n as nat),
{
    let mut digits = String::new();
    push_decimal(&mut digits, n);
    assert(digits@ =~= decimal_digits(n as nat));
    let dlen = digits.as_str().unicode_len();
    let pad_len: usize = if dlen < NUMBER_WIDTH {
        NUMBER_WIDTH - dlen
    } else {
        0
    };
    let mut r = String::new();
    let mut k: usize = 0;
    while k < pad_len
        invariant
            k <= pad_len,
            r@ == Seq::new(k as nat, |i: int| ' '),
        decreases pad_len - k,
    {
        push_char(&mut r, ' ');
        proof {
            assert(r@ =~= Seq::new((k + 1) as nat, |i: int| ' '));
        }
        k += 1;
    }
    r.append(digits.as_str());
    push_char(&mut r, '\t');
    proof {
        assert(r@ =~= spec_number_prefix(n as nat));
    }
    r
}

} // verus!
