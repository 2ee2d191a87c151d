//! Integer literals.

use vstd::prelude::*;
use vstd::string::StrSliceExecFns;

use crate::ast::Lit;

verus! {

/// Where the sign of a literal ends.
pub open spec fn sign_end(text: Seq<char>) -> int {
    if text.len() > 0 && text[0] == '-' {
        1
    } else {
        0
    }
}

/// The base of a literal that starts at `i`, by its prefix.
pub open spec fn base_at(text: Seq<char>, i: int) -> int {
    if i + 1 < text.len() && text[i] == '0' && text[i + 1] == 'x' {
        16
    } else if i + 1 < text.len() && text[i] == '0' && text[i + 1] == 'o' {
        8
    } else if i + 1 < text.len() && text[i] == '0' && text[i + 1] == 'b' {
        2
    } else {
        10
    }
}

/// The value of a digit in a base.
pub open spec fn digit(c: char, base: int) -> Option<int> {
    if '0' <= c <= '9' && c as int - 48 < base {
        Some(c as int - 48)
    } else if base == 16 && 'a' <= c <= 'f' {
        Some(c as int - 97 + 10)
    } else if base == 16 && 'A' <= c <= 'F' {
        Some(c as int - 65 + 10)
    } else {
        None
    }
}

/// Where the digits and underscores that start at `i` end.
pub open spec fn digits_end(text: Seq<char>, base: int, i: int) -> int
    decreases text.len() - i,
{
    if 0 <= i < text.len() && (text[i] == '_' || digit(text[i], base) is Some) {
        digits_end(text, base, i + 1)
    } else {
        i
    }
}

/// The number that the digits of a range write, underscores aside.
pub open spec fn number(text: Seq<char>, base: int, i: int, j: int) -> int
    decreases j - i,
{
    if i < j {
        match digit(text[j - 1], base) {
            Some(d) => number(text, base, i, j - 1) * base + d,
            None => number(text, base, i, j - 1),
        }
    } else {
        0
    }
}

pub open spec fn is_letter(c: char) -> bool {
    'a' <= c <= 'z' || 'A' <= c <= 'Z'
}

/// Whether a character can start a word. Every character beyond ASCII counts.
pub open spec fn starts_word(c: char) -> bool {
    is_letter(c) || c as int >= 128
}

/// Whether a character can stand in a word.
pub open spec fn is_word(c: char) -> bool {
    starts_word(c) || '0' <= c <= '9' || c == '_'
}

/// Whether an `e` at `j` starts an exponent: a digit follows, behind nothing but
/// underscores. The literal is then no integer.
pub open spec fn is_exponent(text: Seq<char>, j: int) -> bool {
    &&& text[j] == 'e' || text[j] == 'E'
    &&& exists|k: int|
        j < k < text.len() && '0' <= #[trigger] text[k] <= '9' && forall|x: int|
            j < x < k ==> #[trigger] text[x] == '_'
}

/// Whether the text from `j` on is a suffix of a literal in a base: nothing, or a
/// word that does not start with a digit, an underscore or, in base 10, an
/// exponent.
pub open spec fn is_suffix(text: Seq<char>, base: int, j: int) -> bool {
    ||| j == text.len()
    ||| {
        &&& 0 <= j < text.len()
        &&& starts_word(text[j])
        &&& forall|k: int| j <= k < text.len() ==> is_word(#[trigger] text[k])
        &&& !(base == 10 && is_exponent(text, j))
    }
}

/// Where the digits of a literal start: behind its sign and its prefix.
pub open spec fn digits_start(text: Seq<char>) -> int {
    sign_end(text) + if base_at(text, sign_end(text)) == 10 {
        0int
    } else {
        2
    }
}

/// The base of a literal.
pub open spec fn base(text: Seq<char>) -> int {
    base_at(text, sign_end(text))
}

/// Whether a text is an integer literal: a sign perhaps, a prefix perhaps, digits
/// of the base with underscores among them, a suffix perhaps. Without a prefix an
/// underscore cannot come first. Which characters beyond ASCII a suffix may have is
/// left to whoever took the text for a literal.
pub open spec fn is_int_text(text: Seq<char>) -> bool {
    let i = digits_start(text);
    let j = digits_end(text, base(text), i);
    &&& base(text) == 10 ==> i < text.len() && text[i] != '_'
    &&& exists|k: int| i <= k < j && #[trigger] text[k] != '_'
    &&& is_suffix(text, base(text), j)
}

/// The number that an integer literal writes.
pub open spec fn int_value(text: Seq<char>) -> int {
    let i = digits_start(text);
    let n = number(text, base(text), i, digits_end(text, base(text), i));
    if sign_end(text) == 1 {
        -n
    } else {
        n
    }
}

/// The value of the integer literal that is written as `text`: none where `text` is
/// no integer literal, or its number does not fit in `i64`.
pub open spec fn int_lit_value(text: Seq<char>) -> Option<i64> {
    if is_int_text(text) && i64::MIN <= int_value(text) <= i64::MAX {
        Some(int_value(text) as i64)
    } else {
        None
    }
}

/// Where the digits of a literal end.
pub open spec fn suffix_start(text: Seq<char>) -> int {
    digits_end(text, base(text), digits_start(text))
}

/// Calls `syn::parse_str` and `syn::LitInt::base10_parse::<i64>` on an integer
/// literal without a suffix. `syn` reads such a text as the literal of that number,
/// and `base10_parse` gives the number where it fits in `i64`.
#[verifier::external_body]
fn base10_value(text: &str) -> (r: Option<i64>)
    requires
        is_int_text(text@),
        suffix_start(text@) == text@.len(),
    ensures
        r == int_lit_value(text@),
{
    match syn::parse_str::<syn::LitInt>(text) {
        Ok(lit) => lit.base10_parse::<i64>().ok(),
        Err(_) => None,
    }
}

proof fn lemma_digits_end(text: Seq<char>, base: int, i: int, j: int)
    requires
        0 <= i <= j <= text.len(),
        forall|k: int|
            i <= k < j ==> (#[trigger] text[k] == '_' || digit(text[k], base) is Some),
        j == text.len() || !(text[j] == '_' || digit(text[j], base) is Some),
    ensures
        digits_end(text, base, i) == j,
    decreases j - i,
{
    if i < j {
        lemma_digits_end(text, base, i + 1, j);
    }
}

/// Whether `c` is a digit of a base.
fn is_digit(c: char, base: u32) -> (r: bool)
    ensures
        r == (digit(c, base as int) is Some),
{
    if '0' <= c && c <= '9' {
        return base > 10 || (c as u32) - 48 < base;
    }
    base == 16 && ('a' <= c && c <= 'f' || 'A' <= c && c <= 'F')
}

/// Whether an `e` at `j` starts an exponent.
fn starts_exponent(text: &str, j: usize) -> (r: bool)
    requires
        j < text@.len(),
    ensures
        r == is_exponent(text@, j as int),
{
    let len: usize = text.unicode_len();
    let first = text.get_char(j);
    if first != 'e' && first != 'E' {
        return false;
    }
    let mut k: usize = j + 1;
    while k < len && text.get_char(k) == '_'
        invariant
            j < k <= len,
            len == text@.len(),
            forall|x: int| j < x < k ==> #[trigger] text@[x] == '_',
        decreases len - k,
    {
        k = k + 1;
    }
    if k < len && '0' <= text.get_char(k) && text.get_char(k) <= '9' {
        assert('0' <= text@[k as int] <= '9');
        return true;
    }
    proof {
        if is_exponent(text@, j as int) {
            let d = choose|d: int|
                j < d < text@.len() && '0' <= #[trigger] text@[d] <= '9' && forall|x: int|
                    j < x < d ==> #[trigger] text@[x] == '_';
            if d < k {
                assert(text@[d] == '_');
            } else if d > k {
                assert(text@[k as int] == '_');
            }
        }
    }
    false
}

/// Whether the text from `j` on is a suffix of a literal in a base.
fn ends_in_suffix(text: &str, base: u32, j: usize) -> (r: bool)
    requires
        j <= text@.len() <= usize::MAX,
    ensures
        r == is_suffix(text@, base as int, j as int),
{
    let len: usize = text.unicode_len();
    if j == len {
        return true;
    }
    let first = text.get_char(j);
    if !('a' <= first && first <= 'z' || 'A' <= first && first <= 'Z' || first as u32 >= 128) {
        return false;
    }
    let mut k: usize = j;
    while k < len
        invariant
            j <= k <= len,
            len == text@.len(),
            forall|x: int| j <= x < k ==> is_word(#[trigger] text@[x]),
        decreases len - k,
    {
        let c = text.get_char(k);
        if !('a' <= c && c <= 'z' || 'A' <= c && c <= 'Z' || '0' <= c && c <= '9' || c == '_' || c
            as u32 >= 128) {
            return false;
        }
        k = k + 1;
    }
    !(base == 10 && starts_exponent(text, j))
}

/// Where the suffix of an integer literal starts; none where the text is no
/// integer literal.
fn int_text_suffix(text: &str) -> (r: Option<usize>)
    ensures
        match r {
            Some(j) => is_int_text(text@) && j == suffix_start(text@) && j <= text@.len(),
            None => !is_int_text(text@),
        },
{
    let len: usize = text.unicode_len();
    let sign: usize = if len > 0 && text.get_char(0) == '-' {
        1
    } else {
        0
    };
    let mut base: u32 = 10;
    let mut start: usize = sign;
    if len >= 2 && sign < len - 1 && text.get_char(sign) == '0' {
        let mark = text.get_char(sign + 1);
        if mark == 'x' {
            base = 16;
            start = sign + 2;
        } else if mark == 'o' {
            base = 8;
            start = sign + 2;
        } else if mark == 'b' {
            base = 2;
            start = sign + 2;
        }
    }
    assert(base == self::base(text@) && start == digits_start(text@));
    if base == 10 && (start >= len || text.get_char(start) == '_') {
        return None;
    }
    let mut end: usize = start;
    let mut found = false;
    while end < len && (text.get_char(end) == '_' || is_digit(text.get_char(end), base))
        invariant
            start <= end <= len,
            len == text@.len(),
            forall|k: int|
                start <= k < end ==> (#[trigger] text@[k] == '_' || digit(
                    text@[k],
                    base as int,
                ) is Some),
            found == exists|k: int| start <= k < end && #[trigger] text@[k] != '_',
        decreases len - end,
    {
        if text.get_char(end) != '_' {
            found = true;
        }
        end = end + 1;
    }
    proof {
        lemma_digits_end(text@, base as int, start as int, end as int);
    }
    if found && ends_in_suffix(text, base, end) {
        Some(end)
    } else {
        None
    }
}

/// Without its suffix an integer literal is one still, with the same number.
proof fn lemma_without_suffix(text: Seq<char>)
    requires
        is_int_text(text),
        suffix_start(text) <= text.len(),
    ensures
        is_int_text(text.take(suffix_start(text))),
        suffix_start(text.take(suffix_start(text))) == suffix_start(text),
        int_lit_value(text.take(suffix_start(text))) == int_lit_value(text),
{
    let j = suffix_start(text);
    let i = digits_start(text);
    let short = text.take(j);
    lemma_digits_stay(text, base(text), i);
    let k = choose|k: int| i <= k < j && #[trigger] text[k] != '_';
    assert(short[k] == text[k]);
    assert(text[i] == short[i]);
    assert(base(short) == base(text) && sign_end(short) == sign_end(text));
    assert forall|x: int| i <= x < j implies (#[trigger] short[x] == '_' || digit(
        short[x],
        base(text),
    ) is Some) by {
        assert(short[x] == text[x]);
    }
    lemma_digits_end(short, base(text), i, j);
    lemma_same_number(text, short, base(text), i, j);
}

proof fn lemma_digits_stay(text: Seq<char>, base: int, i: int)
    requires
        0 <= i,
    ensures
        i <= digits_end(text, base, i),
        forall|x: int|
            i <= x < digits_end(text, base, i) ==> (#[trigger] text[x] == '_' || digit(
                text[x],
                base,
            ) is Some),
    decreases text.len() - i,
{
    if i < text.len() && (text[i] == '_' || digit(text[i], base) is Some) {
        lemma_digits_stay(text, base, i + 1);
    }
}

proof fn lemma_same_number(a: Seq<char>, b: Seq<char>, base: int, i: int, j: int)
    requires
        forall|x: int| i <= x < j ==> #[trigger] a[x] == b[x],
    ensures
        number(a, base, i, j) == number(b, base, i, j),
    decreases j - i,
{
    if i < j {
        assert(a[j - 1] == b[j - 1]);
        lemma_same_number(a, b, base, i, j - 1);
    }
}

/// The literal that is written as `text`.
pub fn int_lit(text: &str) -> (r: Lit)
    ensures
        r == Lit::Int(int_lit_value(text@)),
{
    match int_text_suffix(text) {
        Some(j) => {
            proof {
                lemma_without_suffix(text@);
            }
            Lit::Int(base10_value(text.substring_char(0, j)))
        },
        None => Lit::Int(None),
    }
}

} // verus!
