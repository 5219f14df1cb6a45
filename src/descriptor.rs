//! The descriptor grammar: `callback! for start..end` or `callback! for start..=end`.
//!
//! Blanks (space, tab, line feed, carriage return) may stand around the
//! callback name, after `!`, around the range operator and at the end; at
//! least one must follow `for`. Endpoints are runs of decimal digits whose
//! value fits in `usize`.
use vstd::prelude::*;

use crate::decimal::{char_to_digit, digits_value, is_digit, lemma_digits_value_grows};
use crate::expand::RangeSpec;

verus! {

/// Why a descriptor was refused.
#[derive(Clone, Copy, Debug, PartialEq, Eq, Structural)]
pub enum ExpandError {
    /// The text does not have the shape of a descriptor: `!`, `for` or the
    /// range operator is missing, or the callback is not an identifier.
    Grammar,
    /// A range endpoint is missing, is not a run of digits, or does not fit
    /// in `usize`.
    RangeLiteral,
    /// Something follows a complete descriptor.
    TrailingTokens,
}

/// A parsed descriptor: the callback's name and the range of arities.
pub struct ForTupleInput {
    pub callback: String,
    pub range: RangeSpec,
}

impl View for ForTupleInput {
    type V = (Seq<char>, RangeSpec);

    open spec fn view(&self) -> (Seq<char>, RangeSpec) {
        (self.callback@, self.range)
    }
}

/// A blank between tokens.
pub open spec fn is_blank(c: char) -> bool {
    c == ' ' || c == '\t' || c == '\n' || c == '\r'
}

/// The first position at or after `i` that does not hold a blank.
pub open spec fn skip_blanks(s: Seq<char>, i: int) -> int
    decreases s.len() - i,
{
    if 0 <= i < s.len() && is_blank(s[i]) {
        skip_blanks(s, i + 1)
    } else {
        i
    }
}

/// The first position at or after `i` that does not hold a digit.
pub open spec fn skip_digits(s: Seq<char>, i: int) -> int
    decreases s.len() - i,
{
    if 0 <= i < s.len() && is_digit(s[i]) {
        skip_digits(s, i + 1)
    } else {
        i
    }
}

/// The first position at or after `i` that holds `!`, or the length when
/// there is none.
pub open spec fn find_bang(s: Seq<char>, i: int) -> int
    decreases s.len() - i,
{
    if i < 0 || i >= s.len() {
        s.len() as int
    } else if s[i] == '!' {
        i
    } else {
        find_bang(s, i + 1)
    }
}

/// The end of `s[lo..j]` once trailing blanks are dropped.
pub open spec fn trim_end(s: Seq<char>, lo: int, j: int) -> int
    decreases j - lo,
{
    if lo < j && j <= s.len() && is_blank(s[j - 1]) {
        trim_end(s, lo, j - 1)
    } else {
        j
    }
}

/// The keyword `for`, followed by a blank, starts at `p`.
pub open spec fn keyword_for_at(s: Seq<char>, p: int) -> bool {
    0 <= p && p + 3 < s.len() && s[p] == 'f' && s[p + 1] == 'o' && s[p + 2] == 'r'
        && is_blank(s[p + 3])
}

/// The range operator `..` starts at `r`.
pub open spec fn range_op_at(s: Seq<char>, r: int) -> bool {
    0 <= r && r + 1 < s.len() && s[r] == '.' && s[r + 1] == '.'
}

/// The endpoint that follows `i` after blanks, and the position after its
/// digits.
pub open spec fn endpoint(s: Seq<char>, i: int) -> Result<(usize, int), ExpandError> {
    let q = skip_blanks(s, i);
    let d = skip_digits(s, q);
    if d == q || digits_value(s.subrange(q, d)) > usize::MAX {
        Err(ExpandError::RangeLiteral)
    } else {
        Ok((digits_value(s.subrange(q, d)) as usize, d))
    }
}

/// The callback's name: the text before the first `!`, without blanks
/// around it.
pub open spec fn callback_text(s: Seq<char>) -> Seq<char> {
    let lo = skip_blanks(s, 0);
    s.subrange(lo, trim_end(s, lo, find_bang(s, 0)))
}

/// What a descriptor text reads as. Whether the callback's name is an
/// identifier is not decided here.
pub open spec fn parse_spec(s: Seq<char>) -> Result<(Seq<char>, RangeSpec), ExpandError> {
    let b = find_bang(s, 0);
    let p = skip_blanks(s, b + 1);
    if b >= s.len() || !keyword_for_at(s, p) {
        Err(ExpandError::Grammar)
    } else {
        match endpoint(s, p + 4) {
            Err(e) => Err(e),
            Ok((start, d1)) => {
                let r = skip_blanks(s, d1);
                if !range_op_at(s, r) {
                    Err(ExpandError::Grammar)
                } else {
                    let inclusive = r + 2 < s.len() && s[r + 2] == '=';
                    let e0 = if inclusive {
                        r + 3
                    } else {
                        r + 2
                    };
                    match endpoint(s, e0) {
                        Err(e) => Err(e),
                        Ok((end, d2)) => {
                            if skip_blanks(s, d2) != s.len() {
                                Err(ExpandError::TrailingTokens)
                            } else {
                                Ok(
                                    (
                                        callback_text(s),
                                        RangeSpec { start, end, inclusive },
                                    ),
                                )
                            }
                        },
                    }
                }
            },
        }
    }
}

/// Whether the text is, to syn, a single identifier other than a keyword.
pub uninterp spec fn is_identifier(s: Seq<char>) -> bool;

/// Relies on `syn::parse_str::<syn::Ident>`: it succeeds when the whole text
/// lexes to one identifier token that is not a keyword or `_`.
#[verifier::external_body]
pub(crate) fn parses_as_ident(s: &str) -> (r: bool)
    ensures
        r == is_identifier(s@),
{
    syn::parse_str::<syn::Ident>(s).is_ok()
}

/// The callback's blanks end no later than its `!`.
proof fn lemma_blanks_before_bang(s: Seq<char>, i: int)
    requires
        0 <= i <= s.len(),
    ensures
        i <= find_bang(s, i),
        skip_blanks(s, i) <= find_bang(s, i),
    decreases s.len() - i,
{
    if i < s.len() && s[i] != '!' {
        lemma_blanks_before_bang(s, i + 1);
    }
}

fn skip_blanks_from(s: &str, len: usize, i: usize) -> (r: usize)
    requires
        len == s@.len(),
        i <= len,
    ensures
        r == skip_blanks(s@, i as int),
        i <= r <= len,
{
    let mut j = i;
    while j < len
        invariant
            i <= j <= len,
            len == s@.len(),
            skip_blanks(s@, j as int) == skip_blanks(s@, i as int),
        decreases len - j,
    {
        let c = s.get_char(j);
        if !(c == ' ' || c == '\t' || c == '\n' || c == '\r') {
            return j;
        }
        j = j + 1;
    }
    j
}

fn skip_digits_from(s: &str, len: usize, i: usize) -> (r: usize)
    requires
        len == s@.len(),
        i <= len,
    ensures
        r == skip_digits(s@, i as int),
        i <= r <= len,
        forall|k: int| i <= k < r ==> is_digit(#[trigger] s@[k]),
{
    let mut j = i;
    while j < len
        invariant
            i <= j <= len,
            len == s@.len(),
            skip_digits(s@, j as int) == skip_digits(s@, i as int),
            forall|k: int| i <= k < j ==> is_digit(#[trigger] s@[k]),
        decreases len - j,
    {
        let c = s.get_char(j);
        if !('0' <= c && c <= '9') {
            return j;
        }
        j = j + 1;
    }
    j
}

fn find_bang_from(s: &str, len: usize) -> (r: usize)
    requires
        len == s@.len(),
    ensures
        r == find_bang(s@, 0),
        r <= len,
{
    let mut j: usize = 0;
    while j < len
        invariant
            j <= len,
            len == s@.len(),
            find_bang(s@, j as int) == find_bang(s@, 0),
        decreases len - j,
    {
        if s.get_char(j) == '!' {
            return j;
        }
        j = j + 1;
    }
    j
}

fn trim_end_from(s: &str, len: usize, lo: usize, hi: usize) -> (r: usize)
    requires
        len == s@.len(),
        lo <= hi <= len,
    ensures
        r == trim_end(s@, lo as int, hi as int),
        lo <= r <= hi,
{
    let mut j = hi;
    while lo < j
        invariant
            lo <= j <= hi,
            hi <= len,
            len == s@.len(),
            trim_end(s@, lo as int, j as int) == trim_end(s@, lo as int, hi as int),
        decreases j,
    {
        let c = s.get_char(j - 1);
        if !(c == ' ' || c == '\t' || c == '\n' || c == '\r') {
            return j;
        }
        j = j - 1;
    }
    j
}

fn read_endpoint(s: &str, len: usize, i: usize) -> (r: Result<(usize, usize), ExpandError>)
    requires
        len == s@.len(),
        i <= len,
    ensures
        match r {
            Ok((v, d)) => endpoint(s@, i as int) == Ok::<(usize, int), ExpandError>(
                (v, d as int),
            ) && d <= len,
            Err(e) => endpoint(s@, i as int) == Err::<(usize, int), ExpandError>(e),
        },
{
    let q = skip_blanks_from(s, len, i);
    let d = skip_digits_from(s, len, q);
    if d == q {
        return Err(ExpandError::RangeLiteral);
    }
    let ghost digits = s@.subrange(q as int, d as int);
    let mut value: usize = 0;
    let mut k = q;
    while k < d
        invariant
            q <= k <= d <= len,
            len == s@.len(),
            digits == s@.subrange(q as int, d as int),
            q as int == skip_blanks(s@, i as int),
            d as int == skip_digits(s@, q as int),
            q < d,
            forall|m: int| q <= m < d ==> is_digit(#[trigger] s@[m]),
            value == digits_value(s@.subrange(q as int, k as int)),
        decreases d - k,
    {
        let digit = char_to_digit(s.get_char(k));
        let ghost next = s@.subrange(q as int, k + 1);
        assert(next.drop_last() =~= s@.subrange(q as int, k as int));
        let step = match value.checked_mul(10) {
            Some(t) => t.checked_add(digit),
            None => None,
        };
        match step {
            Some(t) => {
                value = t;
            },
            None => {
                proof {
                    assert(next.last() == s@[k as int]);
                    assert(digits_value(next) == value * 10 + digit);
                    lemma_digits_value_grows(digits, k + 1 - q);
                    assert(digits.subrange(0, k + 1 - q) =~= next);
                }
                return Err(ExpandError::RangeLiteral);
            },
        }
        k = k + 1;
    }
    Ok((value, d))
}

/// Reads a descriptor. Whether the callback's name is an identifier is left
/// to the caller.
pub fn parse_descriptor(s: &str) -> (r: Result<ForTupleInput, ExpandError>)
    ensures
        match r {
            Ok(d) => parse_spec(s@) == Ok::<(Seq<char>, RangeSpec), ExpandError>(d@),
            Err(e) => parse_spec(s@) == Err::<(Seq<char>, RangeSpec), ExpandError>(e),
        },
{
    let len = s.unicode_len();
    let b = find_bang_from(s, len);
    if b >= len {
        return Err(ExpandError::Grammar);
    }
    let p = skip_blanks_from(s, len, b + 1);
    if !(p < len && len - p > 3 && s.get_char(p) == 'f' && s.get_char(p + 1) == 'o' && s.get_char(p + 2)
        == 'r') {
        return Err(ExpandError::Grammar);
    }
    let c = s.get_char(p + 3);
    if !(c == ' ' || c == '\t' || c == '\n' || c == '\r') {
        return Err(ExpandError::Grammar);
    }
    let (start, d1) = match read_endpoint(s, len, p + 4) {
        Ok(v) => v,
        Err(e) => {
            return Err(e);
        },
    };
    let r = skip_blanks_from(s, len, d1);
    if !(r < len && len - r > 1 && s.get_char(r) == '.' && s.get_char(r + 1) == '.') {
        return Err(ExpandError::Grammar);
    }
    let inclusive = r + 2 < len && s.get_char(r + 2) == '=';
    let e0 = if inclusive {
        r + 3
    } else {
        r + 2
    };
    let (end, d2) = match read_endpoint(s, len, e0) {
        Ok(v) => v,
        Err(e) => {
            return Err(e);
        },
    };
    if skip_blanks_from(s, len, d2) != len {
        return Err(ExpandError::TrailingTokens);
    }
    let lo = skip_blanks_from(s, len, 0);
    proof {
        lemma_blanks_before_bang(s@, 0);
    }
    let hi = trim_end_from(s, len, lo, b);
    let callback = String::from_str(s.substring_char(lo, hi));
    Ok(ForTupleInput { callback, range: RangeSpec { start, end, inclusive } })
}

} // verus!
