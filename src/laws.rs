//! Properties of the expansion that hold for every input.
use vstd::prelude::*;

use crate::decimal::{dec, is_digit, lemma_dec_injective, lemma_dec_value};
use crate::descriptor::{is_identifier, parse_spec, ExpandError};
use crate::expand::{concat, entries, entry_name, entry_text, entry_type, invocation, RangeSpec};
use crate::for_tuple_spec;

verus! {

/// Expanding `start..=end` with `start <= end` gives `end - start + 1`
/// invocations, for the arities `start`, `start + 1`, ..., `end` in that order.
pub proof fn law_inclusive_range(s: Seq<char>, callback: Seq<char>, start: usize, end: usize)
    requires
        parse_spec(s) == Ok::<(Seq<char>, RangeSpec), ExpandError>(
            (callback, RangeSpec { start, end, inclusive: true }),
        ),
        is_identifier(callback),
        start <= end,
    ensures
        for_tuple_spec(s) == Ok::<Seq<char>, ExpandError>(
            concat(
                Seq::new((end - start + 1) as nat, |k: int| invocation(callback, (start + k) as nat)),
            ),
        ),
{
    let range = RangeSpec { start, end, inclusive: true };
    assert(range.arities().map_values(|n: nat| invocation(callback, n)) =~= Seq::new(
        (end - start + 1) as nat,
        |k: int| invocation(callback, (start + k) as nat),
    ));
}

/// Expanding `start..end` with `start < end` gives `end - start` invocations,
/// for the arities `start`, `start + 1`, ..., `end - 1` in that order.
pub proof fn law_exclusive_range(s: Seq<char>, callback: Seq<char>, start: usize, end: usize)
    requires
        parse_spec(s) == Ok::<(Seq<char>, RangeSpec), ExpandError>(
            (callback, RangeSpec { start, end, inclusive: false }),
        ),
        is_identifier(callback),
        start < end,
    ensures
        for_tuple_spec(s) == Ok::<Seq<char>, ExpandError>(
            concat(
                Seq::new((end - start) as nat, |k: int| invocation(callback, (start + k) as nat)),
            ),
        ),
{
    let range = RangeSpec { start, end, inclusive: false };
    assert(range.arities().map_values(|n: nat| invocation(callback, n)) =~= Seq::new(
        (end - start) as nat,
        |k: int| invocation(callback, (start + k) as nat),
    ));
}

/// A range with no arity in it, such as `0..0`, is no error: it expands to
/// nothing.
pub proof fn law_empty_range(s: Seq<char>, callback: Seq<char>, range: RangeSpec)
    requires
        parse_spec(s) == Ok::<(Seq<char>, RangeSpec), ExpandError>((callback, range)),
        is_identifier(callback),
        if range.inclusive {
            range.end < range.start
        } else {
            range.end <= range.start
        },
    ensures
        for_tuple_spec(s) == Ok::<Seq<char>, ExpandError>(Seq::empty()),
{
    assert(range.arities().map_values(|n: nat| invocation(callback, n)) =~= Seq::empty());
}

/// The invocation of arity `n` lists `n` entries; the one at position `i`
/// starts with the index `i`, is the same in every arity that has it, and
/// holds no comma, so the commas of the list separate exactly the entries.
pub proof fn law_entries(n: nat, m: nat, i: nat)
    requires
        i < n,
        i < m,
    ensures
        entries(n).len() == n,
        entries(n)[i as int] == entry_text(i),
        entries(n)[i as int] == entries(m)[i as int],
        entry_text(i).subrange(0, dec(i).len() as int) == dec(i),
        forall|k: int| 0 <= k < entry_text(i).len() ==> #[trigger] entry_text(i)[k] != ',',
{
    lemma_dec_value(i);
    assert(entry_text(i).subrange(0, dec(i).len() as int) =~= dec(i));
    assert forall|k: int| 0 <= k < entry_text(i).len() implies #[trigger] entry_text(i)[k]
        != ',' by {
        let d = dec(i).len() as int;
        if k < d {
            assert(is_digit(dec(i)[k]));
        } else if d + 3 <= k < 2 * d + 3 {
            assert(entry_text(i)[k] == dec(i)[k - d - 3]);
            assert(is_digit(dec(i)[k - d - 3]));
        } else if 2 * d + 5 <= k {
            assert(entry_text(i)[k] == dec(i)[k - 2 * d - 5]);
            assert(is_digit(dec(i)[k - 2 * d - 5]));
        }
    }
}

/// Distinct positions get distinct variable names, type parameter names and
/// entries.
pub proof fn law_entries_distinct(i: nat, j: nat)
    requires
        i != j,
    ensures
        entry_name(i) != entry_name(j),
        entry_type(i) != entry_type(j),
        entry_text(i) != entry_text(j),
{
    if entry_name(i) == entry_name(j) {
        assert(entry_name(i).drop_first() =~= dec(i));
        assert(entry_name(j).drop_first() =~= dec(j));
        lemma_dec_injective(i, j);
    }
    if entry_type(i) == entry_type(j) {
        assert(entry_type(i).drop_first() =~= dec(i));
        assert(entry_type(j).drop_first() =~= dec(j));
        lemma_dec_injective(i, j);
    }
    if entry_text(i) == entry_text(j) {
        lemma_dec_value(i);
        lemma_dec_value(j);
        let a = dec(i).len() as int;
        let b = dec(j).len() as int;
        if a < b {
            assert(entry_text(i)[a] == '=');
            assert(entry_text(j)[a] == dec(j)[a]);
            assert(is_digit(dec(j)[a]));
        } else if b < a {
            assert(entry_text(j)[b] == '=');
            assert(entry_text(i)[b] == dec(i)[b]);
            assert(is_digit(dec(i)[b]));
        } else {
            assert(entry_text(i).subrange(0, a) =~= dec(i));
            assert(entry_text(j).subrange(0, b) =~= dec(j));
            lemma_dec_injective(i, j);
        }
    }
}

/// The expansion is a function of the input text alone: the same text
/// always gives the same output, or the same error.
pub proof fn law_deterministic(a: Seq<char>, b: Seq<char>)
    requires
        a == b,
    ensures
        for_tuple_spec(a) == for_tuple_spec(b),
{
}

} // verus!
