//! The text that one expansion produces: one callback invocation per arity.
use vstd::prelude::*;

use crate::decimal::{append_decimal, dec};

verus! {

/// The range of arities to expand: `start..end`, or `start..=end` when
/// `inclusive` holds. A range with no member is allowed and expands to nothing.
#[derive(Clone, Copy, Debug, PartialEq, Eq, Structural)]
pub struct RangeSpec {
    pub start: usize,
    pub end: usize,
    pub inclusive: bool,
}

impl RangeSpec {
    /// One past the last arity of the range.
    pub open spec fn upper(self) -> int {
        if self.inclusive {
            self.end + 1
        } else {
            self.end as int
        }
    }

    /// The arities of the range, lowest first.
    pub open spec fn arities(self) -> Seq<nat> {
        if self.start < self.upper() {
            Seq::new((self.upper() - self.start) as nat, |k: int| (self.start + k) as nat)
        } else {
            Seq::empty()
        }
    }
}

/// The variable name generated for tuple position `i`: `_` and its index.
pub open spec fn entry_name(i: nat) -> Seq<char> {
    seq!['_'] + dec(i)
}

/// The type parameter name generated for tuple position `i`: `T` and its index.
pub open spec fn entry_type(i: nat) -> Seq<char> {
    seq!['T'] + dec(i)
}

/// One entry of an argument list: `index=>name:type`.
pub open spec fn entry_text(i: nat) -> Seq<char> {
    dec(i) + seq!['=', '>'] + entry_name(i) + seq![':'] + entry_type(i)
}

/// The entries of a tuple of arity `n`, for positions `0..n` in order.
pub open spec fn entries(n: nat) -> Seq<Seq<char>> {
    Seq::new(n, |i: int| entry_text(i as nat))
}

/// The parts joined by commas.
pub open spec fn join(parts: Seq<Seq<char>>) -> Seq<char>
    decreases parts.len(),
{
    if parts.len() == 0 {
        Seq::empty()
    } else if parts.len() == 1 {
        parts[0]
    } else {
        join(parts.drop_last()) + seq![','] + parts.last()
    }
}

/// The parts one after another.
pub open spec fn concat(parts: Seq<Seq<char>>) -> Seq<char>
    decreases parts.len(),
{
    if parts.len() == 0 {
        Seq::empty()
    } else {
        concat(parts.drop_last()) + parts.last()
    }
}

/// The invocation of `callback` for arity `n`: `callback!(entries);`. The
/// semicolon lets the invocation stand in item or statement position.
pub open spec fn invocation(callback: Seq<char>, n: nat) -> Seq<char> {
    callback + seq!['!', '('] + join(entries(n)) + seq![')', ';']
}

/// The whole output: the invocations for each arity of the range, in order.
pub open spec fn expansion(callback: Seq<char>, range: RangeSpec) -> Seq<char> {
    concat(range.arities().map_values(|n: nat| invocation(callback, n)))
}

/// One tuple position: its index, the variable name and the type parameter
/// name generated for it.
pub struct TupleEntry {
    pub index: usize,
    pub name: String,
    pub ty: String,
}

impl TupleEntry {
    /// The names are those generated for the index.
    pub open spec fn wf(&self) -> bool {
        &&& self.name@ == entry_name(self.index as nat)
        &&& self.ty@ == entry_type(self.index as nat)
    }

    /// The entry of tuple position `index`.
    pub fn new(index: usize) -> (r: TupleEntry)
        ensures
            r.index == index,
            r.wf(),
    {
        proof {
            reveal_strlit("_");
            reveal_strlit("T");
        }
        let mut name = String::new();
        name.append("_");
        append_decimal(&mut name, index);
        let mut ty = String::new();
        ty.append("T");
        append_decimal(&mut ty, index);
        assert(name@ =~= entry_name(index as nat));
        assert(ty@ =~= entry_type(index as nat));
        TupleEntry { index, name, ty }
    }

    /// Appends the entry as `index=>name:type`.
    pub fn append_to(&self, out: &mut String)
        requires
            self.wf(),
        ensures
            final(out)@ == old(out)@ + entry_text(self.index as nat),
    {
        proof {
            reveal_strlit("=>");
            reveal_strlit(":");
        }
        append_decimal(out, self.index);
        out.append("=>");
        out.append(self.name.as_str());
        out.append(":");
        out.append(self.ty.as_str());
        assert(final(out)@ =~= old(out)@ + entry_text(self.index as nat));
    }
}

/// Appends the invocation of `callback` for arity `n`.
pub fn append_invocation(out: &mut String, callback: &str, n: usize)
    ensures
        final(out)@ == old(out)@ + invocation(callback@, n as nat),
{
    proof {
        reveal_strlit("!(");
        reveal_strlit(");");
    }
    let ghost start = out@;
    out.append(callback);
    out.append("!(");
    let ghost head = out@;
    let mut i: usize = 0;
    while i < n
        invariant
            i <= n,
            head == start + callback@ + seq!['!', '('],
            out@ == head + join(entries(i as nat)),
        decreases n - i,
    {
        let ghost before = out@;
        if i > 0 {
            proof {
                reveal_strlit(",");
            }
            out.append(",");
            assert(out@ =~= before + seq![',']);
        }
        let entry = TupleEntry::new(i);
        entry.append_to(out);
        proof {
            let next = entries((i + 1) as nat);
            assert(next.drop_last() =~= entries(i as nat));
            assert(next.last() == entry_text(i as nat));
            if i == 0 {
                assert(join(entries(0)) =~= Seq::<char>::empty());
                assert(out@ =~= head + join(next));
            } else {
                assert(join(next) == join(next.drop_last()) + seq![','] + next.last());
                assert(out@ =~= head + join(next));
            }
        }
        i = i + 1;
    }
    out.append(");");
    assert(out@ =~= start + invocation(callback@, n as nat));
}

/// The invocations of `callback` for each arity of `range`, lowest first.
pub fn expand(callback: &str, range: RangeSpec) -> (r: String)
    ensures
        r@ == expansion(callback@, range),
{
    let mut out = String::new();
    if range.inclusive && range.start <= range.end || !range.inclusive && range.start < range.end {
        let last = if range.inclusive { range.end } else { range.end - 1 };
        let mut k: usize = range.start;
        loop
            invariant_except_break
                range.start <= k <= last,
                out@ == concat(
                    range.arities().take(k - range.start).map_values(
                        |m: nat| invocation(callback@, m),
                    ),
                ),
            invariant
                last as int == range.upper() - 1,
            ensures
                out@ == expansion(callback@, range),
            decreases last - k,
        {
            append_invocation(&mut out, callback, k);
            proof {
                let done = range.arities().take(k + 1 - range.start).map_values(
                    |m: nat| invocation(callback@, m),
                );
                assert(done.drop_last() =~= range.arities().take(k - range.start).map_values(
                    |m: nat| invocation(callback@, m),
                ));
                assert(done.last() == invocation(callback@, k as nat));
            }
            if k == last {
                assert(range.arities().take(k + 1 - range.start) =~= range.arities());
                break;
            }
            k = k + 1;
        }
    } else {
        assert(range.arities().map_values(|m: nat| invocation(callback@, m)) =~= Seq::empty());
    }
    out
}

} // verus!
