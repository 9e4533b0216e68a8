//! A log that keeps its most recent lines.

use std::collections::VecDeque;
use vstd::prelude::*;

verus! {

/// The lines of `lines` that stay when one more is added to a log of at most
/// `max` lines: the most recent `max - 1`.
pub open spec fn kept(lines: Seq<String>, max: int) -> Seq<String> {
    if lines.len() >= max {
        lines.skip(lines.len() - max + 1)
    } else {
        lines
    }
}

/// Adds `line` to a log of at most `max` lines, dropping the oldest ones.
pub fn push(log: &mut VecDeque<String>, max: usize, line: String)
    requires
        max > 0,
    ensures
        final(log)@ == kept(old(log)@, max as int).push(line),
{
    let ghost before = log@;
    let ghost mut gone: int = 0;
    assert(before.skip(0) == before);
    while log.len() >= max
        invariant
            max > 0,
            0 <= gone <= before.len(),
            log@ == before.skip(gone),
            gone > 0 ==> before.len() - gone >= max - 1,
            log@.len() == before.len() - gone,
        decreases log@.len(),
    {
        let ghost here = log@;
        let _ = log.pop_front();
        proof {
            assert(here.subrange(1, here.len() as int) == before.skip(gone + 1));
            gone = gone + 1;
        }
    }
    assert(log@ == kept(before, max as int));
    log.push_back(line);
}

/// The log never grows beyond its limit, its newest line is the one just added,
/// and the lines before it are the most recent ones of before, in their order.
pub proof fn law_log_bounded(lines: Seq<String>, max: int, line: String)
    requires
        max > 0,
    ensures
        ({
            let after = kept(lines, max).push(line);
            &&& after.len() <= max
            &&& after.last() == line
            &&& after.drop_last().is_suffix_of(lines)
            &&& lines.len() < max ==> after == lines.push(line)
        }),
{
    let after = kept(lines, max).push(line);
    assert(after.drop_last() =~= kept(lines, max));
    assert(lines.subrange(
        lines.len() - kept(lines, max).len(),
        lines.len() as int,
    ) =~= kept(lines, max));
}

/// A full log gives up its oldest line and no other: it stays full.
pub proof fn law_full_log_stays_full(lines: Seq<String>, max: int, line: String)
    requires
        max > 0,
        lines.len() >= max,
    ensures
        kept(lines, max).push(line).len() == max,
        forall|i: int|
            0 <= i < max - 1 ==> #[trigger] kept(lines, max).push(line)[i] == lines[lines.len() - max
                + 1 + i],
{
}

} // verus!
