//! Anti-replay: a received packet counts only if its sequence number is
//! strictly newer than the highest one accepted so far in that direction.
//! Gaps are tolerated; duplicates, replays and reordered packets are not.

use vstd::prelude::*;

verus! {

/// When an incoming sequence number is acceptable.
pub open spec fn spec_accept(last_seen: u32, incoming: u32) -> bool {
    incoming > last_seen
}

/// True iff `incoming` is strictly newer than `last_seen`; on true the
/// caller records `incoming` as the new `last_seen`.
pub fn accept(last_seen: u32, incoming: u32) -> (r: bool)
    ensures
        r == spec_accept(last_seen, incoming),
{
    incoming > last_seen
}

/// Anti-replay: with `n` already seen, `n` itself and anything older are
/// rejected, while the immediate successor is accepted.
pub proof fn lemma_anti_replay(n: u32)
    ensures
        !spec_accept(n, n),
        forall|older: u32| older < n ==> !spec_accept(n, older),
        n < u32::MAX ==> spec_accept(n, (n + 1) as u32),
{
}

} // verus!
