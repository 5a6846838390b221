//! Laws of the call trie's transition system: balanced call/return sequences
//! restore the cursor, unmatched returns change nothing, and no instruction's
//! cost is ever dropped or double-counted.

use crate::trie::{cost_sum, CallTrie};
use vstd::prelude::*;

verus! {

/// Some call transition whose return link is `link` relates `pre` to `post`,
/// whatever function it targeted and whatever the registers held.
pub open spec fn some_call_step(pre: CallTrie, post: CallTrie, link: u64) -> bool {
    exists|entry_addr: u64, pc: u64, regs: Seq<u64>|
        CallTrie::call_step(pre, post, entry_addr, link, pc, regs)
}

/// Some return transition whose jump target is `addr` relates `pre` to
/// `post`, whatever the registers held.
pub open spec fn some_return_step(pre: CallTrie, post: CallTrie, addr: u64) -> bool {
    exists|regs: Seq<u64>| CallTrie::return_step(pre, post, addr, regs)
}

/// `ts` is a run of call transitions, the `k`-th pushing a frame whose
/// return link is `links[k]`.
pub open spec fn call_chain(ts: Seq<CallTrie>, links: Seq<u64>) -> bool {
    &&& ts.len() == links.len() + 1
    &&& forall|k: int|
        #![trigger ts.index(k)]
        0 <= k < links.len() ==> some_call_step(ts[k], ts[k + 1], links[k])
}

/// `us` is a run of return transitions that match `links` exactly, in
/// reverse order: the `k`-th return jumps to `links[links.len() - 1 - k]`.
pub open spec fn matching_return_chain(us: Seq<CallTrie>, links: Seq<u64>) -> bool {
    &&& us.len() == links.len() + 1
    &&& forall|k: int|
        #![trigger us.index(k)]
        0 <= k < links.len() ==> some_return_step(us[k], us[k + 1], links[links.len() - 1 - k])
}

/// A call transition never disturbs the return link or the parent of any
/// frame that already existed, and only appends to the arena.
proof fn lemma_call_preserves_frames(pre: CallTrie, post: CallTrie, link: u64)
    requires
        some_call_step(pre, post, link),
    ensures
        post.nodes@.len() == pre.nodes@.len() + 1,
        forall|i: int|
            0 <= i < pre.nodes@.len() ==> #[trigger] post.nodes@[i].return_link
                == pre.nodes@[i].return_link && post.nodes@[i].parent == pre.nodes@[i].parent,
{
    let (entry_addr, pc, regs) = choose|entry_addr: u64, pc: u64, regs: Seq<u64>|
        CallTrie::call_step(pre, post, entry_addr, link, pc, regs);
}

/// A return transition never disturbs the return link or the parent of any
/// frame, and never changes the arena's length.
proof fn lemma_return_preserves_frames(pre: CallTrie, post: CallTrie, addr: u64)
    requires
        some_return_step(pre, post, addr),
    ensures
        post.nodes@.len() == pre.nodes@.len(),
        forall|i: int|
            0 <= i < pre.nodes@.len() ==> #[trigger] post.nodes@[i].return_link
                == pre.nodes@[i].return_link && post.nodes@[i].parent == pre.nodes@[i].parent,
{
    let regs = choose|regs: Seq<u64>| CallTrie::return_step(pre, post, addr, regs);
}

/// Frame links and parents survive a whole chain of call transitions.
proof fn lemma_call_chain_preserves_frames(ts: Seq<CallTrie>, links: Seq<u64>)
    requires
        call_chain(ts, links),
    ensures
        ts.last().nodes@.len() == ts[0].nodes@.len() + links.len(),
        forall|i: int|
            0 <= i < ts[0].nodes@.len() ==> #[trigger] ts.last().nodes@[i].return_link
                == ts[0].nodes@[i].return_link && ts.last().nodes@[i].parent
                == ts[0].nodes@[i].parent,
    decreases links.len(),
{
    if links.len() == 0 {
    } else {
        let ts2 = ts.subrange(1, ts.len() as int);
        let links2 = links.subrange(1, links.len() as int);
        assert forall|k: int|
            #![trigger ts2.index(k)]
            0 <= k < links2.len() implies some_call_step(
            ts2[k],
            ts2[k + 1],
            links2[k],
        ) by {
            assert(ts[k + 1] == ts2[k]);
            assert(some_call_step(ts[k + 1], ts[k + 2], links[k + 1]));
        }
        lemma_call_chain_preserves_frames(ts2, links2);
        assert(some_call_step(ts[0], ts[1], links[0]));
        lemma_call_preserves_frames(ts[0], ts[1], links[0]);
        assert(ts2.last() == ts.last());
    }
}

/// Frame links and parents survive a whole chain of return transitions.
proof fn lemma_return_chain_preserves_frames(us: Seq<CallTrie>, links: Seq<u64>)
    requires
        matching_return_chain(us, links),
    ensures
        us.last().nodes@.len() == us[0].nodes@.len(),
        forall|i: int|
            0 <= i < us[0].nodes@.len() ==> #[trigger] us.last().nodes@[i].return_link
                == us[0].nodes@[i].return_link && us.last().nodes@[i].parent
                == us[0].nodes@[i].parent,
    decreases links.len(),
{
    if links.len() == 0 {
    } else {
        let n = links.len() as int;
        let us2 = us.subrange(0, n);
        let links2 = links.subrange(1, n);
        assert forall|k: int|
            #![trigger us2.index(k)]
            0 <= k < links2.len() implies some_return_step(
            us2[k],
            us2[k + 1],
            links2[links2.len() - 1 - k],
        ) by {
            assert(us[k] == us2[k]);
            assert(some_return_step(us[k], us[k + 1], links[links.len() - 1 - k]));
            assert(links2[links2.len() - 1 - k] == links[links.len() - 1 - k]);
        }
        lemma_return_chain_preserves_frames(us2, links2);
        assert(some_return_step(us[n - 1], us[n], links[0]));
        lemma_return_preserves_frames(us[n - 1], us[n], links[0]);
        assert(us2.last() == us[n - 1]);
        assert(us2[0] == us[0]);
    }
}

/// Call/return is stack-balanced under well-formed nesting: after any run of
/// call transitions followed by their exactly matching return transitions,
/// in reverse order, the cursor stands where it stood before the run.
pub proof fn lemma_balanced_calls_returns(ts: Seq<CallTrie>, links: Seq<u64>, us: Seq<CallTrie>)
    requires
        ts[0].wf(),
        call_chain(ts, links),
        matching_return_chain(us, links),
        us[0] == ts.last(),
    ensures
        us.last().cursor == ts[0].cursor,
    decreases links.len(),
{
    if links.len() == 0 {
        assert(us.last() == us[0]);
        assert(ts.last() == ts[0]);
    } else {
        let n = links.len() as int;
        let m = ts[0].nodes@.len() as int;
        assert(some_call_step(ts[0], ts[1], links[0]));
        let (entry_addr, pc, regs) = choose|entry_addr: u64, pc: u64, regs: Seq<u64>|
            CallTrie::call_step(ts[0], ts[1], entry_addr, links[0], pc, regs);
        // After the first call, frame `m` carries link `links[0]` and points
        // back at the original cursor.
        assert(ts[1].nodes@[m].return_link == links[0]);
        assert(ts[1].nodes@[m].parent == Some(ts[0].cursor));
        assert(ts[1].cursor == m);

        // The inner calls and their matching returns bring the cursor back
        // to frame `m`.
        let ts2 = ts.subrange(1, ts.len() as int);
        let links2 = links.subrange(1, n);
        let us2 = us.subrange(0, n);
        assert forall|k: int|
            #![trigger ts2.index(k)]
            0 <= k < links2.len() implies some_call_step(
            ts2[k],
            ts2[k + 1],
            links2[k],
        ) by {
            assert(ts[k + 1] == ts2[k]);
            assert(some_call_step(ts[k + 1], ts[k + 2], links[k + 1]));
        }
        assert forall|k: int|
            #![trigger us2.index(k)]
            0 <= k < links2.len() implies some_return_step(
            us2[k],
            us2[k + 1],
            links2[links2.len() - 1 - k],
        ) by {
            assert(us[k] == us2[k]);
            assert(some_return_step(us[k], us[k + 1], links[links.len() - 1 - k]));
            assert(links2[links2.len() - 1 - k] == links[links.len() - 1 - k]);
        }
        assert(ts2.last() == ts.last());
        lemma_balanced_calls_returns(ts2, links2, us2);
        assert(us2.last() == us[n - 1]);
        assert(us[n - 1].cursor == m);

        // Frame `m` still carries its link and parent when the last return
        // runs, so the return resolves to it at once.
        lemma_call_chain_preserves_frames(ts2, links2);
        lemma_return_chain_preserves_frames(us2, links2);
        assert(us[n - 1].nodes@[m].return_link == links[0]);
        assert(us[n - 1].nodes@[m].parent == Some(ts[0].cursor));
        assert(us[n - 1].resolve_return(m, links[0]) == Some(m));
        assert(some_return_step(us[n - 1], us[n], links[0]));
        let regs2 = choose|regs2: Seq<u64>|
            #[trigger] CallTrie::return_step(us[n - 1], us[n], links[0], regs2);
        assert(us[n].cursor == ts[0].cursor);
        assert(us.last() == us[n]);
    }
}

/// An unmatched return transition is a complete no-op: when no ancestor of
/// the cursor carries the jump target as its return link, the trie — and in
/// particular the cursor — is left exactly as it was.
pub proof fn lemma_unmatched_return_noop(pre: CallTrie, post: CallTrie, addr: u64, regs: Seq<u64>)
    requires
        CallTrie::return_step(pre, post, addr, regs),
        pre.resolve_return(pre.cursor as int, addr) is None,
    ensures
        post == pre,
{
}

/// Sum of a sequence of per-instruction costs.
pub open spec fn int_sum(cs: Seq<int>) -> int
    decreases cs.len(),
{
    if cs.len() == 0 {
        0
    } else {
        int_sum(cs.drop_last()) + cs.last()
    }
}

/// One analyzer step as seen by the trie, together with the cost it charges:
/// a cost attribution that does not saturate charges its cycles, while call
/// and return transitions charge nothing.
pub open spec fn analyzer_step_cost(pre: CallTrie, post: CallTrie, c: int) -> bool {
    ||| exists|cycles: u64, pc: u64|
        {
            &&& #[trigger] CallTrie::cost_step(pre, post, cycles, pc)
            &&& c == cycles
            &&& pre.nodes@[pre.cursor as int].accumulated_cost + cycles <= u64::MAX
        }
    ||| (exists|link: u64| some_call_step(pre, post, link)) && c == 0
    ||| (exists|addr: u64| some_return_step(pre, post, addr)) && c == 0
}

/// Cost conservation: over any run of analyzer steps, the accumulated costs
/// summed over every frame of the trie grow by exactly the sum of the
/// per-instruction costs charged — none is dropped, none counted twice.
pub proof fn lemma_cost_conservation(ts: Seq<CallTrie>, costs: Seq<int>)
    requires
        ts.len() == costs.len() + 1,
        forall|k: int|
            #![trigger ts.index(k)]
            0 <= k < costs.len() ==> analyzer_step_cost(ts[k], ts[k + 1], costs[k]),
    ensures
        cost_sum(ts.last().nodes@) == cost_sum(ts[0].nodes@) + int_sum(costs),
    decreases costs.len(),
{
    if costs.len() == 0 {
        assert(ts.last() == ts[0]);
    } else {
        let n = costs.len() as int;
        let ts2 = ts.subrange(0, n);
        let costs2 = costs.subrange(0, n - 1);
        assert forall|k: int|
            #![trigger ts2.index(k)]
            0 <= k < costs2.len() implies analyzer_step_cost(
            ts2[k],
            ts2[k + 1],
            costs2[k],
        ) by {
            assert(ts[k] == ts2[k]);
            assert(analyzer_step_cost(ts[k], ts[k + 1], costs[k]));
        }
        lemma_cost_conservation(ts2, costs2);
        assert(ts2.last() == ts[n - 1]);
        assert(analyzer_step_cost(ts[n - 1], ts[n], costs[n - 1]));
        assert(cost_sum(ts[n].nodes@) == cost_sum(ts[n - 1].nodes@) + costs[n - 1]);
        assert(costs2 =~= costs.drop_last());
        assert(ts.last() == ts[n]);
    }
}

} // verus!
