//! The call trie: a tree of reconstructed call frames, stored as an arena of
//! nodes addressed by stable index, with a cursor marking the frame that is
//! currently executing.  Frames are only ever appended; a program-image reload
//! discards the whole trie and starts over from a fresh root.

use vstd::prelude::*;

verus! {

/// One node of the call trie.  Every frame except the root has exactly one
/// parent; the root has no parent and a zero return link.
pub struct CallFrame {
    /// Address of the function this frame represents (the program entry
    /// point for the root frame).
    pub entry_addr: u64,
    /// The address execution should return to when this call completes.
    pub return_link: u64,
    /// Most recently observed program counter while this frame was active.
    pub current_pc: u64,
    /// Cost attributed to instructions executed while this frame was the
    /// cursor; costs of descendants are not included.
    pub accumulated_cost: u64,
    /// Arena index of the parent frame, `None` only for the root.
    pub parent: Option<usize>,
    /// Arena indices of the child frames, in order of creation.
    pub children: Vec<usize>,
    /// Register file captured when the frame was entered.
    pub regs_entry: [u64; 32],
    /// Register file captured when the frame was returned from.
    pub regs_exit: [u64; 32],
}

impl CallFrame {
    /// A fresh root frame for a program whose entry point is `entry_addr`.
    pub fn root(entry_addr: u64) -> (r: CallFrame)
        ensures
            r.entry_addr == entry_addr,
            r.return_link == 0,
            r.current_pc == 0,
            r.accumulated_cost == 0,
            r.parent is None,
            r.children@.len() == 0,
    {
        CallFrame {
            entry_addr,
            return_link: 0,
            current_pc: 0,
            accumulated_cost: 0,
            parent: None,
            children: Vec::new(),
            regs_entry: [0; 32],
            regs_exit: [0; 32],
        }
    }
}

/// Two frames that agree on everything but the child list.
pub open spec fn frame_eq_except_children(a: CallFrame, b: CallFrame) -> bool {
    &&& a.entry_addr == b.entry_addr
    &&& a.return_link == b.return_link
    &&& a.current_pc == b.current_pc
    &&& a.accumulated_cost == b.accumulated_cost
    &&& a.parent == b.parent
    &&& a.regs_entry == b.regs_entry
    &&& a.regs_exit == b.regs_exit
}

/// Two frames that agree on everything but the exit register snapshot.
pub open spec fn frame_eq_except_exit(a: CallFrame, b: CallFrame) -> bool {
    &&& a.entry_addr == b.entry_addr
    &&& a.return_link == b.return_link
    &&& a.current_pc == b.current_pc
    &&& a.accumulated_cost == b.accumulated_cost
    &&& a.parent == b.parent
    &&& a.children == b.children
    &&& a.regs_entry == b.regs_entry
}

/// Two frames that agree on everything but the cost counter and the last
/// observed program counter.
pub open spec fn frame_eq_except_cost_pc(a: CallFrame, b: CallFrame) -> bool {
    &&& a.entry_addr == b.entry_addr
    &&& a.return_link == b.return_link
    &&& a.parent == b.parent
    &&& a.children == b.children
    &&& a.regs_entry == b.regs_entry
    &&& a.regs_exit == b.regs_exit
}

/// Sum of the accumulated costs of the first `n` frames.
pub open spec fn cost_sum_prefix(s: Seq<CallFrame>, n: int) -> int
    decreases n,
{
    if n <= 0 {
        0
    } else {
        cost_sum_prefix(s, n - 1) + s[n - 1].accumulated_cost
    }
}

/// Sum of the accumulated costs of every frame in the arena.
pub open spec fn cost_sum(s: Seq<CallFrame>) -> int {
    cost_sum_prefix(s, s.len() as int)
}

/// Appending a frame adds exactly its cost to the arena total.
pub proof fn lemma_cost_sum_push(s: Seq<CallFrame>, f: CallFrame)
    ensures
        cost_sum(s.push(f)) == cost_sum(s) + f.accumulated_cost,
{
    lemma_cost_sum_prefix_agree(s.push(f), s, s.len() as int);
    assert(s.push(f)[s.len() as int] == f);
}

/// Two arenas that agree on their first `n` frames have the same prefix sum.
pub proof fn lemma_cost_sum_prefix_agree(a: Seq<CallFrame>, b: Seq<CallFrame>, n: int)
    requires
        n <= a.len(),
        n <= b.len(),
        forall|i: int| 0 <= i < n ==> a[i] == b[i],
    ensures
        cost_sum_prefix(a, n) == cost_sum_prefix(b, n),
    decreases n,
{
    if n > 0 {
        lemma_cost_sum_prefix_agree(a, b, n - 1);
    }
}

/// Replacing the frame at `i` moves the arena total by the difference of the
/// two frames' costs.
pub proof fn lemma_cost_sum_update(s: Seq<CallFrame>, i: int, f: CallFrame)
    requires
        0 <= i < s.len(),
    ensures
        cost_sum(s.update(i, f)) == cost_sum(s) + f.accumulated_cost - s[i].accumulated_cost,
{
    lemma_cost_sum_update_prefix(s, i, f, s.len() as int);
}

proof fn lemma_cost_sum_update_prefix(s: Seq<CallFrame>, i: int, f: CallFrame, n: int)
    requires
        0 <= i < s.len(),
        n <= s.len(),
    ensures
        i < n ==> cost_sum_prefix(s.update(i, f), n) == cost_sum_prefix(s, n)
            + f.accumulated_cost - s[i].accumulated_cost,
        i >= n ==> cost_sum_prefix(s.update(i, f), n) == cost_sum_prefix(s, n),
    decreases n,
{
    if n > 0 {
        lemma_cost_sum_update_prefix(s, i, f, n - 1);
    }
}

/// The call trie proper: an append-only arena of frames plus the cursor of
/// the frame currently executing.
pub struct CallTrie {
    pub nodes: Vec<CallFrame>,
    pub cursor: usize,
}

impl CallTrie {
    /// Structural well-formedness: the arena is rooted at index zero, every
    /// other frame's parent comes strictly before it, child indices point
    /// strictly forward, and the cursor is a valid index.
    pub open spec fn wf(self) -> bool {
        &&& 1 <= self.nodes@.len()
        &&& self.cursor < self.nodes@.len()
        &&& self.nodes@[0].parent is None
        &&& self.nodes@[0].return_link == 0
        &&& forall|i: int|
            1 <= i < self.nodes@.len() ==> ((#[trigger] self.nodes@[i].parent) matches Some(p)
                && p < i)
        &&& forall|i: int, j: int|
            0 <= i < self.nodes@.len() && 0 <= j < self.nodes@[i].children@.len() ==> i
                < #[trigger] self.nodes@[i].children@[j] && self.nodes@[i].children@[j]
                < self.nodes@.len()
    }

    /// The frame a return transition to `addr` resolves to, starting at frame
    /// `i` and walking the ancestor chain: the nearest frame whose return
    /// link equals `addr`.  The root never matches, since it was not entered
    /// by any call.
    pub open spec fn resolve_return(self, i: int, addr: u64) -> Option<int>
        decreases i,
    {
        if 0 <= i < self.nodes@.len() {
            if self.nodes@[i].return_link == addr && self.nodes@[i].parent is Some {
                Some(i)
            } else {
                match self.nodes@[i].parent {
                    Some(p) => if p < i {
                        self.resolve_return(p as int, addr)
                    } else {
                        None
                    },
                    None => None,
                }
            }
        } else {
            None
        }
    }

    /// What one call transition does: a fresh frame is appended whose parent
    /// is the cursor, the cursor moves to it, and no other frame changes but
    /// for the new child index recorded under its parent.
    pub open spec fn call_step(
        pre: CallTrie,
        post: CallTrie,
        entry_addr: u64,
        link: u64,
        pc: u64,
        regs: Seq<u64>,
    ) -> bool {
        &&& post.wf()
        &&& post.nodes@.len() == pre.nodes@.len() + 1
        &&& post.cursor == pre.nodes@.len()
        &&& forall|i: int|
            0 <= i < pre.nodes@.len() && i != pre.cursor ==> post.nodes@[i] == pre.nodes@[i]
        &&& frame_eq_except_children(
            post.nodes@[pre.cursor as int],
            pre.nodes@[pre.cursor as int],
        )
        &&& post.nodes@[pre.cursor as int].children@ == pre.nodes@[pre.cursor as int].children@.push(
            (pre.nodes@.len() as usize),
        )
        &&& post.nodes@.last().entry_addr == entry_addr
        &&& post.nodes@.last().return_link == link
        &&& post.nodes@.last().current_pc == pc
        &&& post.nodes@.last().accumulated_cost == 0
        &&& post.nodes@.last().parent == Some(pre.cursor)
        &&& post.nodes@.last().children@.len() == 0
        &&& post.nodes@.last().regs_entry@ == regs
        &&& cost_sum(post.nodes@) == cost_sum(pre.nodes@)
    }

    /// What one return transition does: if the walk from the cursor resolves
    /// `addr` to a frame, that frame's exit snapshot is written and the
    /// cursor moves to its parent; otherwise nothing changes at all.
    pub open spec fn return_step(pre: CallTrie, post: CallTrie, addr: u64, regs: Seq<u64>) -> bool {
        &&& post.wf()
        &&& post.nodes@.len() == pre.nodes@.len()
        &&& cost_sum(post.nodes@) == cost_sum(pre.nodes@)
        &&& match pre.resolve_return(pre.cursor as int, addr) {
            Some(fi) => {
                &&& pre.nodes@[fi].parent matches Some(p) && post.cursor == p
                &&& forall|i: int|
                    0 <= i < pre.nodes@.len() && i != fi ==> post.nodes@[i] == pre.nodes@[i]
                &&& frame_eq_except_exit(post.nodes@[fi], pre.nodes@[fi])
                &&& post.nodes@[fi].regs_exit@ == regs
            },
            None => post == pre,
        }
    }

    /// What attributing one instruction's cost does: the cursor frame's
    /// counter grows by `cycles` (saturating) and notes `pc`; nothing else
    /// changes.
    pub open spec fn cost_step(pre: CallTrie, post: CallTrie, cycles: u64, pc: u64) -> bool {
        &&& post.wf()
        &&& post.cursor == pre.cursor
        &&& post.nodes@.len() == pre.nodes@.len()
        &&& forall|i: int|
            0 <= i < pre.nodes@.len() && i != pre.cursor ==> post.nodes@[i] == pre.nodes@[i]
        &&& frame_eq_except_cost_pc(
            post.nodes@[pre.cursor as int],
            pre.nodes@[pre.cursor as int],
        )
        &&& post.nodes@[pre.cursor as int].current_pc == pc
        &&& post.nodes@[pre.cursor as int].accumulated_cost == (
            if pre.nodes@[pre.cursor as int].accumulated_cost + cycles <= u64::MAX {
                pre.nodes@[pre.cursor as int].accumulated_cost + cycles
            } else {
                u64::MAX as int
            }
        )
        &&& pre.nodes@[pre.cursor as int].accumulated_cost + cycles <= u64::MAX
            ==> cost_sum(post.nodes@) == cost_sum(pre.nodes@) + cycles
    }

    /// A trie holding only a fresh root frame for entry point `entry_addr`.
    pub fn new(entry_addr: u64) -> (r: CallTrie)
        ensures
            r.wf(),
            r.nodes@.len() == 1,
            r.cursor == 0,
            r.nodes@[0].entry_addr == entry_addr,
            r.nodes@[0].accumulated_cost == 0,
            cost_sum(r.nodes@) == 0,
    {
        let mut nodes: Vec<CallFrame> = Vec::new();
        nodes.push(CallFrame::root(entry_addr));
        proof {
            assert(cost_sum_prefix(nodes@, 0) == 0);
        }
        CallTrie { nodes, cursor: 0 }
    }

    /// Attribute `cycles` of cost to the cursor frame and note `pc` as the
    /// most recently observed program counter.  The counter saturates at the
    /// largest representable value instead of wrapping.
    pub fn record_cost(&mut self, cycles: u64, pc: u64)
        requires
            old(self).wf(),
        ensures
            CallTrie::cost_step(*old(self), *final(self), cycles, pc),
            final(self).wf(),
            final(self).cursor == old(self).cursor,
            final(self).nodes@.len() == old(self).nodes@.len(),
            forall|i: int|
                0 <= i < old(self).nodes@.len() && i != old(self).cursor
                    ==> final(self).nodes@[i] == old(self).nodes@[i],
            frame_eq_except_cost_pc(
                final(self).nodes@[old(self).cursor as int],
                old(self).nodes@[old(self).cursor as int],
            ),
            final(self).nodes@[old(self).cursor as int].current_pc == pc,
            final(self).nodes@[old(self).cursor as int].accumulated_cost == (
                if old(self).nodes@[old(self).cursor as int].accumulated_cost + cycles
                    <= u64::MAX {
                    old(self).nodes@[old(self).cursor as int].accumulated_cost + cycles
                } else {
                    u64::MAX as int
                }
            ),
            old(self).nodes@[old(self).cursor as int].accumulated_cost + cycles <= u64::MAX
                ==> cost_sum(final(self).nodes@) == cost_sum(old(self).nodes@) + cycles,
    {
        let cur = self.cursor;
        let old_cost = self.nodes[cur].accumulated_cost;
        let new_cost = if cycles <= u64::MAX - old_cost {
            old_cost + cycles
        } else {
            u64::MAX
        };
        self.nodes[cur].accumulated_cost = new_cost;
        self.nodes[cur].current_pc = pc;
        proof {
            lemma_cost_sum_update(
                old(self).nodes@,
                cur as int,
                old(self).nodes@[cur as int],
            );
            lemma_cost_sum_update(
                old(self).nodes@.update(
                    cur as int,
                    self.nodes@[cur as int],
                ),
                cur as int,
                self.nodes@[cur as int],
            );
            assert(self.nodes@ =~= old(self).nodes@.update(cur as int, self.nodes@[cur as int]));
            lemma_cost_sum_update(old(self).nodes@, cur as int, self.nodes@[cur as int]);
        }
    }

    /// A call transition: push a fresh child frame under the cursor, capture
    /// the register file as the entry snapshot, and move the cursor to it.
    pub fn push_call(&mut self, entry_addr: u64, link: u64, pc: u64, regs: &[u64; 32])
        requires
            old(self).wf(),
            old(self).nodes@.len() < usize::MAX,
        ensures
            CallTrie::call_step(*old(self), *final(self), entry_addr, link, pc, regs@),
            final(self).wf(),
            final(self).nodes@.len() == old(self).nodes@.len() + 1,
            final(self).cursor == old(self).nodes@.len(),
            forall|i: int|
                0 <= i < old(self).nodes@.len() && i != old(self).cursor
                    ==> final(self).nodes@[i] == old(self).nodes@[i],
            frame_eq_except_children(
                final(self).nodes@[old(self).cursor as int],
                old(self).nodes@[old(self).cursor as int],
            ),
            final(self).nodes@[old(self).cursor as int].children@ == old(
                self,
            ).nodes@[old(self).cursor as int].children@.push(old(self).nodes.len()),
            final(self).nodes@.last().entry_addr == entry_addr,
            final(self).nodes@.last().return_link == link,
            final(self).nodes@.last().current_pc == pc,
            final(self).nodes@.last().accumulated_cost == 0,
            final(self).nodes@.last().parent == Some(old(self).cursor),
            final(self).nodes@.last().children@.len() == 0,
            final(self).nodes@.last().regs_entry@ == regs@,
            cost_sum(final(self).nodes@) == cost_sum(old(self).nodes@),
    {
        let parent_idx = self.cursor;
        let child_idx = self.nodes.len();
        let child = CallFrame {
            entry_addr,
            return_link: link,
            current_pc: pc,
            accumulated_cost: 0,
            parent: Some(parent_idx),
            children: Vec::new(),
            regs_entry: *regs,
            regs_exit: [0; 32],
        };
        proof {
            lemma_cost_sum_push(self.nodes@, child);
        }
        self.nodes.push(child);
        self.nodes[parent_idx].children.push(child_idx);
        self.cursor = child_idx;
        proof {
            lemma_cost_sum_update(
                old(self).nodes@.push(child),
                parent_idx as int,
                self.nodes@[parent_idx as int],
            );
            assert(self.nodes@ =~= old(self).nodes@.push(child).update(
                parent_idx as int,
                self.nodes@[parent_idx as int],
            ));
        }
    }

    /// Walk the ancestor chain from the cursor for the nearest frame whose
    /// return link equals `addr`.
    pub fn find_return_frame(&self, addr: u64) -> (r: Option<usize>)
        requires
            self.wf(),
        ensures
            match r {
                Some(f) => self.resolve_return(self.cursor as int, addr) == Some(f as int)
                    && f < self.nodes@.len() && self.nodes@[f as int].parent is Some
                    && self.nodes@[f as int].return_link == addr,
                None => self.resolve_return(self.cursor as int, addr) is None,
            },
    {
        let mut f = self.cursor;
        loop
            invariant
                self.wf(),
                f < self.nodes@.len(),
                self.resolve_return(self.cursor as int, addr) == self.resolve_return(
                    f as int,
                    addr,
                ),
            decreases f,
        {
            let matches_here = self.nodes[f].return_link == addr && self.nodes[f].parent.is_some();
            if matches_here {
                return Some(f);
            }
            match self.nodes[f].parent {
                Some(p) => {
                    f = p;
                },
                None => {
                    return None;
                },
            }
        }
    }

    /// A return transition: if some ancestor's return link equals `addr`,
    /// capture the register file as that ancestor's exit snapshot and move
    /// the cursor to that ancestor's parent; otherwise leave the trie
    /// untouched.  Returns the index of the frame returned from, if any.
    pub fn apply_return(&mut self, addr: u64, regs: &[u64; 32]) -> (matched: Option<usize>)
        requires
            old(self).wf(),
        ensures
            CallTrie::return_step(*old(self), *final(self), addr, regs@),
            final(self).wf(),
            final(self).nodes@.len() == old(self).nodes@.len(),
            cost_sum(final(self).nodes@) == cost_sum(old(self).nodes@),
            match old(self).resolve_return(old(self).cursor as int, addr) {
                Some(fi) => {
                    &&& 0 <= fi < old(self).nodes@.len()
                    &&& matched == Some(fi as usize)
                    &&& old(self).nodes@[fi].parent matches Some(p)
                        && final(self).cursor == p
                    &&& forall|i: int|
                        0 <= i < old(self).nodes@.len() && i != fi
                            ==> final(self).nodes@[i] == old(self).nodes@[i]
                    &&& frame_eq_except_exit(final(self).nodes@[fi], old(self).nodes@[fi])
                    &&& final(self).nodes@[fi].regs_exit@ == regs@
                },
                None => {
                    &&& matched is None
                    &&& *final(self) == *old(self)
                },
            },
    {
        match self.find_return_frame(addr) {
            None => None,
            Some(f) => {
                let popt = self.nodes[f].parent;
                match popt {
                    Some(p) => {
                        self.nodes[f].regs_exit = *regs;
                        self.cursor = p;
                        proof {
                            assert(self.nodes@ =~= old(self).nodes@.update(
                                f as int,
                                self.nodes@[f as int],
                            ));
                            lemma_cost_sum_update(
                                old(self).nodes@,
                                f as int,
                                self.nodes@[f as int],
                            );
                        }
                        Some(f)
                    },
                    None => {
                        proof {
                            assert(false);
                        }
                        None
                    },
                }
            },
        }
    }
}

} // verus!
