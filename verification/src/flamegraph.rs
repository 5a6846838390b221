//! The call-trie profiler: reconstructs a call tree from control-transfer
//! instructions, attributes every instruction's cost to the frame that ran
//! it, and renders the folded-stack flamegraph and the stack trace.

use crate::image;
use crate::image::ImageParseError;
use crate::inst;
use crate::resolver::{fun_map_in, string_map_views, SymbolResolver};
use crate::tags::{dec_chars, tags_match, Tags};
use crate::trie::{cost_sum, CallTrie};
use vstd::prelude::*;

verus! {

broadcast use vstd::std_specs::hash::group_hash_axioms;

/// The register holding a call's first argument and its return value.
pub const REG_A0: usize = 10;

/// The `file:function` label memoized for an address, empty when none has
/// been memoized.
pub open spec fn label_simple(cache: Map<u64, Tags>, addr: u64) -> Seq<char> {
    if cache.contains_key(addr) {
        cache[addr].simple_label()
    } else {
        Seq::empty()
    }
}

/// The `file:line:function` label memoized for an address, empty when none
/// has been memoized.
pub open spec fn label_detail(cache: Map<u64, Tags>, addr: u64) -> Seq<char> {
    if cache.contains_key(addr) {
        cache[addr].detail_label()
    } else {
        Seq::empty()
    }
}

/// The folded-stack text of the subtree rooted at frame `i`: the frame's
/// own line — the semicolon-joined path of labels, a space, and its
/// accumulated cost — followed by its children's subtrees in order.
pub open spec fn flame_subtree(
    t: CallTrie,
    cache: Map<u64, Tags>,
    i: int,
    prefix: Seq<char>,
) -> Seq<char>
    decreases t.nodes@.len() - i, 1int, 0int,
{
    if t.wf() && 0 <= i < t.nodes@.len() {
        let name = prefix + label_simple(cache, t.nodes@[i].entry_addr);
        name + " "@ + dec_chars(t.nodes@[i].accumulated_cost as nat) + "\n"@ + flame_children(
            t,
            cache,
            i,
            0,
            name + "; "@,
        )
    } else {
        Seq::empty()
    }
}

/// The folded-stack text of the children of frame `i`, from child slot `j`
/// on.
pub open spec fn flame_children(
    t: CallTrie,
    cache: Map<u64, Tags>,
    i: int,
    j: int,
    prefix: Seq<char>,
) -> Seq<char>
    decreases t.nodes@.len() - i, 0int, t.nodes@[i].children@.len() - j,
{
    if t.wf() && 0 <= i < t.nodes@.len() && 0 <= j < t.nodes@[i].children@.len() {
        flame_subtree(t, cache, t.nodes@[i].children@[j] as int, prefix) + flame_children(
            t,
            cache,
            i,
            j + 1,
            prefix,
        )
    } else {
        Seq::empty()
    }
}

/// The return links along the ancestor chain of frame `i`, the frame's own
/// first.
pub open spec fn chain_links(t: CallTrie, i: int) -> Seq<u64>
    decreases i,
{
    if 0 <= i < t.nodes@.len() {
        match t.nodes@[i].parent {
            None => seq![t.nodes@[i].return_link],
            Some(p) => if p < i {
                seq![t.nodes@[i].return_link] + chain_links(t, p as int)
            } else {
                seq![t.nodes@[i].return_link]
            },
        }
    } else {
        Seq::empty()
    }
}

/// The addresses a stack trace reports, innermost first: the cursor
/// frame's last program counter, then every return link up the ancestor
/// chain.
pub open spec fn trace_addrs(t: CallTrie) -> Seq<u64> {
    seq![t.nodes@[t.cursor as int].current_pc] + chain_links(t, t.cursor as int)
}

/// One stack-trace line per address, in the order given.
pub open spec fn trace_text(cache: Map<u64, Tags>, addrs: Seq<u64>, prefix: Seq<char>) -> Seq<char>
    decreases addrs.len(),
{
    if addrs.len() == 0 {
        Seq::empty()
    } else {
        prefix + label_detail(cache, addrs.first()) + "\n"@ + trace_text(
            cache,
            addrs.drop_first(),
            prefix,
        )
    }
}

/// The profiler: the symbol resolver for the loaded image and the call
/// trie reconstructed so far.
pub struct MachineFlamegraph {
    pub resolver: SymbolResolver,
    pub trie: CallTrie,
}

impl MachineFlamegraph {
    /// The trie is well-formed and the memoized records are filed
    /// correctly.
    pub open spec fn wf(self) -> bool {
        self.trie.wf() && self.resolver.wf()
    }

    /// A fresh profiler state for an image: an empty trie rooted at the
    /// image's entry point, the image's function symbols, and an empty
    /// record cache.
    pub open spec fn fresh_for(self, program: Seq<u8>) -> bool {
        &&& self.wf()
        &&& self.trie.nodes@.len() == 1
        &&& self.trie.cursor == 0
        &&& self.trie.nodes@[0].entry_addr == image::elf_entry_of(program)
        &&& cost_sum(self.trie.nodes@) == 0
        &&& string_map_views(self.resolver.fun_map@) == fun_map_in(image::elf_syms_of(program))
        &&& self.resolver.cache@ == Map::<u64, Tags>::empty()
    }

    /// Parse an image and start a profiler over it; the profiler is built
    /// exactly when both the ELF structure and the debug sections parse.
    pub fn new(program: &[u8]) -> (r: Result<MachineFlamegraph, ImageParseError>)
        ensures
            (r is Ok) == (image::elf_parses(program@) && crate::debuginfo::debug_parses(program@)),
            r matches Ok(f) ==> f.fresh_for(program@),
    {
        let elf = match image::parse_elf(program) {
            Ok(elf) => elf,
            Err(e) => {
                return Err(e);
            },
        };
        let debug = match crate::debuginfo::parse_debug_info(program) {
            Ok(d) => d,
            Err(e) => {
                return Err(e);
            },
        };
        let resolver = SymbolResolver::new(debug, &elf);
        let trie = CallTrie::new(elf.entry);
        Ok(MachineFlamegraph { resolver, trie })
    }

    /// Replace the whole profiler state for a reloaded image; it succeeds
    /// exactly when the image parses, and on a parse failure nothing
    /// changes.
    pub fn reset(&mut self, program: &[u8]) -> (r: Result<(), ImageParseError>)
        ensures
            (r is Ok) == (image::elf_parses(program@) && crate::debuginfo::debug_parses(program@)),
            r is Ok ==> final(self).fresh_for(program@),
            r is Err ==> *final(self) == *old(self),
    {
        match MachineFlamegraph::new(program) {
            Ok(f) => {
                *self = f;
                Ok(())
            },
            Err(e) => Err(e),
        }
    }

    /// The memoized source record for an address; the trie is untouched, a
    /// record already memoized leaves the whole profiler untouched, and no
    /// address but the queried one is ever added.
    pub fn get_tag(&mut self, addr: u64) -> (r: Tags)
        requires
            old(self).wf(),
        ensures
            final(self).wf(),
            final(self).trie == old(self).trie,
            final(self).resolver.fun_map@ == old(self).resolver.fun_map@,
            r.addr == addr,
            final(self).resolver.cache@.contains_key(addr),
            tags_match(final(self).resolver.cache@[addr], r),
            forall|k: u64| #[trigger]
                old(self).resolver.cache@.contains_key(k)
                    ==> final(self).resolver.cache@.contains_key(k)
                    && final(self).resolver.cache@[k] == old(self).resolver.cache@[k],
            forall|k: u64| #[trigger]
                final(self).resolver.cache@.contains_key(k) ==> k == addr
                    || old(self).resolver.cache@.contains_key(k),
            old(self).resolver.cache@.contains_key(addr) ==> *final(self) == *old(self),
    {
        self.resolver.get_tag(addr)
    }

    /// One per-instruction hook.  The instruction's cost and program
    /// counter are attributed to the cursor frame; then, if the word is a
    /// control transfer, a jump to a known function entry pushes a child
    /// frame, and any other jump is treated as a return: the nearest
    /// ancestor whose return link matches the target is exited, and a jump
    /// matching no ancestor changes nothing.  For a return, the exited
    /// frame's entry address and entry-time return-value register are
    /// handed back.
    pub fn step(&mut self, inst_word: u64, pc: u64, regs: &[u64; 32], cycles: u64) -> (returned:
        Option<(u64, u64)>)
        requires
            old(self).wf(),
            old(self).trie.nodes@.len() < usize::MAX,
        ensures
            final(self).wf(),
            final(self).resolver == old(self).resolver,
            exists|mid: CallTrie|
                {
                    &&& #[trigger] CallTrie::cost_step(old(self).trie, mid, cycles, pc)
                    &&& match inst::spec_transfer(inst_word, pc, regs@) {
                        None => final(self).trie == mid && returned is None,
                        Some((target, link)) => {
                            if old(self).resolver.fun_map@.dom().contains(target) {
                                &&& CallTrie::call_step(
                                    mid,
                                    final(self).trie,
                                    target,
                                    link,
                                    pc,
                                    regs@,
                                )
                                &&& returned is None
                            } else {
                                &&& CallTrie::return_step(mid, final(self).trie, target, regs@)
                                &&& match mid.resolve_return(mid.cursor as int, target) {
                                    Some(fi) => returned == Some(
                                        (
                                            mid.nodes@[fi].entry_addr,
                                            mid.nodes@[fi].regs_entry@[REG_A0 as int],
                                        ),
                                    ),
                                    None => returned is None,
                                }
                            }
                        },
                    }
                },
    {
        self.trie.record_cost(cycles, pc);
        let ghost mid = self.trie;
        match inst::decode_transfer(inst_word, pc, regs) {
            None => None,
            Some((target, link)) => {
                if self.resolver.function_exists_at(target) {
                    self.trie.push_call(target, link, pc, regs);
                    None
                } else {
                    match self.trie.apply_return(target, regs) {
                        Some(f) => {
                            let fa = self.trie.nodes[f].entry_addr;
                            let ea0 = self.trie.nodes[f].regs_entry[REG_A0];
                            Some((fa, ea0))
                        },
                        None => None,
                    }
                }
            },
        }
    }

    /// Render the folded-stack flamegraph: one line per frame, pre-order,
    /// each line the semicolon-joined ancestor labels followed by the
    /// frame's accumulated cost.  Labels are memoized on the way.
    pub fn display_flamegraph(&mut self) -> (r: String)
        requires
            old(self).wf(),
        ensures
            final(self).wf(),
            final(self).trie == old(self).trie,
            forall|i: int|
                0 <= i < old(self).trie.nodes@.len() ==> final(self).resolver.cache@.contains_key(
                    #[trigger] old(self).trie.nodes@[i].entry_addr,
                ),
            r@ == flame_subtree(old(self).trie, final(self).resolver.cache@, 0, Seq::empty()),
    {
        let n = self.trie.nodes.len();
        let mut i: usize = 0;
        while i < n
            invariant
                self.wf(),
                self.trie == old(self).trie,
                n == self.trie.nodes@.len(),
                i <= n,
                forall|j: int|
                    0 <= j < i ==> self.resolver.cache@.contains_key(
                        #[trigger] self.trie.nodes@[j].entry_addr,
                    ),
            decreases n - i,
        {
            let addr = self.trie.nodes[i].entry_addr;
            self.resolver.get_tag(addr);
            i = i + 1;
        }
        let mut out = String::new();
        render_subtree(&self.trie, &self.resolver, 0, "", &mut out);
        proof {
            reveal_strlit("");
            assert(""@ =~= Seq::<char>::empty());
            assert(out@ =~= flame_subtree(self.trie, self.resolver.cache@, 0, Seq::empty()));
        }
        out
    }

    /// Render the stack trace from the cursor back to the root, printed
    /// root-first, one `file:line:function` line per frame, each preceded
    /// by `prefix`.
    pub fn display_stacktrace(&mut self, prefix: &str) -> (r: String)
        requires
            old(self).wf(),
        ensures
            final(self).wf(),
            final(self).trie == old(self).trie,
            forall|k: int|
                0 <= k < trace_addrs(old(self).trie).len()
                    ==> final(self).resolver.cache@.contains_key(
                    #[trigger] trace_addrs(old(self).trie)[k],
                ),
            r@ == trace_text(
                final(self).resolver.cache@,
                trace_addrs(old(self).trie).reverse(),
                prefix@,
            ),
    {
        let ghost t = self.trie;
        let mut addrs: Vec<u64> = Vec::new();
        addrs.push(self.trie.nodes[self.trie.cursor].current_pc);
        let mut f = self.trie.cursor;
        loop
            invariant_except_break
                self.wf(),
                self.trie == t,
                f < t.nodes@.len(),
                trace_addrs(t) == addrs@ + chain_links(t, f as int),
            ensures
                self.wf(),
                self.trie == t,
                trace_addrs(t) == addrs@,
            decreases f,
        {
            addrs.push(self.trie.nodes[f].return_link);
            match self.trie.nodes[f].parent {
                Some(p) => {
                    proof {
                        assert(addrs@ =~= (addrs@.drop_last()) + seq![t.nodes@[f as int].return_link]);
                        assert((addrs@.drop_last()) + (seq![t.nodes@[f as int].return_link]
                            + chain_links(t, p as int)) =~= addrs@ + chain_links(t, p as int));
                    }
                    f = p;
                },
                None => {
                    proof {
                        assert(chain_links(t, f as int) =~= seq![t.nodes@[f as int].return_link]);
                        assert(trace_addrs(t) =~= addrs@);
                    }
                    break;
                },
            }
        }
        let count = addrs.len();
        let mut j: usize = 0;
        while j < count
            invariant
                self.wf(),
                self.trie == t,
                count == addrs@.len(),
                trace_addrs(t) == addrs@,
                j <= count,
                forall|k: int|
                    0 <= k < j ==> self.resolver.cache@.contains_key(#[trigger] addrs@[k]),
            decreases count - j,
        {
            self.resolver.get_tag(addrs[j]);
            j = j + 1;
        }
        let ghost rev = addrs@.reverse();
        let mut out = String::new();
        let mut k: usize = 0;
        proof {
            assert(rev.skip(0) =~= rev);
        }
        while k < count
            invariant
                self.wf(),
                self.trie == t,
                count == addrs@.len(),
                rev == addrs@.reverse(),
                k <= count,
                out@ + trace_text(self.resolver.cache@, rev.skip(k as int), prefix@) == trace_text(
                    self.resolver.cache@,
                    rev,
                    prefix@,
                ),
            decreases count - k,
        {
            let ghost before = out@;
            let addr = addrs[count - 1 - k];
            proof {
                assert(rev.skip(k as int).first() == rev[k as int]);
                assert(rev[k as int] == addrs@[count - 1 - k]);
                assert(rev.skip(k as int).drop_first() =~= rev.skip(k + 1));
            }
            out.append(prefix);
            let label = match self.resolver.cache.get(&addr) {
                Some(tag) => tag.detail(),
                None => String::new(),
            };
            out.append(label.as_str());
            out.append("\n");
            proof {
                assert(out@ =~= before + (prefix@ + label_detail(self.resolver.cache@, addr)
                    + "\n"@));
                assert(before + (prefix@ + label_detail(self.resolver.cache@, addr) + "\n"@)
                    + trace_text(self.resolver.cache@, rev.skip(k + 1), prefix@) =~= before
                    + trace_text(self.resolver.cache@, rev.skip(k as int), prefix@));
            }
            k = k + 1;
        }
        proof {
            assert(rev.skip(count as int).len() == 0);
            assert(out@ + trace_text(self.resolver.cache@, rev.skip(count as int), prefix@)
                =~= out@);
        }
        out
    }
}

/// Append the folded-stack text of the subtree rooted at frame `i`.
fn render_subtree(
    trie: &CallTrie,
    resolver: &SymbolResolver,
    i: usize,
    prefix: &str,
    out: &mut String,
)
    requires
        trie.wf(),
        i < trie.nodes@.len(),
    ensures
        final(out)@ == old(out)@ + flame_subtree(*trie, resolver.cache@, i as int, prefix@),
    decreases trie.nodes@.len() - i,
{
    let ghost entry = out@;
    let addr = trie.nodes[i].entry_addr;
    let label = match resolver.cache.get(&addr) {
        Some(tag) => tag.simple(),
        None => String::new(),
    };
    let mut name = String::from_str(prefix);
    name.append(label.as_str());
    proof {
        assert(name@ =~= prefix@ + label_simple(resolver.cache@, addr));
    }
    out.append(name.as_str());
    out.append(" ");
    let cost_text = crate::tags::u64_to_dec(trie.nodes[i].accumulated_cost);
    out.append(cost_text.as_str());
    out.append("\n");
    let mut child_prefix = name.clone();
    child_prefix.append("; ");
    let ghost cp = name@ + "; "@;
    proof {
        assert(child_prefix@ =~= cp);
        assert(out@ =~= entry + (name@ + " "@ + dec_chars(
            trie.nodes@[i as int].accumulated_cost as nat,
        ) + "\n"@));
    }
    let ghost after_line = out@;
    let m = trie.nodes[i].children.len();
    let mut j: usize = 0;
    while j < m
        invariant
            trie.wf(),
            i < trie.nodes@.len(),
            m == trie.nodes@[i as int].children@.len(),
            j <= m,
            child_prefix@ == cp,
            out@ + flame_children(*trie, resolver.cache@, i as int, j as int, cp) == after_line
                + flame_children(*trie, resolver.cache@, i as int, 0, cp),
        decreases m - j,
    {
        let ghost before = out@;
        let c = trie.nodes[i].children[j];
        render_subtree(trie, resolver, c, child_prefix.as_str(), out);
        proof {
            assert(before + flame_subtree(*trie, resolver.cache@, c as int, cp) + flame_children(
                *trie,
                resolver.cache@,
                i as int,
                j + 1,
                cp,
            ) =~= before + flame_children(*trie, resolver.cache@, i as int, j as int, cp));
        }
        j = j + 1;
    }
    proof {
        assert(flame_children(*trie, resolver.cache@, i as int, m as int, cp) =~= Seq::<
            char,
        >::empty());
        assert(out@ =~= after_line + flame_children(*trie, resolver.cache@, i as int, 0, cp));
        assert(out@ =~= entry + flame_subtree(*trie, resolver.cache@, i as int, prefix@));
    }
}

} // verus!
