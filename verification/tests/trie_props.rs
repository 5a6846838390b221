use ckb_debugger::trie::CallTrie;

fn regs_with(idx: usize, value: u64) -> [u64; 32] {
    let mut regs = [0u64; 32];
    regs[idx] = value;
    regs
}

#[test]
fn no_control_transfer_yields_single_node_with_total_cost() {
    let mut trie = CallTrie::new(0x10000);
    let costs = [5u64, 7, 11, 13];
    let mut total = 0u64;
    for (i, c) in costs.iter().enumerate() {
        trie.record_cost(*c, 0x10000 + 4 * i as u64);
        total += *c;
    }
    assert_eq!(trie.nodes.len(), 1);
    assert_eq!(trie.cursor, 0);
    assert_eq!(trie.nodes[0].accumulated_cost, total);
    assert_eq!(trie.nodes[0].current_pc, 0x1000c);
}

#[test]
fn call_then_return_builds_root_child_with_exit_snapshot() {
    let mut trie = CallTrie::new(0x10000);
    let entry_regs = regs_with(10, 42);
    trie.record_cost(3, 0x10004);
    trie.push_call(0x20000, 0x10008, 0x10004, &entry_regs);
    assert_eq!(trie.nodes.len(), 2);
    assert_eq!(trie.cursor, 1);
    assert_eq!(trie.nodes[1].entry_addr, 0x20000);
    assert_eq!(trie.nodes[1].return_link, 0x10008);
    assert_eq!(trie.nodes[1].parent, Some(0));
    assert_eq!(trie.nodes[1].regs_entry[10], 42);
    trie.record_cost(9, 0x20000);
    let exit_regs = regs_with(10, 77);
    let matched = trie.apply_return(0x10008, &exit_regs);
    assert_eq!(matched, Some(1));
    assert_eq!(trie.cursor, 0);
    assert_eq!(trie.nodes[1].regs_exit[10], 77);
    assert_eq!(trie.nodes[0].accumulated_cost, 3);
    assert_eq!(trie.nodes[1].accumulated_cost, 9);
}

#[test]
fn nested_calls_and_matching_returns_restore_cursor() {
    let mut trie = CallTrie::new(0x10000);
    let regs = [0u64; 32];
    let links = [0x10008u64, 0x20008, 0x30008];
    trie.push_call(0x20000, links[0], 0x10004, &regs);
    trie.push_call(0x30000, links[1], 0x20004, &regs);
    trie.push_call(0x40000, links[2], 0x30004, &regs);
    assert_eq!(trie.cursor, 3);
    for link in links.iter().rev() {
        trie.apply_return(*link, &regs);
    }
    assert_eq!(trie.cursor, 0);
    assert_eq!(trie.nodes.len(), 4);
}

#[test]
fn unmatched_return_is_a_no_op() {
    let mut trie = CallTrie::new(0x10000);
    let regs = [0u64; 32];
    trie.push_call(0x20000, 0x10008, 0x10004, &regs);
    let before_cursor = trie.cursor;
    let before_len = trie.nodes.len();
    let matched = trie.apply_return(0xdead_beef, &regs);
    assert_eq!(matched, None);
    assert_eq!(trie.cursor, before_cursor);
    assert_eq!(trie.nodes.len(), before_len);
    assert_eq!(trie.nodes[1].regs_exit, [0u64; 32]);
}

#[test]
fn return_to_deeper_ancestor_pops_past_tail_calls() {
    let mut trie = CallTrie::new(0x10000);
    let regs = [0u64; 32];
    trie.push_call(0x20000, 0x10008, 0x10004, &regs);
    trie.push_call(0x30000, 0x20008, 0x20004, &regs);
    // A return matching the outermost call, as tail-call-optimized code
    // produces, exits that frame and lands at its parent.
    let matched = trie.apply_return(0x10008, &regs);
    assert_eq!(matched, Some(1));
    assert_eq!(trie.cursor, 0);
}

#[test]
fn cost_counter_saturates_instead_of_wrapping() {
    let mut trie = CallTrie::new(0x10000);
    trie.record_cost(u64::MAX - 1, 0x10000);
    trie.record_cost(5, 0x10004);
    assert_eq!(trie.nodes[0].accumulated_cost, u64::MAX);
}

#[test]
fn cost_is_attributed_to_the_cursor_frame_only() {
    let mut trie = CallTrie::new(0x10000);
    let regs = [0u64; 32];
    trie.record_cost(2, 0x10000);
    trie.push_call(0x20000, 0x10008, 0x10004, &regs);
    trie.record_cost(10, 0x20000);
    trie.apply_return(0x10008, &regs);
    trie.record_cost(4, 0x10008);
    assert_eq!(trie.nodes[0].accumulated_cost, 6);
    assert_eq!(trie.nodes[1].accumulated_cost, 10);
    let total: u64 = trie.nodes.iter().map(|n| n.accumulated_cost).sum();
    assert_eq!(total, 16);
}
