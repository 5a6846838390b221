use ckb_debugger::coverage::MachineCoverage;
use ckb_debugger::flamegraph::MachineFlamegraph;
use ckb_debugger::inst;
use ckb_debugger::overlap::MachineOverlap;
use ckb_debugger::vm;
use ckb_vm::instructions::insts;
use ckb_vm::instructions::{Itype, Utype};

fn elf_with_symbols(symbols: &[(&str, u64, bool)], entry: u64) -> Vec<u8> {
    let mut strtab: Vec<u8> = vec![0];
    let mut name_offsets: Vec<u32> = Vec::new();
    for (name, _, _) in symbols {
        name_offsets.push(strtab.len() as u32);
        strtab.extend_from_slice(name.as_bytes());
        strtab.push(0);
    }
    let shstrtab: &[u8] = b"\0.symtab\0.strtab\0.shstrtab\0";

    let mut symtab: Vec<u8> = vec![0; 24];
    for (i, (_, addr, is_fn)) in symbols.iter().enumerate() {
        symtab.extend_from_slice(&name_offsets[i].to_le_bytes());
        symtab.push(if *is_fn { 0x12 } else { 0x11 });
        symtab.push(0);
        symtab.extend_from_slice(&1u16.to_le_bytes());
        symtab.extend_from_slice(&addr.to_le_bytes());
        symtab.extend_from_slice(&0u64.to_le_bytes());
    }

    let symtab_off = 64u64;
    let strtab_off = symtab_off + symtab.len() as u64;
    let shstrtab_off = strtab_off + strtab.len() as u64;
    let sh_off = shstrtab_off + shstrtab.len() as u64;

    let mut out: Vec<u8> = Vec::new();
    out.extend_from_slice(&[0x7f, b'E', b'L', b'F', 2, 1, 1, 0]);
    out.extend_from_slice(&[0; 8]);
    out.extend_from_slice(&2u16.to_le_bytes());
    out.extend_from_slice(&243u16.to_le_bytes());
    out.extend_from_slice(&1u32.to_le_bytes());
    out.extend_from_slice(&entry.to_le_bytes());
    out.extend_from_slice(&0u64.to_le_bytes());
    out.extend_from_slice(&sh_off.to_le_bytes());
    out.extend_from_slice(&0u32.to_le_bytes());
    out.extend_from_slice(&64u16.to_le_bytes());
    out.extend_from_slice(&56u16.to_le_bytes());
    out.extend_from_slice(&0u16.to_le_bytes());
    out.extend_from_slice(&64u16.to_le_bytes());
    out.extend_from_slice(&4u16.to_le_bytes());
    out.extend_from_slice(&3u16.to_le_bytes());
    assert_eq!(out.len(), 64);
    out.extend_from_slice(&symtab);
    out.extend_from_slice(&strtab);
    out.extend_from_slice(shstrtab);

    let shdr = |name: u32, ty: u32, off: u64, size: u64, link: u32, info: u32, entsize: u64| {
        let mut h: Vec<u8> = Vec::new();
        h.extend_from_slice(&name.to_le_bytes());
        h.extend_from_slice(&ty.to_le_bytes());
        h.extend_from_slice(&0u64.to_le_bytes());
        h.extend_from_slice(&0u64.to_le_bytes());
        h.extend_from_slice(&off.to_le_bytes());
        h.extend_from_slice(&size.to_le_bytes());
        h.extend_from_slice(&link.to_le_bytes());
        h.extend_from_slice(&info.to_le_bytes());
        h.extend_from_slice(&1u64.to_le_bytes());
        h.extend_from_slice(&entsize.to_le_bytes());
        h
    };
    out.extend_from_slice(&shdr(0, 0, 0, 0, 0, 0, 0));
    out.extend_from_slice(&shdr(1, 2, symtab_off, symtab.len() as u64, 2, 1, 24));
    out.extend_from_slice(&shdr(9, 3, strtab_off, strtab.len() as u64, 0, 0, 0));
    out.extend_from_slice(&shdr(17, 3, shstrtab_off, shstrtab.len() as u64, 0, 0, 0));
    out
}

fn test_image() -> Vec<u8> {
    elf_with_symbols(
        &[
            ("main", 0x10000, true),
            ("helper", 0x20000, true),
            ("_sbrk", 0x30000, true),
            ("_end", 0x80000, false),
        ],
        0x10000,
    )
}

#[test]
fn parsed_image_yields_entry_and_function_symbols() {
    let image = test_image();
    let mut fg = match MachineFlamegraph::new(&image) {
        Ok(f) => f,
        Err(e) => panic!("{}", e.message),
    };
    assert_eq!(fg.trie.nodes.len(), 1);
    assert_eq!(fg.trie.nodes[0].entry_addr, 0x10000);
    assert!(fg.resolver.function_exists_at(0x20000));
    assert!(fg.resolver.function_exists_at(0x30000));
    assert!(!fg.resolver.function_exists_at(0x80000));
    assert!(!fg.resolver.function_exists_at(0x12345));
    let tag = fg.get_tag(0x20000);
    assert_eq!(tag.func().as_str(), "func_0x20000");
}

#[test]
fn overlap_detector_reads_sbrk_and_end_symbols() {
    let image = test_image();
    let detector = match MachineOverlap::from_image(&image) {
        Ok(d) => d,
        Err(e) => panic!("{}", e.message),
    };
    assert_eq!(detector.sbrk_addr, Some(0x30000));
    assert_eq!(detector.sbrk_heap, 0x80000);

    let bare = elf_with_symbols(&[("main", 0x10000, true)], 0x10000);
    let inert = MachineOverlap::from_image(&bare).unwrap();
    assert_eq!(inert.sbrk_addr, None);
    assert_eq!(inert.sbrk_heap, 0);
}

#[test]
fn malformed_image_is_rejected() {
    let garbage = vec![0u8; 16];
    assert!(MachineFlamegraph::new(&garbage).is_err());
    assert!(MachineOverlap::from_image(&garbage).is_err());
    assert!(MachineCoverage::new(&garbage).is_err());
}

#[test]
fn failed_reload_leaves_state_untouched() {
    let image = test_image();
    let garbage = vec![0u8; 16];
    let mut fg = MachineFlamegraph::new(&image).unwrap();
    let regs = [0u64; 32];
    fg.trie.push_call(0x20000, 0x10008, 0x10004, &regs);
    assert!(fg.reset(&garbage).is_err());
    assert_eq!(fg.trie.nodes.len(), 2);
    assert_eq!(fg.trie.cursor, 1);

    let mut cov = MachineCoverage::new(&image).unwrap();
    cov.record(0x1000, Some((String::from("a.c"), 2)));
    assert!(cov.reset(&garbage).is_err());
    assert_eq!(cov.results.len(), 1);
    assert_eq!(cov.results[0].1, vec![0, 1]);
}

#[test]
fn decoded_transfer_matches_the_external_decoder_fields() {
    // A direct jump-and-link with a positive immediate.
    let jal = Utype::new_s(insts::OP_JAL, 1, 0x800);
    let word = ckb_vm::instructions::set_instruction_length_n(jal.0, 4);
    assert_eq!(inst::extract_opcode(word), ckb_vm::instructions::extract_opcode(word));
    assert_eq!(inst::instruction_length(word), ckb_vm::instructions::instruction_length(word) as u64);
    assert_eq!(inst::imm_u(word), Utype(word).immediate_s() as u64);
    let regs = [0u64; 32];
    let transfer = inst::decode_transfer(word, 0x10000, &regs);
    assert_eq!(transfer, Some((0x10800, 0x10004)));

    // A negative immediate sign-extends.
    let jal_back = Utype::new_s(insts::OP_JAL, 1, -0x10);
    let word = ckb_vm::instructions::set_instruction_length_n(jal_back.0, 4);
    assert_eq!(inst::imm_u(word), Utype(word).immediate_s() as u64);
    let transfer = inst::decode_transfer(word, 0x10000, &regs);
    assert_eq!(transfer, Some((0xfff0, 0x10004)));

    // A register-indirect jump adds the register and clears the low bit.
    let jalr = Itype::new_s(insts::OP_JALR_VERSION1, 0, 5, -4);
    let word = ckb_vm::instructions::set_instruction_length_n(jalr.0, 2);
    let mut regs = [0u64; 32];
    regs[5] = 0x20009;
    assert_eq!(inst::imm_i(word), Itype(word).immediate_s() as u64);
    let transfer = inst::decode_transfer(word, 0x10000, &regs);
    assert_eq!(transfer, Some((0x20004, 0x10002)));

    // An ordinary instruction transfers no control.
    let add = ckb_vm::instructions::Rtype::new(insts::OP_ADD, 1, 2, 3);
    let word = ckb_vm::instructions::set_instruction_length_n(add.0, 4);
    assert_eq!(inst::decode_transfer(word, 0x10000, &regs), None);
}

#[test]
fn estimated_cost_follows_the_external_cost_model() {
    let jal = Utype::new_s(insts::OP_JAL, 1, 0x800);
    let word = ckb_vm::instructions::set_instruction_length_n(jal.0, 4);
    assert_eq!(vm::estimate_cycles(word), ckb_vm::cost_model::estimate_cycles(word));
    let add = ckb_vm::instructions::Rtype::new(insts::OP_ADD, 1, 2, 3);
    let word = ckb_vm::instructions::set_instruction_length_n(add.0, 4);
    assert_eq!(vm::estimate_cycles(word), ckb_vm::cost_model::estimate_cycles(word));
}

#[test]
fn profiler_step_reconstructs_calls_and_returns() {
    let image = test_image();
    let mut fg = MachineFlamegraph::new(&image).unwrap();
    let mut regs = [0u64; 32];
    regs[10] = 0x100;

    // jal helper: the target is a known function, so a frame is pushed.
    let jal = Utype::new_s(insts::OP_JAL, 1, 0x10000);
    let call_word = ckb_vm::instructions::set_instruction_length_n(jal.0, 4);
    let outcome = fg.step(call_word, 0x10000, &regs, 3);
    assert_eq!(outcome, None);
    assert_eq!(fg.trie.nodes.len(), 2);
    assert_eq!(fg.trie.cursor, 1);
    assert_eq!(fg.trie.nodes[1].entry_addr, 0x20000);
    assert_eq!(fg.trie.nodes[1].return_link, 0x10004);
    assert_eq!(fg.trie.nodes[1].regs_entry[10], 0x100);

    // An ordinary instruction only charges the current frame.
    let add = ckb_vm::instructions::Rtype::new(insts::OP_ADD, 1, 2, 3);
    let add_word = ckb_vm::instructions::set_instruction_length_n(add.0, 4);
    fg.step(add_word, 0x20000, &regs, 5);
    assert_eq!(fg.trie.nodes[1].accumulated_cost, 5);

    // ret: a register-indirect jump to the return link exits the frame and
    // reports its entry address and entry-time return-value register.
    let mut regs_at_ret = [0u64; 32];
    regs_at_ret[1] = 0x10004;
    regs_at_ret[10] = 0x999;
    let ret = Itype::new_s(insts::OP_JALR_VERSION1, 0, 1, 0);
    let ret_word = ckb_vm::instructions::set_instruction_length_n(ret.0, 2);
    let outcome = fg.step(ret_word, 0x20008, &regs_at_ret, 2);
    assert_eq!(outcome, Some((0x20000, 0x100)));
    assert_eq!(fg.trie.cursor, 0);
    assert_eq!(fg.trie.nodes[1].regs_exit[10], 0x999);

    let total: u64 = fg.trie.nodes.iter().map(|n| n.accumulated_cost).sum();
    assert_eq!(total, 3 + 5 + 2);
}

#[test]
fn flamegraph_and_stacktrace_render_folded_paths() {
    let image = test_image();
    let mut fg = MachineFlamegraph::new(&image).unwrap();
    let regs = [0u64; 32];
    fg.trie.record_cost(7, 0x10000);
    fg.trie.push_call(0x20000, 0x10008, 0x10004, &regs);
    fg.trie.record_cost(9, 0x20000);
    let text = fg.display_flamegraph();
    assert_eq!(
        text.as_str(),
        "??:func_0x10000 7\n??:func_0x10000; ??:func_0x20000 9\n"
    );
    let trace = fg.display_stacktrace("  ");
    // Root first: the root's zero return link, the child's return link,
    // then the cursor frame's last program counter.
    assert_eq!(trace.as_str(), "  ??:??:??\n  ??:??:??\n  ??:??:??\n");
}

#[test]
fn flamegraph_renders_siblings_in_creation_order() {
    let image = test_image();
    let mut fg = MachineFlamegraph::new(&image).unwrap();
    let regs = [0u64; 32];
    // Two calls from the root, each returned from, leave two sibling
    // frames; the report walks them pre-order, in creation order.
    fg.trie.push_call(0x20000, 0x10008, 0x10004, &regs);
    fg.trie.apply_return(0x10008, &regs);
    fg.trie.push_call(0x30000, 0x10010, 0x1000c, &regs);
    fg.trie.apply_return(0x10010, &regs);
    let text = fg.display_flamegraph();
    assert_eq!(
        text.as_str(),
        "??:func_0x10000 0\n??:func_0x10000; ??:func_0x20000 0\n??:func_0x10000; ??:func_0x30000 0\n"
    );
}

#[test]
fn fresh_trie_renders_one_zero_cost_line() {
    let image = test_image();
    let mut fg = MachineFlamegraph::new(&image).unwrap();
    assert_eq!(fg.display_flamegraph().as_str(), "??:func_0x10000 0\n");
    assert_eq!(fg.display_stacktrace("").as_str(), "??:??:??\n??:??:??\n");
}

#[test]
fn reload_resets_trie_but_not_coverage() {
    let image = test_image();
    let mut fg = MachineFlamegraph::new(&image).unwrap();
    let regs = [0u64; 32];
    fg.trie.push_call(0x20000, 0x10008, 0x10004, &regs);
    fg.trie.record_cost(9, 0x20000);
    assert_eq!(fg.trie.nodes.len(), 2);

    let mut cov = MachineCoverage::new(&image).unwrap();
    cov.record(0x1000, Some((String::from("a.c"), 2)));

    let second = elf_with_symbols(&[("other", 0x40000, true)], 0x40000);
    fg.reset(&second).unwrap();
    cov.reset(&second).unwrap();

    // The trie starts over from a single fresh root for the new image...
    assert_eq!(fg.trie.nodes.len(), 1);
    assert_eq!(fg.trie.cursor, 0);
    assert_eq!(fg.trie.nodes[0].entry_addr, 0x40000);
    assert_eq!(fg.trie.nodes[0].accumulated_cost, 0);
    assert!(fg.resolver.function_exists_at(0x40000));
    assert!(!fg.resolver.function_exists_at(0x20000));
    // ...while the recorded coverage hits survive the reload.
    assert_eq!(cov.results.len(), 1);
    assert_eq!(cov.results[0].0.as_str(), "a.c");
    assert_eq!(cov.results[0].1, vec![0, 1]);
}

#[test]
fn fused_operations_on_oldest_version_are_rejected() {
    // Fused macro-operations cannot run on the oldest machine version; the
    // analyzer rejects the combination before any stepping.
    let machine = vm::vm_new(ckb_vm::ISA_IMC | ckb_vm::ISA_MOP, ckb_vm::machine::VERSION0, 1000);
    let image = test_image();
    let fg = MachineFlamegraph::new(&image).unwrap();
    let cov = ckb_debugger::coverage::MachineCoverage::new(&image).unwrap();
    let ov = MachineOverlap::from_image(&image).unwrap();
    let log = ckb_debugger::steplog::MachineStepLog::new("x.steplog");
    let mut analyzer = ckb_debugger::driver::MachineAnalyzer::new(machine, cov, fg, ov, log);
    assert!(analyzer.run(10).is_err());
}

#[test]
fn machine_runs_under_budget_and_halts() {
    // A machine with no loaded program faults on its first fetch; the
    // analyzer surfaces the machine's error and keeps its state.
    let machine = vm::vm_new(ckb_vm::ISA_IMC, 1, 200_0000);
    let image = test_image();
    let fg = MachineFlamegraph::new(&image).unwrap();
    let cov = ckb_debugger::coverage::MachineCoverage::new(&image).unwrap();
    let ov = MachineOverlap::from_image(&image).unwrap();
    let log = ckb_debugger::steplog::MachineStepLog::new("x.steplog");
    let mut analyzer = ckb_debugger::driver::MachineAnalyzer::new(machine, cov, fg, ov, log);
    analyzer.enable_flamegraph = 1;
    let result = analyzer.run(1000);
    assert!(result.is_err());
    assert_eq!(analyzer.flamegraph.trie.nodes.len(), 1);
}
