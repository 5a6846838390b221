use ckb_debugger::coverage::MachineCoverage;
use ckb_debugger::decode_text;
use ckb_debugger::misc;
use ckb_debugger::misc::{FileOpKind, FileOperation, FileWriter, Random, Timestamp};
use ckb_debugger::overlap::MachineOverlap;
use ckb_debugger::resolver::SymbolResolver;
use ckb_debugger::steplog::MachineStepLog;
use ckb_debugger::tags::{u64_to_dec, u64_to_hex, Tags};

#[test]
fn decimal_and_hex_rendering() {
    assert_eq!(u64_to_dec(0).as_str(), "0");
    assert_eq!(u64_to_dec(9).as_str(), "9");
    assert_eq!(u64_to_dec(1361).as_str(), "1361");
    assert_eq!(u64_to_dec(u64::MAX).as_str(), "18446744073709551615");
    assert_eq!(u64_to_hex(0).as_str(), "0");
    assert_eq!(u64_to_hex(0x10000).as_str(), "10000");
    assert_eq!(u64_to_hex(0xdead_beef).as_str(), "deadbeef");
    assert_eq!(u64_to_hex(u64::MAX).as_str(), "ffffffffffffffff");
}

#[test]
fn tag_labels_with_sentinels() {
    let tag = Tags::new(0x2f00);
    assert_eq!(tag.func().as_str(), "func_0x2f00");
    assert_eq!(tag.simple().as_str(), "??:func_0x2f00");
    assert_eq!(tag.detail().as_str(), "??:??:??");
}

#[test]
fn tag_labels_with_resolved_fields() {
    let mut tag = Tags::new(0x1000);
    tag.file = String::from("main.c");
    tag.line = 17;
    tag.func = String::from("main");
    assert_eq!(tag.func().as_str(), "main");
    assert_eq!(tag.simple().as_str(), "main.c:main");
    assert_eq!(tag.detail().as_str(), "main.c:17:main");
}

#[test]
fn tag_combination_from_lookup_results() {
    let t = SymbolResolver::build_tag(
        0x10,
        Some((String::from("m.c"), Some(7))),
        Some(String::from("f")),
    );
    assert_eq!(t.file.as_str(), "m.c");
    assert_eq!(t.line, 7);
    assert_eq!(t.func.as_str(), "f");
    let t = SymbolResolver::build_tag(0x10, Some((String::from("m.c"), None)), None);
    assert_eq!(t.line, 0xffffffff);
    assert_eq!(t.func.as_str(), "??");
    let t = SymbolResolver::build_tag(0x10, None, None);
    assert_eq!(t.file.as_str(), "??");
}

#[test]
fn vm_labels_join_generation() {
    assert_eq!(misc::collector_key_str(3, 0).as_str(), "3");
    assert_eq!(misc::collector_key_str(3, 2).as_str(), "3/2");
}

#[test]
fn overlap_boundary_is_exclusive() {
    // A stack pointer equal to the mark is not an overlap; one byte below
    // is, and the incident names both addresses.
    let mut detector = MachineOverlap::new(Some(0x5000), 0x8000);
    assert!(detector.step(0x8000, None, 0).is_ok());
    let incident = detector.step(0x7fff, None, 0).unwrap_err();
    assert_eq!(incident.sp, 0x7fff);
    assert_eq!(incident.heap, 0x8000);
}

#[test]
fn overlap_mark_moves_by_requested_delta() {
    let mut detector = MachineOverlap::new(Some(0x5000), 0x8000);
    // Return from the heap-growth call: it was entered asking for 0x100
    // bytes and hands the old mark back in the return-value register.
    detector.step(0x9000, Some((0x5000, 0x100)), 0x8000).unwrap();
    assert_eq!(detector.sbrk_heap, 0x8100);
    // A negative delta, in two's complement, shrinks the mark.
    let minus_0x80 = (-0x80i64) as u64;
    detector.step(0x9000, Some((0x5000, minus_0x80)), 0x8100).unwrap();
    assert_eq!(detector.sbrk_heap, 0x8080);
    // Returns from other functions leave the mark alone.
    detector.step(0x9000, Some((0x1234, 0x100)), 0x8080).unwrap();
    assert_eq!(detector.sbrk_heap, 0x8080);
}

#[test]
fn overlap_without_symbol_is_inert() {
    let mut detector = MachineOverlap::new(None, 0x8000);
    assert!(detector.step(0, None, 0).is_ok());
    assert!(detector.step(0, Some((0x5000, 0x100)), 0).is_ok());
    assert_eq!(detector.sbrk_heap, 0x8000);
}

#[test]
fn coverage_marks_lines_and_never_unmarks() {
    let mut cov = match MachineCoverage::new(&minimal_elf()) {
        Ok(c) => c,
        Err(e) => panic!("{}", e.message),
    };
    cov.record(0x1000, Some((String::from("a.c"), 3)));
    cov.record(0x1004, Some((String::from("a.c"), 1)));
    cov.record(0x1008, Some((String::from("b.c"), 2)));
    // Marking line three again, and other lines, leaves earlier hits set.
    cov.record(0x100c, Some((String::from("a.c"), 3)));
    cov.record(0x1010, None);
    assert_eq!(cov.results.len(), 2);
    assert_eq!(cov.results[0].0.as_str(), "a.c");
    assert_eq!(cov.results[0].1, vec![1, 0, 1]);
    assert_eq!(cov.results[1].0.as_str(), "b.c");
    assert_eq!(cov.results[1].1, vec![0, 1]);
}

#[test]
fn lcov_report_format_and_missing_file_omitted() {
    let mut cov = match MachineCoverage::new(&minimal_elf()) {
        Ok(c) => c,
        Err(e) => panic!("{}", e.message),
    };
    cov.record(0x1000, Some((String::from("a.c"), 1)));
    cov.record(0x1004, Some((String::from("a.c"), 3)));
    cov.record(0x1008, Some((String::from("gone.c"), 2)));
    // `a.c` has four lines on disk; `gone.c` cannot be found, so its block
    // is silently omitted rather than failing the render.
    let counts = vec![Some(4usize), None];
    let report = cov.display_lcov(&counts);
    assert_eq!(
        report.as_str(),
        "SF:a.c\nDA:1,1\nDA:2,0\nDA:3,1\nDA:4,0\nLH:4\nLF:2\nend_of_record\n"
    );
}

#[test]
fn lcov_mask_longer_than_file_keeps_all_lines() {
    let mut cov = match MachineCoverage::new(&minimal_elf()) {
        Ok(c) => c,
        Err(e) => panic!("{}", e.message),
    };
    cov.record(0x1000, Some((String::from("a.c"), 5)));
    let counts = vec![Some(2usize)];
    let report = cov.display_lcov(&counts);
    assert_eq!(
        report.as_str(),
        "SF:a.c\nDA:1,0\nDA:2,0\nDA:3,0\nDA:4,0\nDA:5,1\nLH:2\nLF:1\nend_of_record\n"
    );
}

#[test]
fn instruction_report_layout() {
    // The report for the branch instruction 0x00054363 under the base
    // integer instruction set.
    let lines = decode_text::instruction_decode_text("blt a0,zero,6", "I", 0x00054363);
    assert_eq!(lines.len(), 4);
    assert_eq!(lines[0].as_str(), "       Assembly = blt a0,zero,6");
    assert_eq!(lines[1].as_str(), "         Binary = 00000000000001010100001101100011");
    assert_eq!(lines[2].as_str(), "    Hexadecimal = 00054363");
    assert_eq!(lines[3].as_str(), "Instruction set = I");
    // A compressed instruction is shown at half width.
    let lines = decode_text::instruction_decode_text("addi sp,sp,-32", "C", 0x1101);
    assert_eq!(lines[1].as_str(), "         Binary = 0001000100000001");
    assert_eq!(lines[2].as_str(), "    Hexadecimal = 1101");
}

#[test]
fn steplog_accumulates_snapshots() {
    let mut log = MachineStepLog::new("run.steplog");
    assert_eq!(log.name.as_str(), "run.steplog");
    log.step("pc=0x1000\n");
    log.step("pc=0x1004\n");
    assert_eq!(log.contents(), "pc=0x1000\npc=0x1004\n");
}

#[test]
fn syscall_handlers_claim_their_numbers() {
    assert!(Timestamp::new().handles(9001));
    assert!(!Timestamp::new().handles(9002));
    assert!(Random::new().handles(9002));
    assert!(!Random::new().handles(9001));
    assert!(FileWriter::new().handles(9013));
    assert!(!FileWriter::new().handles(9012));
    let ops = FileOperation::new();
    assert!(matches!(ops.kind_of(9003), Some(FileOpKind::Fopen)));
    assert!(matches!(ops.kind_of(9005), Some(FileOpKind::Fread)));
    assert!(matches!(ops.kind_of(9012), Some(FileOpKind::Fwrite)));
    assert!(matches!(ops.kind_of(9002), None));
    assert!(matches!(ops.kind_of(9013), None));
}

#[test]
fn transfer_size_rejects_oversized_and_overflowing_requests() {
    assert_eq!(misc::transfer_size(4, 100), Some(400));
    assert_eq!(misc::transfer_size(1, 3145728), Some(3145728));
    assert_eq!(misc::transfer_size(1, 3145729), None);
    assert_eq!(misc::transfer_size(u64::MAX, 2), None);
}

#[test]
fn resource_loader_messages() {
    assert_eq!(
        misc::missing_header_message("f0e1").as_str(),
        "Header f0e1 is missing!"
    );
    assert_eq!(
        misc::missing_cell_message("OutPoint(0x01)").as_str(),
        "Cell: OutPoint(0x01) is missing!"
    );
}

/// A minimal ELF image: header only is not enough for the parsers, so this
/// mirrors the richer builder used by the image tests — here only the
/// debug-info side matters, and it is empty.
fn minimal_elf() -> Vec<u8> {
    elf_with_symbols(&[("main", 0x10000, true)], 0x10000)
}

fn elf_with_symbols(symbols: &[(&str, u64, bool)], entry: u64) -> Vec<u8> {
    let mut strtab: Vec<u8> = vec![0];
    let mut name_offsets: Vec<u32> = Vec::new();
    for (name, _, _) in symbols {
        name_offsets.push(strtab.len() as u32);
        strtab.extend_from_slice(name.as_bytes());
        strtab.push(0);
    }
    let shstrtab: &[u8] = b"\0.symtab\0.strtab\0.shstrtab\0";

    let mut symtab: Vec<u8> = vec![0; 24];
    for (i, (_, addr, is_fn)) in symbols.iter().enumerate() {
        symtab.extend_from_slice(&name_offsets[i].to_le_bytes());
        symtab.push(if *is_fn { 0x12 } else { 0x11 });
        symtab.push(0);
        symtab.extend_from_slice(&1u16.to_le_bytes());
        symtab.extend_from_slice(&addr.to_le_bytes());
        symtab.extend_from_slice(&0u64.to_le_bytes());
    }

    let symtab_off = 64u64;
    let strtab_off = symtab_off + symtab.len() as u64;
    let shstrtab_off = strtab_off + strtab.len() as u64;
    let sh_off = shstrtab_off + shstrtab.len() as u64;

    let mut out: Vec<u8> = Vec::new();
    out.extend_from_slice(&[0x7f, b'E', b'L', b'F', 2, 1, 1, 0]);
    out.extend_from_slice(&[0; 8]);
    out.extend_from_slice(&2u16.to_le_bytes());
    out.extend_from_slice(&243u16.to_le_bytes());
    out.extend_from_slice(&1u32.to_le_bytes());
    out.extend_from_slice(&entry.to_le_bytes());
    out.extend_from_slice(&0u64.to_le_bytes());
    out.extend_from_slice(&sh_off.to_le_bytes());
    out.extend_from_slice(&0u32.to_le_bytes());
    out.extend_from_slice(&64u16.to_le_bytes());
    out.extend_from_slice(&56u16.to_le_bytes());
    out.extend_from_slice(&0u16.to_le_bytes());
    out.extend_from_slice(&64u16.to_le_bytes());
    out.extend_from_slice(&4u16.to_le_bytes());
    out.extend_from_slice(&3u16.to_le_bytes());
    assert_eq!(out.len(), 64);
    out.extend_from_slice(&symtab);
    out.extend_from_slice(&strtab);
    out.extend_from_slice(shstrtab);

    let shdr = |name: u32, ty: u32, off: u64, size: u64, link: u32, info: u32, entsize: u64| {
        let mut h: Vec<u8> = Vec::new();
        h.extend_from_slice(&name.to_le_bytes());
        h.extend_from_slice(&ty.to_le_bytes());
        h.extend_from_slice(&0u64.to_le_bytes());
        h.extend_from_slice(&0u64.to_le_bytes());
        h.extend_from_slice(&off.to_le_bytes());
        h.extend_from_slice(&size.to_le_bytes());
        h.extend_from_slice(&link.to_le_bytes());
        h.extend_from_slice(&info.to_le_bytes());
        h.extend_from_slice(&1u64.to_le_bytes());
        h.extend_from_slice(&entsize.to_le_bytes());
        h
    };
    out.extend_from_slice(&shdr(0, 0, 0, 0, 0, 0, 0));
    out.extend_from_slice(&shdr(1, 2, symtab_off, symtab.len() as u64, 2, 1, 24));
    out.extend_from_slice(&shdr(9, 3, strtab_off, strtab.len() as u64, 0, 0, 0));
    out.extend_from_slice(&shdr(17, 3, shstrtab_off, shstrtab.len() as u64, 0, 0, 0));
    out
}
