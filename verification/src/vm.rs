//! The external virtual machine, specified at its interface boundary: the
//! concrete machine type the analyzer drives, its decoder, and trusted
//! wrappers for the accessors, the stepper and the cost model.  Nothing
//! here is verified; everything the analyzer concludes from these values is.

use vstd::prelude::*;
use ckb_vm::CoreMachine;
use ckb_vm::SupportMachine;

verus! {

#[verifier::external_type_specification]
#[verifier::external_body]
pub struct ExDecoder(ckb_vm::decoder::Decoder);

#[verifier::external_type_specification]
#[verifier::external_body]
pub struct ExVmError(ckb_vm::Error);

/// The concrete machine the analyzer drives: the external VM's default
/// machine over sixty-four bit registers and flat, write-xor-execute
/// memory.  The machine value itself is opaque here; everything read from
/// it comes through the wrappers below as plain values.
#[verifier::external_body]
pub struct VmMachine {
    inner: ckb_vm::DefaultMachine<
        ckb_vm::DefaultCoreMachine<u64, ckb_vm::WXorXMemory<ckb_vm::FlatMemory<u64>>>,
    >,
}

/// Relies on `DefaultCoreMachine::new` and `DefaultMachineBuilder`: a
/// machine with the given instruction-set flags, version and cycle budget,
/// charging instructions by the external cost model.
#[verifier::external_body]
pub fn vm_new(isa: u8, version: u32, max_cycles: u64) -> VmMachine {
    let core = ckb_vm::DefaultCoreMachine::<u64, ckb_vm::WXorXMemory<ckb_vm::FlatMemory<u64>>>::new(
        isa,
        version,
        max_cycles,
    );
    let builder = ckb_vm::DefaultMachineBuilder::new(core)
        .instruction_cycle_func(Box::new(ckb_vm::cost_model::estimate_cycles));
    VmMachine { inner: builder.build() }
}

/// Relies on `DefaultMachine::load_program`: load an executable image and
/// its arguments, yielding the bytes of stack used.
#[verifier::external_body]
pub fn vm_load_program(
    m: &mut VmMachine,
    program: &[u8],
    args: &Vec<Vec<u8>>,
) -> Result<u64, ckb_vm::Error> {
    let program = ckb_vm::Bytes::copy_from_slice(program);
    let args: Vec<ckb_vm::Bytes> = args.iter().map(|a| ckb_vm::Bytes::copy_from_slice(a)).collect();
    m.inner.load_program(&program, args.into_iter().map(Ok))
}

/// Relies on `SupportMachine::cycles`: the cycles consumed so far.
#[verifier::external_body]
pub fn vm_cycles(m: &VmMachine) -> u64 {
    m.inner.cycles()
}

/// The fused-macro-operation bit of the machine's instruction-set flags.
pub const ISA_MOP: u8 = 0b10;

/// The oldest machine version, which cannot run fused macro-operations.
pub const VERSION0: u32 = 0;

/// What the external cost model charges for one decoded instruction word:
/// a function of the word alone.
pub uninterp spec fn inst_cost(inst: u64) -> u64;

/// Relies on `ckb_vm::cost_model::estimate_cycles`: the cost estimate
/// depends only on the instruction word.
#[verifier::external_body]
pub fn estimate_cycles(inst: u64) -> (r: u64)
    ensures
        r == inst_cost(inst),
{
    ckb_vm::cost_model::estimate_cycles(inst)
}

/// Relies on `CoreMachine::pc` (the register type is plain `u64`).
#[verifier::external_body]
pub fn vm_pc(m: &VmMachine) -> u64 {
    *m.inner.pc()
}

/// Relies on `CoreMachine::registers`: the register file always holds
/// exactly thirty-two registers.
#[verifier::external_body]
pub fn vm_registers(m: &VmMachine) -> [u64; 32] {
    let mut out = [0u64; 32];
    out.copy_from_slice(m.inner.registers());
    out
}

/// Relies on `SupportMachine::code`: the loaded program image's bytes.
#[verifier::external_body]
pub fn vm_code(m: &VmMachine) -> Vec<u8> {
    m.inner.code().to_vec()
}

/// Relies on `CoreMachine::isa`.
#[verifier::external_body]
pub fn vm_isa(m: &VmMachine) -> u8 {
    m.inner.isa()
}

/// Relies on `CoreMachine::version`.
#[verifier::external_body]
pub fn vm_version(m: &VmMachine) -> u32 {
    m.inner.version()
}

/// Relies on `SupportMachine::running`.
#[verifier::external_body]
pub fn vm_running(m: &VmMachine) -> bool {
    m.inner.running()
}

/// Relies on `SupportMachine::set_running`.
#[verifier::external_body]
pub fn vm_set_running(m: &mut VmMachine, running: bool) {
    m.inner.set_running(running);
}

/// Relies on `SupportMachine::reset_signal`: reads the reload signal the
/// running program may have raised, clearing it.
#[verifier::external_body]
pub fn vm_reset_signal(m: &mut VmMachine) -> bool {
    m.inner.reset_signal()
}

/// Relies on `DefaultMachine::exit_code`.
#[verifier::external_body]
pub fn vm_exit_code(m: &VmMachine) -> i8 {
    m.inner.exit_code()
}

/// Relies on `DefaultMachine::step`: decode, charge and execute one
/// instruction, syscalls included.
#[verifier::external_body]
pub fn vm_step(m: &mut VmMachine, d: &mut ckb_vm::decoder::Decoder) -> Result<(), ckb_vm::Error> {
    m.inner.step(d)
}

/// Relies on `Decoder::decode`: the decoded instruction word at `pc`,
/// read from the machine's memory.
#[verifier::external_body]
pub fn vm_decode(
    m: &mut VmMachine,
    d: &mut ckb_vm::decoder::Decoder,
    pc: u64,
) -> Result<u64, ckb_vm::Error> {
    d.decode(m.inner.memory_mut(), pc)
}

/// Relies on `ckb_vm::decoder::build_decoder`.
#[verifier::external_body]
pub fn vm_build_decoder(isa: u8, version: u32) -> ckb_vm::decoder::Decoder {
    ckb_vm::decoder::build_decoder::<u64>(isa, version)
}

/// Relies on `Decoder::reset_instructions_cache`: drop decoded words
/// cached for the replaced program image.
#[verifier::external_body]
pub fn decoder_reset_cache(d: &mut ckb_vm::decoder::Decoder) {
    d.reset_instructions_cache();
}

/// Relies on the `Display` implementation of the external machine: its
/// full state — program counter, registers, cycles — as text.
#[verifier::external_body]
pub fn vm_state_text(m: &VmMachine) -> String {
    format!("{}", m.inner)
}

/// Relies on `ckb_vm::Error::External` to report a stack/heap overlap
/// with both addresses.
#[verifier::external_body]
pub fn overlap_error(sp: u64, heap: u64) -> ckb_vm::Error {
    ckb_vm::Error::External(format!("Heap and stack overlapping sp={} heap={}", sp, heap))
}

/// Relies on `ckb_vm::Error::InvalidVersion`.
#[verifier::external_body]
pub fn invalid_version_error() -> ckb_vm::Error {
    ckb_vm::Error::InvalidVersion
}

/// Relies on `ckb_vm::Error::External` to carry a message of the
/// analyzer's own.
#[verifier::external_body]
pub fn external_error(message: &str) -> ckb_vm::Error {
    ckb_vm::Error::External(message.to_string())
}

} // verus!
