//! The analyzer driver: owns the external machine and one instance of each
//! instrumentation component, multiplexes them per instruction under
//! independent enable flags, and handles program-image reloads.

use crate::coverage::{is_hit, MachineCoverage};
use crate::flamegraph::MachineFlamegraph;
use crate::overlap::MachineOverlap;
use crate::steplog::MachineStepLog;
use crate::vm;
use crate::vm::VmMachine;
use vstd::prelude::*;

verus! {

/// How a bounded run ended: the machine halted with an exit code, or the
/// step budget ran out first with the machine still running.
pub enum RunOutcome {
    Halted(i8),
    BudgetSpent,
}

/// The analyzer: the machine plus one instance of each component, each
/// gated by its own flag.
pub struct MachineAnalyzer {
    pub enable_coverage: u8,
    pub enable_flamegraph: u8,
    pub enable_overlap: u8,
    pub enable_steplog: u8,
    pub machine: VmMachine,
    pub coverage: MachineCoverage,
    pub flamegraph: MachineFlamegraph,
    pub overlap: MachineOverlap,
    pub steplog: MachineStepLog,
}

impl MachineAnalyzer {
    /// The components' own invariants.
    pub open spec fn wf(self) -> bool {
        self.coverage.wf() && self.flamegraph.wf()
    }

    /// Assemble an analyzer with every component disabled.
    pub fn new(
        machine: VmMachine,
        coverage: MachineCoverage,
        flamegraph: MachineFlamegraph,
        overlap: MachineOverlap,
        steplog: MachineStepLog,
    ) -> (r: MachineAnalyzer)
        requires
            coverage.wf(),
            flamegraph.wf(),
        ensures
            r.wf(),
            r.enable_coverage == 0,
            r.enable_flamegraph == 0,
            r.enable_overlap == 0,
            r.enable_steplog == 0,
            r.coverage == coverage,
            r.flamegraph == flamegraph,
            r.overlap == overlap,
            r.steplog == steplog,
    {
        MachineAnalyzer {
            enable_coverage: 0,
            enable_flamegraph: 0,
            enable_overlap: 0,
            enable_steplog: 0,
            machine,
            coverage,
            flamegraph,
            overlap,
            steplog,
        }
    }

    /// One iteration of the analysis loop.  A pending program-image reload
    /// rebuilds the profiler — and the coverage tracker's debug context —
    /// from the new image while keeping every coverage hit; then each
    /// enabled component sees the current instruction, in the fixed order
    /// coverage, profiler, overlap — the latter only ever running with the
    /// profiler — and step log; finally the machine executes the
    /// instruction.  Coverage hits only ever accumulate, and the step log
    /// only ever grows.
    pub fn run_step(&mut self, decoder: &mut ckb_vm::decoder::Decoder) -> (r: Result<
        (),
        ckb_vm::Error,
    >)
        requires
            old(self).wf(),
        ensures
            final(self).wf(),
            final(self).enable_coverage == old(self).enable_coverage,
            final(self).enable_flamegraph == old(self).enable_flamegraph,
            final(self).enable_overlap == old(self).enable_overlap,
            final(self).enable_steplog == old(self).enable_steplog,
            forall|f: Seq<char>, i: int|
                is_hit(old(self).coverage.hits(), f, i) ==> #[trigger] is_hit(
                    final(self).coverage.hits(),
                    f,
                    i,
                ),
            old(self).steplog.log@.is_prefix_of(final(self).steplog.log@),
            old(self).enable_coverage == 0
                ==> final(self).coverage.results@ == old(self).coverage.results@
                && final(self).coverage.pc_dict@ == old(self).coverage.pc_dict@,
            old(self).enable_steplog == 0 ==> final(self).steplog == old(self).steplog,
            old(self).enable_overlap == 0 || old(self).enable_flamegraph == 0
                ==> final(self).overlap == old(self).overlap,
    {
        if vm::vm_reset_signal(&mut self.machine) {
            vm::decoder_reset_cache(decoder);
            let code = vm::vm_code(&self.machine);
            match self.flamegraph.reset(code.as_slice()) {
                Ok(()) => {},
                Err(e) => {
                    return Err(vm::external_error(e.message.as_str()));
                },
            }
            match self.coverage.reset(code.as_slice()) {
                Ok(()) => {},
                Err(e) => {
                    return Err(vm::external_error(e.message.as_str()));
                },
            }
        }
        let pc = vm::vm_pc(&self.machine);
        if self.enable_coverage > 0 {
            self.coverage.step(pc);
        }
        if self.enable_flamegraph > 0 {
            let inst = match vm::vm_decode(&mut self.machine, decoder, pc) {
                Ok(i) => i,
                Err(e) => {
                    return Err(e);
                },
            };
            let cycles = vm::estimate_cycles(inst);
            let regs = vm::vm_registers(&self.machine);
            if self.flamegraph.trie.nodes.len() == usize::MAX {
                return Err(vm::external_error("Call trie is full"));
            }
            let returned = self.flamegraph.step(inst, pc, &regs, cycles);
            if self.enable_overlap > 0 {
                let sp = regs[2];
                let a0 = regs[10];
                match self.overlap.step(sp, returned, a0) {
                    Ok(()) => {},
                    Err(incident) => {
                        return Err(vm::overlap_error(incident.sp, incident.heap));
                    },
                }
            }
        }
        if self.enable_steplog > 0 {
            let text = vm::vm_state_text(&self.machine);
            self.steplog.step(text.as_str());
        }
        vm::vm_step(&mut self.machine, decoder)
    }

    /// Run the machine under analysis until it halts, a component or the
    /// machine fails, or `max_steps` instructions have been analyzed.  On
    /// a normal halt the machine's exit code is handed back; every fatal
    /// error leaves the components' accumulated state in place for report
    /// rendering.  A machine with fused macro-operations enabled on the
    /// oldest version is rejected before any stepping.
    pub fn run(&mut self, max_steps: u64) -> (r: Result<RunOutcome, ckb_vm::Error>)
        requires
            old(self).wf(),
        ensures
            final(self).wf(),
            final(self).enable_coverage == old(self).enable_coverage,
            final(self).enable_flamegraph == old(self).enable_flamegraph,
            final(self).enable_overlap == old(self).enable_overlap,
            final(self).enable_steplog == old(self).enable_steplog,
            forall|f: Seq<char>, i: int|
                is_hit(old(self).coverage.hits(), f, i) ==> #[trigger] is_hit(
                    final(self).coverage.hits(),
                    f,
                    i,
                ),
            old(self).steplog.log@.is_prefix_of(final(self).steplog.log@),
            old(self).enable_coverage == 0
                ==> final(self).coverage.results@ == old(self).coverage.results@
                && final(self).coverage.pc_dict@ == old(self).coverage.pc_dict@,
            old(self).enable_steplog == 0 ==> final(self).steplog == old(self).steplog,
            old(self).enable_overlap == 0 || old(self).enable_flamegraph == 0
                ==> final(self).overlap == old(self).overlap,
    {
        let isa = vm::vm_isa(&self.machine);
        let version = vm::vm_version(&self.machine);
        if isa & vm::ISA_MOP != 0 && version == vm::VERSION0 {
            return Err(vm::invalid_version_error());
        }
        let mut decoder = vm::vm_build_decoder(isa, version);
        vm::vm_set_running(&mut self.machine, true);
        let mut budget = max_steps;
        loop
            invariant
                self.wf(),
                self.enable_coverage == old(self).enable_coverage,
                self.enable_flamegraph == old(self).enable_flamegraph,
                self.enable_overlap == old(self).enable_overlap,
                self.enable_steplog == old(self).enable_steplog,
                forall|f: Seq<char>, i: int|
                    is_hit(old(self).coverage.hits(), f, i) ==> #[trigger] is_hit(
                        self.coverage.hits(),
                        f,
                        i,
                    ),
                old(self).steplog.log@.is_prefix_of(self.steplog.log@),
                old(self).enable_coverage == 0
                    ==> self.coverage.results@ == old(self).coverage.results@
                    && self.coverage.pc_dict@ == old(self).coverage.pc_dict@,
                old(self).enable_steplog == 0 ==> self.steplog == old(self).steplog,
                old(self).enable_overlap == 0 || old(self).enable_flamegraph == 0
                    ==> self.overlap == old(self).overlap,
            decreases budget,
        {
            if !vm::vm_running(&self.machine) {
                return Ok(RunOutcome::Halted(vm::vm_exit_code(&self.machine)));
            }
            if budget == 0 {
                return Ok(RunOutcome::BudgetSpent);
            }
            budget = budget - 1;
            match self.run_step(&mut decoder) {
                Ok(()) => {},
                Err(e) => {
                    return Err(e);
                },
            }
        }
    }
}

} // verus!
