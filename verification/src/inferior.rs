//! The process controller: owns one traced OS process, patches its
//! memory byte by byte, resumes it while stepping transparently over
//! installed breakpoints, and classifies every state change the OS
//! reports.

use vstd::prelude::*;

use std::collections::HashMap;

use crate::errors::DebugError;
use crate::strutil::str_eq;
use crate::symbols::{Frame, SymbolTable, spec_function_for_address, spec_line_for_address};
use crate::trace;
use crate::trace::WaitEvent;
use crate::unwind::MAX_FRAMES;
use crate::word;

verus! {

broadcast use vstd::std_specs::hash::group_hash_axioms;

/// The one-byte trap opcode written over an instruction to make the
/// traced process stop when execution reaches it.
pub const TRAP_OPCODE: u8 = 0xcc;

/// The classified state of the traced process after a wait.
#[derive(Clone, Copy, Debug, PartialEq, Eq, Structural)]
pub enum Status {
    /// Stopped by a signal; carries the signal number and the current
    /// program counter.
    Stopped(i32, usize),
    /// Exited normally; carries the exit status code.
    Exited(i32),
    /// Killed by a signal; carries the signal number.
    Signaled(i32),
}

/// One installed software breakpoint: the patched address and the
/// instruction byte the trap opcode displaced.
#[derive(Clone, Copy, Debug, PartialEq, Eq, Structural)]
pub struct Breakpoint {
    pub addr: usize,
    pub orig_byte: u8,
}

/// How a classified status follows from a wait event and the program
/// counter read at a stop.  An unclassifiable event yields `None`.
pub open spec fn spec_status_of_event(ev: WaitEvent, pc: usize) -> Option<Status> {
    match ev {
        WaitEvent::Exited(code) => Some(Status::Exited(code)),
        WaitEvent::Signaled(sig) => Some(Status::Signaled(sig)),
        WaitEvent::Stopped(sig) => Some(Status::Stopped(sig, pc)),
        WaitEvent::Other => None,
    }
}

/// Classifies a wait event, given the program counter that was read if
/// the process stopped.
pub fn status_of_event(ev: WaitEvent, pc: usize) -> (r: Option<Status>)
    ensures
        r == spec_status_of_event(ev, pc),
{
    match ev {
        WaitEvent::Exited(code) => Some(Status::Exited(code)),
        WaitEvent::Signaled(sig) => Some(Status::Signaled(sig)),
        WaitEvent::Stopped(sig) => Some(Status::Stopped(sig, pc)),
        WaitEvent::Other => None,
    }
}

/// A process under trace control.  At most one is owned at a time; the
/// session enforces that by holding at most one `Inferior`.
pub struct Inferior {
    /// The OS process id of the traced process.
    pub pid: i32,
    /// Installed breakpoints, keyed by patched address.
    pub breakpoint: HashMap<usize, Breakpoint>,
}

impl Inferior {
    /// Every installed breakpoint is keyed by its own address.
    pub open spec fn wf(&self) -> bool {
        forall|a: usize| self.breakpoint@.contains_key(a) ==> self.breakpoint@[a].addr == a
    }

    /// Returns the pid of this inferior.
    pub fn pid(&self) -> (r: i32)
        ensures
            r == self.pid,
    {
        self.pid
    }

    /// Adopts a freshly spawned traced process: blocks until its first
    /// stop (the OS hands control to the tracer before the program's
    /// first instruction), then installs every pending breakpoint.  Each
    /// pending address is attempted: it ends up installed or in the
    /// returned failure list, and a per-address failure never aborts the
    /// spawn.  Fails only if the first wait fails.
    pub fn new(pid: i32, breakpoints: &Vec<usize>) -> (r: Result<(Inferior, Vec<usize>), DebugError>)
        ensures
            r matches Ok(p) ==> p.0.wf() && p.0.pid == pid,
            r matches Ok(p) ==> forall|a: usize|
                p.0.breakpoint@.contains_key(a) ==> breakpoints@.contains(a),
            r matches Ok(p) ==> forall|k: int|
                0 <= k < breakpoints@.len() ==> p.0.breakpoint@.contains_key(breakpoints@[k])
                    || p.1@.contains(breakpoints@[k]),
            r matches Ok(p) ==> forall|a: usize| p.1@.contains(a) ==> breakpoints@.contains(a),
    {
        let mut inferior = Inferior { pid, breakpoint: HashMap::new() };
        match inferior.wait() {
            Ok(_) => {}
            Err(e) => {
                return Err(e);
            }
        }
        let failed = inferior.install_breakpoints(breakpoints);
        Ok((inferior, failed))
    }

    /// Patches the trap opcode over each of the given addresses,
    /// recording the displaced byte.  Installing is idempotent: an
    /// address already installed is left exactly as it is, so its stored
    /// original byte is never overwritten with the trap byte.  Every
    /// other address is attempted, and ends up installed or in the
    /// returned failure list; a per-address failure never aborts the
    /// rest.
    pub fn install_breakpoints(&mut self, addrs: &Vec<usize>) -> (failed: Vec<usize>)
        requires
            old(self).wf(),
        ensures
            final(self).wf(),
            final(self).pid == old(self).pid,
            forall|a: usize|
                #[trigger] old(self).breakpoint@.contains_key(a)
                    ==> final(self).breakpoint@.contains_key(a) && final(self).breakpoint@[a]
                    == old(self).breakpoint@[a],
            forall|a: usize|
                final(self).breakpoint@.contains_key(a) ==> old(self).breakpoint@.contains_key(a)
                    || addrs@.contains(a),
            forall|k: int|
                0 <= k < addrs@.len() ==> final(self).breakpoint@.contains_key(addrs@[k])
                    || failed@.contains(addrs@[k]),
            forall|a: usize| failed@.contains(a) ==> addrs@.contains(a),
    {
        let mut failed: Vec<usize> = Vec::new();
        let mut i: usize = 0;
        while i < addrs.len()
            invariant
                self.wf(),
                self.pid == old(self).pid,
                i <= addrs.len(),
                forall|a: usize|
                    #[trigger] old(self).breakpoint@.contains_key(a)
                        ==> self.breakpoint@.contains_key(a) && self.breakpoint@[a] == old(
                        self,
                    ).breakpoint@[a],
                forall|a: usize|
                    self.breakpoint@.contains_key(a) ==> old(self).breakpoint@.contains_key(a)
                        || addrs@.contains(a),
                forall|k: int|
                    0 <= k < i ==> self.breakpoint@.contains_key(addrs@[k]) || failed@.contains(
                        addrs@[k],
                    ),
                forall|a: usize| failed@.contains(a) ==> addrs@.contains(a),
            decreases addrs.len() - i,
        {
            let addr = addrs[i];
            assert(addrs@.contains(addr));
            if self.breakpoint.contains_key(&addr) {
                // installed before: keep its stored original byte
            } else {
                match self.write_byte(addr, TRAP_OPCODE) {
                    Ok(orig_byte) => {
                        let ghost m0 = self.breakpoint@;
                        proof {
                            assert(!m0.contains_key(addr));
                        }
                        self.breakpoint.insert(addr, Breakpoint { addr, orig_byte });
                        proof {
                            assert forall|a: usize| old(self).breakpoint@.contains_key(
                                a,
                            ) implies self.breakpoint@.contains_key(a) && self.breakpoint@[a] == old(
                                self,
                            ).breakpoint@[a] by {
                                assert(m0.contains_key(a));
                                assert(a != addr);
                            }
                        }
                    }
                    Err(_) => {
                        let ghost pre_failed = failed@;
                        failed.push(addr);
                        proof {
                            assert(failed@[failed@.len() - 1] == addr);
                            assert(failed@.contains(addr));
                            assert forall|a: usize| pre_failed.contains(a) implies failed@.contains(
                                a,
                            ) by {
                                let j = choose|j: int|
                                    0 <= j < pre_failed.len() && pre_failed[j] == a;
                                assert(failed@[j] == a);
                            }
                        }
                    }
                }
            }
            i += 1;
        }
        failed
    }

    /// Reads the machine word containing `addr` (the address is aligned
    /// down to its word boundary first).
    pub fn read_word(&self, addr: usize) -> (r: Result<u64, DebugError>)
        ensures
            r matches Err(e) ==> e is Os,
    {
        let aligned = word::align_addr_to_word(addr);
        match trace::peek_word(self.pid, aligned) {
            Ok(w) => Ok(w),
            Err(e) => Err(DebugError::Os(e)),
        }
    }

    /// Replaces the single byte at `addr` in the traced process's
    /// memory and returns the byte it displaced.  The containing word is
    /// read, exactly one byte of it is replaced (`word::replace_byte_in_word`
    /// states that every other byte is preserved bit-for-bit), and the
    /// word is written back.
    pub fn write_byte(&self, addr: usize, val: u8) -> (r: Result<u8, DebugError>)
        ensures
            r matches Err(e) ==> e is Os,
    {
        let aligned = word::align_addr_to_word(addr);
        let byte_offset = addr - aligned;
        let current = match trace::peek_word(self.pid, aligned) {
            Ok(w) => w,
            Err(e) => {
                return Err(DebugError::Os(e));
            }
        };
        let orig_byte = word::extract_byte(current, byte_offset);
        let updated = word::replace_byte_in_word(current, byte_offset, val);
        match trace::poke_word(self.pid, aligned, updated) {
            Ok(_) => Ok(orig_byte),
            Err(e) => Err(DebugError::Os(e)),
        }
    }

    /// Blocks until the traced process changes state and classifies the
    /// result: stop-by-signal (with the program counter), normal exit,
    /// or death-by-signal.  A stop kind outside those three is surfaced
    /// as `UnexpectedWait`, never a crash.
    pub fn wait(&self) -> (r: Result<Status, DebugError>)
        ensures
            r matches Err(e) ==> e is Os || e is UnexpectedWait,
    {
        let ev = match trace::wait_event(self.pid) {
            Ok(ev) => ev,
            Err(e) => {
                return Err(DebugError::Os(e));
            }
        };
        let pc: usize = match ev {
            WaitEvent::Stopped(_) => {
                let regs = match trace::get_regs(self.pid) {
                    Ok(regs) => regs,
                    Err(e) => {
                        return Err(DebugError::Os(e));
                    }
                };
                trace::regs_pc(&regs) as usize
            }
            _ => 0,
        };
        match status_of_event(ev, pc) {
            Some(status) => Ok(status),
            None => Err(DebugError::UnexpectedWait),
        }
    }

    /// Resumes the traced process until its next trap, signal or
    /// termination.  If the process is currently parked one byte past an
    /// installed trap it just hit, the displaced instruction is first
    /// executed for real: restore the original byte, rewind the program
    /// counter to the breakpoint address, single-step exactly one
    /// instruction, and re-patch the trap — so the patched instruction
    /// is never executed in its corrupted form, and future passes still
    /// stop there.
    pub fn inferior_continue(&self) -> (r: Result<Status, DebugError>)
        ensures
            r matches Err(e) ==> e is Os || e is UnexpectedWait,
    {
        let regs = match trace::get_regs(self.pid) {
            Ok(regs) => regs,
            Err(e) => {
                return Err(DebugError::Os(e));
            }
        };
        let rip = trace::regs_pc(&regs) as usize;
        let mut parked_orig: Option<u8> = None;
        if rip >= 1 {
            match self.breakpoint.get(&(rip - 1)) {
                Some(bp) => {
                    parked_orig = Some(bp.orig_byte);
                }
                None => {}
            }
        }
        if let Some(orig) = parked_orig {
            let bp_addr = rip - 1;
            if let Err(e) = self.write_byte(bp_addr, orig) {
                return Err(e);
            }
            let rewound = trace::with_pc(regs, bp_addr as u64);
            if let Err(e) = trace::set_regs(self.pid, rewound) {
                return Err(DebugError::Os(e));
            }
            if let Err(e) = trace::single_step(self.pid) {
                return Err(DebugError::Os(e));
            }
            match self.wait() {
                Ok(Status::Exited(code)) => {
                    return Ok(Status::Exited(code));
                }
                Ok(Status::Signaled(sig)) => {
                    return Ok(Status::Signaled(sig));
                }
                Ok(Status::Stopped(_, _)) => {
                    if let Err(e) = self.write_byte(bp_addr, TRAP_OPCODE) {
                        return Err(e);
                    }
                }
                Err(e) => {
                    return Err(e);
                }
            }
        }
        if let Err(e) = trace::resume(self.pid) {
            return Err(DebugError::Os(e));
        }
        self.wait()
    }

    /// Reconstructs the call stack of the stopped traced process by
    /// walking its frame-pointer chain: starting from the current
    /// program counter and frame pointer, each step resolves the address
    /// through the symbol resolver and emits a frame, stops at the
    /// program's entry function, and otherwise follows the saved return
    /// address and prior frame pointer kept at the two machine words
    /// `[fp]` and `[fp + WORD_SIZE]`.  The walk is capped at
    /// `MAX_FRAMES` frames, and a failed memory read or a malformed
    /// frame pointer ends it as "end of stack" instead of looping or
    /// faulting.
    pub fn backtrace(&self, data: &SymbolTable) -> (r: Result<Vec<Frame>, DebugError>)
        ensures
            r matches Ok(frames) ==> 1 <= frames@.len() <= MAX_FRAMES,
            r matches Ok(frames) ==> forall|i: int|
                0 <= i < frames@.len() ==> (#[trigger] frames@[i])@.function
                    == spec_function_for_address(data.funcs@, frames@[i].pc) && frames@[i]@.location
                    == spec_line_for_address(data.lines@, frames@[i].pc),
            r matches Err(e) ==> e is Os,
    {
        let regs = match trace::get_regs(self.pid) {
            Ok(regs) => regs,
            Err(e) => {
                return Err(DebugError::Os(e));
            }
        };
        let mut pc = trace::regs_pc(&regs) as usize;
        let mut fp = trace::regs_fp(&regs) as usize;
        let mut frames: Vec<Frame> = Vec::new();
        let mut fuel: usize = MAX_FRAMES;
        loop
            invariant_except_break
                frames@.len() + fuel <= MAX_FRAMES,
            invariant
                fuel <= MAX_FRAMES,
                fuel < MAX_FRAMES ==> frames@.len() >= 1,
                forall|i: int|
                    0 <= i < frames@.len() ==> (#[trigger] frames@[i])@.function
                        == spec_function_for_address(data.funcs@, frames@[i].pc)
                        && frames@[i]@.location == spec_line_for_address(
                        data.lines@,
                        frames@[i].pc,
                    ),
            ensures
                1 <= frames@.len() <= MAX_FRAMES,
                forall|i: int|
                    0 <= i < frames@.len() ==> (#[trigger] frames@[i])@.function
                        == spec_function_for_address(data.funcs@, frames@[i].pc)
                        && frames@[i]@.location == spec_line_for_address(
                        data.lines@,
                        frames@[i].pc,
                    ),
            decreases fuel,
        {
            if fuel == 0 {
                break;
            }
            let func = data.function_for_address(pc);
            let loc = data.line_for_address(pc);
            let is_entry = match &func {
                Some(name) => str_eq(name.as_str(), "main"),
                None => false,
            };
            let fr = Frame { pc, function: func, location: loc };
            proof {
                assert(fr@.function == spec_function_for_address(data.funcs@, pc));
                assert(fr@.location == spec_line_for_address(data.lines@, pc));
            }
            frames.push(fr);
            if is_entry {
                break;
            }
            if fp > usize::MAX - 8 {
                break;
            }
            let ret = match trace::peek_word(self.pid, fp + 8) {
                Ok(w) => w,
                Err(_) => {
                    break;
                }
            };
            let prior = match trace::peek_word(self.pid, fp) {
                Ok(w) => w,
                Err(_) => {
                    break;
                }
            };
            pc = ret as usize;
            fp = prior as usize;
            fuel -= 1;
        }
        Ok(frames)
    }

    /// Terminates and reaps the traced process.  Safe to call on a
    /// process that is already gone: every OS failure is tolerated, and
    /// the controller itself is left unchanged.
    pub fn kill(&mut self)
        ensures
            *final(self) == *old(self),
    {
        let _ = trace::send_kill(self.pid);
        let _ = trace::wait_event(self.pid);
    }
}

} // verus!
