//! The narrow, explicitly audited boundary to the OS tracing facility.
//!
//! Every direct memory-peek/poke, register-access, wait and kill call on
//! the traced process goes through exactly one trusted function here.
//! Each one converts between plain values (raw process ids, addresses,
//! machine words, errno codes) and the tracing crate's types, and makes a
//! single outside call.  Nothing is promised of a result that depends on
//! the state of the traced process; the verified callers state what holds
//! of every outcome.

use vstd::prelude::*;

verus! {

/// The cpu register file of a stopped traced process, kept opaque: the
/// controller only ever reads or replaces single registers through the
/// accessors below.
#[verifier::external_type_specification]
#[verifier::external_body]
pub struct ExUserRegs(nix::libc::user_regs_struct);

/// A state change of the traced process, as plain values: the exit code,
/// or the signal number that killed or stopped it.
#[derive(Clone, Copy, Debug, PartialEq, Eq, Structural)]
pub enum WaitEvent {
    /// The process exited normally with this code.
    Exited(i32),
    /// The process was killed by this signal.
    Signaled(i32),
    /// The process stopped on this signal and can be inspected.
    Stopped(i32),
    /// Any other stop kind the controller does not classify.
    Other,
}

/// Relies on nix::sys::ptrace::getregs: reads the general registers of
/// the stopped traced process; fails with an errno value otherwise.
#[verifier::external_body]
pub(crate) fn get_regs(pid: i32) -> Result<nix::libc::user_regs_struct, i32> {
    nix::sys::ptrace::getregs(nix::unistd::Pid::from_raw(pid)).map_err(|e| e as i32)
}

/// Relies on nix::sys::ptrace::setregs: replaces the general registers of
/// the stopped traced process.
#[verifier::external_body]
pub(crate) fn set_regs(pid: i32, regs: nix::libc::user_regs_struct) -> Result<(), i32> {
    nix::sys::ptrace::setregs(nix::unistd::Pid::from_raw(pid), regs).map_err(|e| e as i32)
}

/// Picks the program counter out of a register file.
#[verifier::external_body]
pub(crate) fn regs_pc(regs: &nix::libc::user_regs_struct) -> u64 {
    regs.rip
}

/// Picks the frame pointer out of a register file.
#[verifier::external_body]
pub(crate) fn regs_fp(regs: &nix::libc::user_regs_struct) -> u64 {
    regs.rbp
}

/// Replaces the program counter field of a register file.
#[verifier::external_body]
pub(crate) fn with_pc(regs: nix::libc::user_regs_struct, pc: u64) -> nix::libc::user_regs_struct {
    let mut r = regs;
    r.rip = pc;
    r
}

/// Relies on nix::sys::ptrace::read: reads one machine word from the
/// traced process's memory at the given address.
#[verifier::external_body]
pub(crate) fn peek_word(pid: i32, addr: usize) -> Result<u64, i32> {
    nix::sys::ptrace::read(nix::unistd::Pid::from_raw(pid), addr as nix::sys::ptrace::AddressType)
        .map(|w| w as u64)
        .map_err(|e| e as i32)
}

/// Relies on nix::sys::ptrace::write: writes one machine word into the
/// traced process's memory at the given address.
#[verifier::external_body]
pub(crate) fn poke_word(pid: i32, addr: usize, word: u64) -> Result<(), i32> {
    nix::sys::ptrace::write(
        nix::unistd::Pid::from_raw(pid),
        addr as nix::sys::ptrace::AddressType,
        word as i64,
    ).map_err(|e| e as i32)
}

/// Relies on nix::sys::ptrace::step: lets the stopped traced process
/// execute exactly one instruction, then stop again.
#[verifier::external_body]
pub(crate) fn single_step(pid: i32) -> Result<(), i32> {
    nix::sys::ptrace::step(nix::unistd::Pid::from_raw(pid), None).map_err(|e| e as i32)
}

/// Relies on nix::sys::ptrace::cont: resumes free-running execution of
/// the stopped traced process.
#[verifier::external_body]
pub(crate) fn resume(pid: i32) -> Result<(), i32> {
    nix::sys::ptrace::cont(nix::unistd::Pid::from_raw(pid), None).map_err(|e| e as i32)
}

/// Relies on nix::sys::wait::waitpid: blocks until the traced process
/// changes state, and hands the state change back as plain values, one
/// arm per wait-status variant.
#[verifier::external_body]
pub(crate) fn wait_event(pid: i32) -> Result<WaitEvent, i32> {
    match nix::sys::wait::waitpid(nix::unistd::Pid::from_raw(pid), None) {
        Ok(nix::sys::wait::WaitStatus::Exited(_, code)) => Ok(WaitEvent::Exited(code)),
        Ok(nix::sys::wait::WaitStatus::Signaled(_, sig, _)) => Ok(WaitEvent::Signaled(sig as i32)),
        Ok(nix::sys::wait::WaitStatus::Stopped(_, sig)) => Ok(WaitEvent::Stopped(sig as i32)),
        Ok(_) => Ok(WaitEvent::Other),
        Err(e) => Err(e as i32),
    }
}

/// Relies on nix::sys::signal::kill with SIGKILL: asks the OS to
/// terminate the process; fails with an errno value (for instance when
/// the process is already gone).
#[verifier::external_body]
pub(crate) fn send_kill(pid: i32) -> Result<(), i32> {
    nix::sys::signal::kill(nix::unistd::Pid::from_raw(pid), nix::sys::signal::Signal::SIGKILL)
        .map_err(|e| e as i32)
}

} // verus!
