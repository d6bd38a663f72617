//! The debugger session: a state machine over an optional traced
//! process.  It resolves symbolic breakpoint specs, drives the process
//! controller, applies the status-handling rules of the run and
//! continue commands, and keeps the session-level breakpoint registry,
//! whose list index is a stable breakpoint id.

use vstd::prelude::*;

use crate::command::{parse_dec_bytes, parse_hex_bytes, spec_parse_dec, spec_parse_hex};
use crate::errors::DebugError;
use crate::inferior::{Breakpoint, Inferior, Status, TRAP_OPCODE};
use crate::symbols::{
    Frame, SymbolTable, spec_address_for_function, spec_address_for_line,
    spec_function_for_address, spec_line_for_address,
};
use crate::unwind::MAX_FRAMES;
use vstd::string::StringSliceAdditionalSpecFns;

verus! {

/// What a break command reported: the new breakpoint's stable id, the
/// resolved address, and whether an immediate install into a live
/// process was attempted and failed (per-address, non-fatal).
pub struct BreakReport {
    pub id: usize,
    pub addr: usize,
    pub install_failed: bool,
}

/// How a break spec resolves, in parse priority order: a `*`-prefixed
/// hexadecimal literal is a literal address regardless of the symbol
/// table; a plain decimal number is a source-line lookup; anything else
/// is a function-name lookup.
pub open spec fn spec_resolve_break(tbl: SymbolTable, s: &str) -> Option<usize> {
    let bs = s.spec_bytes();
    if bs.len() > 0 && bs[0] == 42 {  // '*'
        spec_parse_hex(bs.skip(1))
    } else if spec_parse_dec(bs) is Some {
        spec_address_for_line(tbl.lines@, spec_parse_dec(bs).unwrap())
    } else {
        spec_address_for_function(tbl.funcs@, s@)
    }
}

/// Resolves a break spec against a symbol table, trying the literal
/// address form, then the source-line form, then the function name.
pub fn resolve_break_spec(tbl: &SymbolTable, spec_str: &str) -> (r: Option<usize>)
    ensures
        r == spec_resolve_break(*tbl, spec_str),
{
    let bs = spec_str.as_bytes();
    if bs.len() > 0 && bs[0] == 42 {
        parse_hex_bytes(bs, 1)
    } else {
        match parse_dec_bytes(bs) {
            Some(line) => tbl.address_for_line(line),
            None => tbl.address_for_function(spec_str),
        }
    }
}

/// The debugger session.  It owns at most one live traced process, the
/// symbol resolver's table for the target, and the registry of
/// requested breakpoint addresses (a breakpoint's registry index is its
/// id, assigned at creation and never reused or reordered).
pub struct Debugger {
    pub target: String,
    pub inferior: Option<Inferior>,
    pub debug_data: SymbolTable,
    pub breakpoint: Vec<usize>,
}

impl Debugger {
    /// Initializes the debugger session for a target, with no live
    /// process and an empty breakpoint registry.
    pub fn new(target: &str, debug_data: SymbolTable) -> (r: Debugger)
        ensures
            r.inferior is None,
            r.breakpoint@.len() == 0,
            r.target@ == target@,
            r.debug_data == debug_data,
    {
        Debugger { target: target.to_owned(), inferior: None, debug_data, breakpoint: Vec::new() }
    }

    /// The first half of the run command: if a process is already live,
    /// fully terminate and reap it first — the session never owns two
    /// processes, and the old one is gone before a new one is spawned.
    pub fn prepare_run(&mut self)
        ensures
            final(self).inferior is None,
            final(self).target == old(self).target,
            final(self).debug_data == old(self).debug_data,
            final(self).breakpoint == old(self).breakpoint,
    {
        match &mut self.inferior {
            Some(inf) => inf.kill(),
            None => {}
        }
        self.inferior = None;
    }

    /// The second half of the run command, once the caller has spawned
    /// the target under trace control: adopt the new process, install
    /// every registered breakpoint — each registered address ends up
    /// installed in the adopted process or listed in the returned
    /// failure report — auto-continue once, and apply the status rule: a
    /// stop keeps the process live, exit or death by signal leaves the
    /// session with no process, and a failure while adopting or
    /// continuing terminates the fresh process rather than leak it.
    pub fn attach_run(&mut self, pid: i32) -> (r: Result<(Status, Vec<usize>), DebugError>)
        requires
            old(self).inferior is None,
        ensures
            final(self).target == old(self).target,
            final(self).debug_data == old(self).debug_data,
            final(self).breakpoint == old(self).breakpoint,
            r matches Ok(p) ==> (final(self).inferior is Some <==> p.0 matches Status::Stopped(
                _,
                _,
            )),
            final(self).inferior matches Some(inf) ==> inf.wf() && forall|a: usize|
                inf.breakpoint@.contains_key(a) ==> old(self).breakpoint@.contains(a),
            r matches Ok(p) ==> (final(self).inferior matches Some(inf) ==> forall|k: int|
                0 <= k < old(self).breakpoint@.len() ==> inf.breakpoint@.contains_key(
                    old(self).breakpoint@[k],
                ) || p.1@.contains(old(self).breakpoint@[k])),
            r matches Ok(p) ==> forall|a: usize|
                p.1@.contains(a) ==> old(self).breakpoint@.contains(a),
            r is Err ==> final(self).inferior is None,
    {
        let (inf, failed) = match Inferior::new(pid, &self.breakpoint) {
            Ok(p) => p,
            Err(e) => {
                return Err(e);
            }
        };
        let mut inf = inf;
        let status = match inf.inferior_continue() {
            Ok(status) => status,
            Err(e) => {
                inf.kill();
                return Err(e);
            }
        };
        match status {
            Status::Stopped(_, _) => {
                self.inferior = Some(inf);
            }
            _ => {}
        }
        Ok((status, failed))
    }

    /// The continue command: valid only with a live process (otherwise
    /// it fails with a precondition error and changes nothing), resumes
    /// the process, and applies the same status rule as run.
    pub fn handle_continue(&mut self) -> (r: Result<Status, DebugError>)
        ensures
            final(self).target == old(self).target,
            final(self).debug_data == old(self).debug_data,
            final(self).breakpoint == old(self).breakpoint,
            r == Err::<Status, DebugError>(DebugError::NoProcess) <==> old(self).inferior is None,
            old(self).inferior is None ==> r == Err::<Status, DebugError>(DebugError::NoProcess)
                && *final(self) == *old(self),
            r matches Ok(st) ==> old(self).inferior is Some && (final(self).inferior is Some <==> st
                matches Status::Stopped(_, _)),
            final(self).inferior matches Some(inf) ==> old(self).inferior == Some(inf),
    {
        let status = match &self.inferior {
            Some(inf) => {
                match inf.inferior_continue() {
                    Ok(status) => status,
                    Err(e) => {
                        return Err(e);
                    }
                }
            }
            None => {
                return Err(DebugError::NoProcess);
            }
        };
        match status {
            Status::Stopped(_, _) => {}
            _ => {
                self.inferior = None;
            }
        }
        Ok(status)
    }

    /// The backtrace command: valid only with a live process (otherwise
    /// a precondition error), delegates to the unwinder, changes no
    /// state, and emits between one and `MAX_FRAMES` frames, each of
    /// them resolved through the session's symbol table.
    pub fn handle_backtrace(&self) -> (r: Result<Vec<Frame>, DebugError>)
        ensures
            r == Err::<Vec<Frame>, DebugError>(DebugError::NoProcess) <==> self.inferior is None,
            r matches Ok(frames) ==> self.inferior is Some && 1 <= frames@.len() <= MAX_FRAMES,
            r matches Ok(frames) ==> forall|i: int|
                0 <= i < frames@.len() ==> (#[trigger] frames@[i])@.function
                    == spec_function_for_address(self.debug_data.funcs@, frames@[i].pc)
                    && frames@[i]@.location == spec_line_for_address(
                    self.debug_data.lines@,
                    frames@[i].pc,
                ),
    {
        match &self.inferior {
            Some(inf) => inf.backtrace(&self.debug_data),
            None => Err(DebugError::NoProcess),
        }
    }

    /// The break command: resolve the spec (literal address, then
    /// source line, then function name), append the address to the
    /// registry — its index is its stable id — and, if a process is
    /// live, install it immediately.  Installing is idempotent: an
    /// address already installed keeps its stored original byte.  A
    /// failed patch is reported per-address in the result, not fatal;
    /// an unresolvable spec is rejected and changes nothing.
    pub fn handle_break(&mut self, spec_str: &str) -> (r: Result<BreakReport, DebugError>)
        ensures
            final(self).target == old(self).target,
            final(self).debug_data == old(self).debug_data,
            final(self).inferior is Some <==> old(self).inferior is Some,
            old(self).inferior is None ==> (r matches Ok(rep) ==> !rep.install_failed),
            match spec_resolve_break(old(self).debug_data, spec_str) {
                Some(addr) => {
                    &&& r matches Ok(rep)
                    &&& (r matches Ok(rep) ==> rep.addr == addr && rep.id == old(self).breakpoint@.len())
                    &&& final(self).breakpoint@ == old(self).breakpoint@.push(addr)
                    &&& (old(self).inferior matches Some(inf0) ==> (final(self).inferior matches Some(inf) ==> {
                        &&& inf.pid == inf0.pid
                        &&& forall|a: usize|
                            #[trigger] inf0.breakpoint@.contains_key(a)
                                ==> inf.breakpoint@.contains_key(a) && inf.breakpoint@[a]
                                == inf0.breakpoint@[a]
                        &&& forall|a: usize|
                            inf.breakpoint@.contains_key(a) ==> inf0.breakpoint@.contains_key(a)
                                || a == addr
                        &&& (r matches Ok(rep) && !rep.install_failed ==> inf.breakpoint@.contains_key(addr))
                        &&& (r matches Ok(rep) && rep.install_failed ==> inf.breakpoint@ == inf0.breakpoint@)
                    }))
                },
                None => {
                    &&& r == Err::<BreakReport, DebugError>(DebugError::BadSpec)
                    &&& final(self).breakpoint@ == old(self).breakpoint@
                    &&& final(self).inferior == old(self).inferior
                },
            },
    {
        let addr = match resolve_break_spec(&self.debug_data, spec_str) {
            Some(addr) => addr,
            None => {
                return Err(DebugError::BadSpec);
            }
        };
        let id = self.breakpoint.len();
        self.breakpoint.push(addr);
        let mut install_failed = false;
        match &mut self.inferior {
            Some(inf) => {
                if inf.breakpoint.contains_key(&addr) {
                    // installed before: keep its stored original byte
                } else {
                    match inf.write_byte(addr, TRAP_OPCODE) {
                        Ok(orig_byte) => {
                            let ghost m0 = inf.breakpoint@;
                            proof {
                                assert(!m0.contains_key(addr));
                            }
                            inf.breakpoint.insert(addr, Breakpoint { addr, orig_byte });
                            proof {
                                assert forall|a: usize| #[trigger] m0.contains_key(
                                    a,
                                ) implies inf.breakpoint@.contains_key(a) && inf.breakpoint@[a]
                                    == m0[a] by {
                                    assert(a != addr);
                                }
                            }
                        }
                        Err(_) => {
                            install_failed = true;
                        }
                    }
                }
            }
            None => {}
        }
        Ok(BreakReport { id, addr, install_failed })
    }

    /// The quit command, and the session-level kill rule: terminate any
    /// live process and end with none.  Safe with no live process, and
    /// safe to invoke any number of times in a row.
    pub fn handle_quit(&mut self)
        ensures
            final(self).inferior is None,
            final(self).target == old(self).target,
            final(self).debug_data == old(self).debug_data,
            final(self).breakpoint == old(self).breakpoint,
    {
        self.prepare_run();
    }
}

} // verus!
