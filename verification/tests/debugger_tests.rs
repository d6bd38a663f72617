use std::collections::HashMap;

use deet::command::{parse_address, DebuggerCommand};
use deet::debugger::{resolve_break_spec, Debugger};
use deet::errors::DebugError;
use deet::inferior::{status_of_event, Inferior, Status};
use deet::symbols::{FuncSym, LineSym, SymbolTable};
use deet::trace::WaitEvent;

/// A pid the OS cannot have handed out (above the default pid ceiling),
/// so every signal or wait on it fails and must be tolerated.
const DEAD_PID: i32 = i32::MAX;

fn table_with_main() -> SymbolTable {
    SymbolTable {
        funcs: vec![
            FuncSym { name: "helper".to_string(), low: 0x1000, high: 0x2000 },
            FuncSym { name: "main".to_string(), low: 0x3000, high: 0x4000 },
        ],
        lines: vec![
            LineSym { file: "prog.c".to_string(), line: 10, low: 0x1000, high: 0x1010 },
            LineSym { file: "prog.c".to_string(), line: 11, low: 0x1010, high: 0x1020 },
        ],
    }
}

#[test]
fn wait_events_classify_exactly() {
    assert_eq!(status_of_event(WaitEvent::Exited(0), 0), Some(Status::Exited(0)));
    assert_eq!(status_of_event(WaitEvent::Exited(3), 99), Some(Status::Exited(3)));
    assert_eq!(status_of_event(WaitEvent::Signaled(9), 0), Some(Status::Signaled(9)));
    assert_eq!(status_of_event(WaitEvent::Stopped(5), 0x4000), Some(Status::Stopped(5, 0x4000)));
    assert_eq!(status_of_event(WaitEvent::Other, 0), None);
}

#[test]
fn parse_address_accepts_hex_forms() {
    assert_eq!(parse_address("0x400000"), Some(0x400000));
    assert_eq!(parse_address("0X1f"), Some(0x1f));
    assert_eq!(parse_address("400000"), Some(0x400000));
    assert_eq!(parse_address("ff"), Some(0xff));
    assert_eq!(parse_address(""), None);
    assert_eq!(parse_address("0x"), None);
    assert_eq!(parse_address("zz"), None);
    assert_eq!(parse_address("12g4"), None);
    assert_eq!(parse_address("0x10000000000000000"), None);
    assert_eq!(parse_address("ffffffffffffffff"), Some(usize::MAX));
}

#[test]
fn from_tokens_recognises_commands_and_aliases() {
    assert!(matches!(DebuggerCommand::from_tokens(&vec!["q"]), Some(DebuggerCommand::Quit)));
    assert!(matches!(DebuggerCommand::from_tokens(&vec!["quit"]), Some(DebuggerCommand::Quit)));
    assert!(matches!(
        DebuggerCommand::from_tokens(&vec!["c"]),
        Some(DebuggerCommand::Continue)
    ));
    assert!(matches!(
        DebuggerCommand::from_tokens(&vec!["cont"]),
        Some(DebuggerCommand::Continue)
    ));
    assert!(matches!(
        DebuggerCommand::from_tokens(&vec!["continue"]),
        Some(DebuggerCommand::Continue)
    ));
    assert!(matches!(
        DebuggerCommand::from_tokens(&vec!["bt"]),
        Some(DebuggerCommand::Backtrace)
    ));
    assert!(matches!(
        DebuggerCommand::from_tokens(&vec!["back"]),
        Some(DebuggerCommand::Backtrace)
    ));
    assert!(matches!(
        DebuggerCommand::from_tokens(&vec!["backtrace"]),
        Some(DebuggerCommand::Backtrace)
    ));
    match DebuggerCommand::from_tokens(&vec!["r", "one", "two"]) {
        Some(DebuggerCommand::Run(args)) => assert_eq!(args, vec!["one", "two"]),
        _ => panic!("expected a run command"),
    }
    match DebuggerCommand::from_tokens(&vec!["run"]) {
        Some(DebuggerCommand::Run(args)) => assert!(args.is_empty()),
        _ => panic!("expected a run command"),
    }
    match DebuggerCommand::from_tokens(&vec!["b", "main"]) {
        Some(DebuggerCommand::Break(spec)) => assert_eq!(spec, "main"),
        _ => panic!("expected a break command"),
    }
    assert!(DebuggerCommand::from_tokens(&vec!["break"]).is_none());
    assert!(DebuggerCommand::from_tokens(&vec!["step"]).is_none());
    assert!(DebuggerCommand::from_tokens(&Vec::new()).is_none());
}

#[test]
fn break_spec_resolution_priority() {
    let tbl = table_with_main();
    // A literal address resolves regardless of any symbol table contents.
    assert_eq!(resolve_break_spec(&tbl, "*0x400000"), Some(0x400000));
    assert_eq!(resolve_break_spec(&SymbolTable::new(), "*0x400000"), Some(0x400000));
    assert_eq!(resolve_break_spec(&tbl, "*400000"), Some(0x400000));
    // A plain number is a source-line lookup.
    assert_eq!(resolve_break_spec(&tbl, "10"), Some(0x1000));
    assert_eq!(resolve_break_spec(&tbl, "11"), Some(0x1010));
    assert_eq!(resolve_break_spec(&tbl, "12"), None);
    // Anything else is a function-name lookup.
    assert_eq!(resolve_break_spec(&tbl, "main"), Some(0x3000));
    assert_eq!(resolve_break_spec(&tbl, "helper"), Some(0x1000));
    assert_eq!(resolve_break_spec(&tbl, "absent"), None);
    // A hex-looking token without the star is not an address.
    assert_eq!(resolve_break_spec(&tbl, "0x1000"), None);
    // An invalid literal address registers nothing.
    assert_eq!(resolve_break_spec(&tbl, "*zz"), None);
    assert_eq!(resolve_break_spec(&tbl, "*0x"), None);
    assert_eq!(resolve_break_spec(&tbl, "*"), None);
}

#[test]
fn unresolvable_break_specs_are_rejected() {
    let mut dbg = Debugger::new("target", SymbolTable::new());
    assert!(dbg.handle_break("*0x").is_err());
    assert!(dbg.handle_break("*").is_err());
    assert!(dbg.handle_break("42").is_err());
    assert!(dbg.handle_break("absent").is_err());
    assert!(dbg.breakpoint.is_empty());
}

#[test]
fn symbol_lookups_first_match_and_absence() {
    let tbl = table_with_main();
    assert_eq!(tbl.function_for_address(0x1000), Some("helper".to_string()));
    assert_eq!(tbl.function_for_address(0x1fff), Some("helper".to_string()));
    assert_eq!(tbl.function_for_address(0x3000), Some("main".to_string()));
    assert_eq!(tbl.function_for_address(0x2000), None);
    assert_eq!(tbl.address_for_function("main"), Some(0x3000));
    assert_eq!(tbl.address_for_function("absent"), None);
    let loc = tbl.line_for_address(0x1015).unwrap();
    assert_eq!(loc.file, "prog.c");
    assert_eq!(loc.line, 11);
    assert!(tbl.line_for_address(0x9000).is_none());
    assert_eq!(tbl.address_for_line(10), Some(0x1000));
    assert_eq!(tbl.address_for_line(99), None);
}

#[test]
fn quit_with_no_process_and_twice_is_safe() {
    let mut dbg = Debugger::new("target", table_with_main());
    dbg.handle_quit();
    dbg.handle_quit();
    assert!(dbg.inferior.is_none());
}

#[test]
fn quit_with_dead_process_is_safe_and_idempotent() {
    let mut dbg = Debugger::new("target", SymbolTable::new());
    dbg.inferior = Some(Inferior { pid: DEAD_PID, breakpoint: HashMap::new() });
    dbg.handle_quit();
    assert!(dbg.inferior.is_none());
    dbg.handle_quit();
    assert!(dbg.inferior.is_none());
}

#[test]
fn run_replaces_prior_process_before_new_one() {
    let mut dbg = Debugger::new("target", SymbolTable::new());
    dbg.inferior = Some(Inferior { pid: DEAD_PID, breakpoint: HashMap::new() });
    // The replace path fully terminates the prior process first...
    dbg.prepare_run();
    assert!(dbg.inferior.is_none());
    // ...and only then may a new one be adopted.  Adoption of a pid the
    // OS never handed out fails cleanly and leaves no process owned.
    let r = dbg.attach_run(DEAD_PID);
    assert!(r.is_err());
    assert!(dbg.inferior.is_none());
}

#[test]
fn continue_and_backtrace_require_a_live_process() {
    let mut dbg = Debugger::new("target", table_with_main());
    assert_eq!(dbg.handle_continue(), Err(DebugError::NoProcess));
    match dbg.handle_backtrace() {
        Err(DebugError::NoProcess) => {}
        _ => panic!("backtrace with no process must be rejected"),
    }
}

#[test]
fn break_command_registers_stable_ids() {
    let mut dbg = Debugger::new("target", table_with_main());
    let first = dbg.handle_break("*0x400000").unwrap();
    assert_eq!(first.id, 0);
    assert_eq!(first.addr, 0x400000);
    assert!(!first.install_failed);
    let second = dbg.handle_break("main").unwrap();
    assert_eq!(second.id, 1);
    assert_eq!(second.addr, 0x3000);
    let third = dbg.handle_break("10").unwrap();
    assert_eq!(third.id, 2);
    assert_eq!(third.addr, 0x1000);
    assert_eq!(dbg.breakpoint, vec![0x400000, 0x3000, 0x1000]);
    // An unresolvable spec is an error and registers nothing.
    assert_eq!(
        dbg.handle_break("no_such_function").map(|r| r.addr),
        Err(DebugError::BadSpec)
    );
    assert_eq!(dbg.breakpoint.len(), 3);
}

#[test]
fn repeated_break_at_one_address_keeps_both_ids() {
    // Plain user input can name the same address twice; each command
    // still gets its own stable id, and ids are never reused.
    let mut dbg = Debugger::new("target", table_with_main());
    let first = dbg.handle_break("main").unwrap();
    let second = dbg.handle_break("main").unwrap();
    assert_eq!(first.id, 0);
    assert_eq!(second.id, 1);
    assert_eq!(first.addr, second.addr);
    assert_eq!(dbg.breakpoint, vec![0x3000, 0x3000]);
}

#[test]
fn kill_on_dead_process_never_panics() {
    let mut inf = Inferior { pid: DEAD_PID, breakpoint: HashMap::new() };
    inf.kill();
    inf.kill();
    assert_eq!(inf.pid(), DEAD_PID);
}

#[test]
fn memory_ops_on_dead_process_report_errors() {
    let inf = Inferior { pid: DEAD_PID, breakpoint: HashMap::new() };
    assert!(inf.read_word(0x1000).is_err());
    assert!(inf.write_byte(0x1000, 0xcc).is_err());
    assert!(inf.inferior_continue().is_err());
    assert!(inf.wait().is_err());
}
