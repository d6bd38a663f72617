use deet::symbols::{FuncSym, SymbolTable};
use deet::unwind::{unwind_frames, MemoryImage, MAX_FRAMES};

fn three_function_table() -> SymbolTable {
    SymbolTable {
        funcs: vec![
            FuncSym { name: "leaf".to_string(), low: 0x1000, high: 0x2000 },
            FuncSym { name: "middle".to_string(), low: 0x2000, high: 0x3000 },
            FuncSym { name: "main".to_string(), low: 0x3000, high: 0x4000 },
        ],
        lines: Vec::new(),
    }
}

#[test]
fn unwind_depth_two_chain_emits_three_frames() {
    let tbl = three_function_table();
    let mut mem = MemoryImage::new();
    // leaf's frame: saved return address into middle, saved prior frame
    // pointer.
    mem.push_word(0x7008, 0x2000);
    mem.push_word(0x7000, 0x7100);
    // middle's frame: saved return address into main.
    mem.push_word(0x7108, 0x3000);
    mem.push_word(0x7100, 0x7200);
    let frames = unwind_frames(&mem, &tbl, 0x1000, 0x7000);
    assert_eq!(frames.len(), 3);
    assert_eq!(frames[0].function, Some("leaf".to_string()));
    assert_eq!(frames[0].pc, 0x1000);
    assert_eq!(frames[1].function, Some("middle".to_string()));
    assert_eq!(frames[2].function, Some("main".to_string()));
}

#[test]
fn unwind_starting_at_entry_emits_one_frame() {
    let tbl = three_function_table();
    let mem = MemoryImage::new();
    let frames = unwind_frames(&mem, &tbl, 0x3000, 0x7000);
    assert_eq!(frames.len(), 1);
    assert_eq!(frames[0].function, Some("main".to_string()));
}

#[test]
fn corrupted_frame_pointer_halts_the_walk() {
    let tbl = three_function_table();
    // No readable words at all: the first step's reads fail.
    let mem = MemoryImage::new();
    let frames = unwind_frames(&mem, &tbl, 0x1000, 0xdead);
    assert_eq!(frames.len(), 1);
    assert_eq!(frames[0].function, Some("leaf".to_string()));
    // A frame pointer so high that following it would overflow also
    // halts at once.
    let frames = unwind_frames(&mem, &tbl, 0x1000, usize::MAX);
    assert_eq!(frames.len(), 1);
}

#[test]
fn unwind_without_entry_function_caps_at_depth_limit() {
    // A one-node cycle: the frame chain points back at itself and no
    // address ever resolves to the entry function.
    let tbl = SymbolTable::new();
    let mut mem = MemoryImage::new();
    mem.push_word(0x7008, 0x1000);
    mem.push_word(0x7000, 0x7000);
    let frames = unwind_frames(&mem, &tbl, 0x1000, 0x7000);
    assert_eq!(frames.len(), MAX_FRAMES);
    assert!(frames[0].function.is_none());
}

#[test]
fn memory_image_first_record_wins() {
    let mut mem = MemoryImage::new();
    assert_eq!(mem.read_word(0x10), None);
    mem.push_word(0x10, 7);
    mem.push_word(0x10, 9);
    assert_eq!(mem.read_word(0x10), Some(7));
    assert_eq!(mem.read_word(0x18), None);
}
