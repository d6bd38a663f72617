//! The symbol resolver's data, modelled as plain values.
//!
//! The debugger consumes a symbol resolver that maps addresses to source
//! lines and function names and back.  Here its answers are drawn from
//! an explicit table of address ranges, so every lookup has an exact
//! meaning: the first entry of the table that matches wins, and an
//! unmapped input yields absence, never an error.

use vstd::prelude::*;

use crate::strutil::str_eq;

verus! {

/// A function's name and the half-open address range [low, high) of its
/// machine code.
pub struct FuncSym {
    pub name: String,
    pub low: usize,
    pub high: usize,
}

/// A source line and the half-open address range [low, high) of the
/// machine code compiled from it.
pub struct LineSym {
    pub file: String,
    pub line: usize,
    pub low: usize,
    pub high: usize,
}

/// A resolved source position.
pub struct Location {
    pub file: String,
    pub line: usize,
}

/// One emitted backtrace frame: the program counter and whatever the
/// resolver knew about it.
pub struct Frame {
    pub pc: usize,
    pub function: Option<String>,
    pub location: Option<Location>,
}

/// The resolver's table: function symbols and line records.
pub struct SymbolTable {
    pub funcs: Vec<FuncSym>,
    pub lines: Vec<LineSym>,
}

pub open spec fn func_covers(f: FuncSym, addr: usize) -> bool {
    f.low <= addr < f.high
}

pub open spec fn line_covers(l: LineSym, addr: usize) -> bool {
    l.low <= addr < l.high
}

/// The name of the first function symbol whose range covers `addr`.
pub open spec fn spec_function_for_address(funcs: Seq<FuncSym>, addr: usize) -> Option<Seq<char>>
    decreases funcs.len(),
{
    if funcs.len() == 0 {
        None
    } else if func_covers(funcs[0], addr) {
        Some(funcs[0].name@)
    } else {
        spec_function_for_address(funcs.drop_first(), addr)
    }
}

/// The file and line of the first line record whose range covers `addr`.
pub open spec fn spec_line_for_address(lines: Seq<LineSym>, addr: usize) -> Option<
    (Seq<char>, usize),
>
    decreases lines.len(),
{
    if lines.len() == 0 {
        None
    } else if line_covers(lines[0], addr) {
        Some((lines[0].file@, lines[0].line))
    } else {
        spec_line_for_address(lines.drop_first(), addr)
    }
}

/// The entry address of the first function symbol with this name.
pub open spec fn spec_address_for_function(funcs: Seq<FuncSym>, name: Seq<char>) -> Option<usize>
    decreases funcs.len(),
{
    if funcs.len() == 0 {
        None
    } else if funcs[0].name@ == name {
        Some(funcs[0].low)
    } else {
        spec_address_for_function(funcs.drop_first(), name)
    }
}

/// The start address of the first line record for this source line.
pub open spec fn spec_address_for_line(lines: Seq<LineSym>, line: usize) -> Option<usize>
    decreases lines.len(),
{
    if lines.len() == 0 {
        None
    } else if lines[0].line == line {
        Some(lines[0].low)
    } else {
        spec_address_for_line(lines.drop_first(), line)
    }
}

impl SymbolTable {
    /// An empty table: every lookup yields absence.
    pub fn new() -> (r: SymbolTable)
        ensures
            r.funcs@.len() == 0,
            r.lines@.len() == 0,
    {
        SymbolTable { funcs: Vec::new(), lines: Vec::new() }
    }

    /// The name of the function containing `addr`, or absence if no
    /// function symbol covers it.
    pub fn function_for_address(&self, addr: usize) -> (r: Option<String>)
        ensures
            match r {
                Some(name) => spec_function_for_address(self.funcs@, addr) == Some(name@),
                None => spec_function_for_address(self.funcs@, addr) is None,
            },
    {
        let n = self.funcs.len();
        let mut i: usize = 0;
        assert(self.funcs@.skip(0) =~= self.funcs@);
        while i < n
            invariant
                i <= n,
                n == self.funcs@.len(),
                spec_function_for_address(self.funcs@.skip(i as int), addr)
                    == spec_function_for_address(self.funcs@, addr),
            decreases n - i,
        {
            let f = &self.funcs[i];
            assert(self.funcs@.skip(i as int)[0] == self.funcs@[i as int]);
            if f.low <= addr && addr < f.high {
                return Some(f.name.clone());
            }
            assert(self.funcs@.skip(i as int).drop_first() =~= self.funcs@.skip(i as int + 1));
            i += 1;
        }
        None
    }

    /// The source position of `addr`, or absence if no line record
    /// covers it.
    pub fn line_for_address(&self, addr: usize) -> (r: Option<Location>)
        ensures
            match r {
                Some(loc) => spec_line_for_address(self.lines@, addr) == Some((loc.file@, loc.line)),
                None => spec_line_for_address(self.lines@, addr) is None,
            },
    {
        let n = self.lines.len();
        let mut i: usize = 0;
        assert(self.lines@.skip(0) =~= self.lines@);
        while i < n
            invariant
                i <= n,
                n == self.lines@.len(),
                spec_line_for_address(self.lines@.skip(i as int), addr)
                    == spec_line_for_address(self.lines@, addr),
            decreases n - i,
        {
            let l = &self.lines[i];
            assert(self.lines@.skip(i as int)[0] == self.lines@[i as int]);
            if l.low <= addr && addr < l.high {
                return Some(Location { file: l.file.clone(), line: l.line });
            }
            assert(self.lines@.skip(i as int).drop_first() =~= self.lines@.skip(i as int + 1));
            i += 1;
        }
        None
    }

    /// The entry address of the function with this name, or absence if
    /// the table has none.
    pub fn address_for_function(&self, name: &str) -> (r: Option<usize>)
        ensures
            r == spec_address_for_function(self.funcs@, name@),
    {
        let n = self.funcs.len();
        let mut i: usize = 0;
        assert(self.funcs@.skip(0) =~= self.funcs@);
        while i < n
            invariant
                i <= n,
                n == self.funcs@.len(),
                spec_address_for_function(self.funcs@.skip(i as int), name@)
                    == spec_address_for_function(self.funcs@, name@),
            decreases n - i,
        {
            let f = &self.funcs[i];
            assert(self.funcs@.skip(i as int)[0] == self.funcs@[i as int]);
            if str_eq(f.name.as_str(), name) {
                return Some(f.low);
            }
            assert(self.funcs@.skip(i as int).drop_first() =~= self.funcs@.skip(i as int + 1));
            i += 1;
        }
        None
    }

    /// The start address of the machine code for this source line, or
    /// absence if the table has no record of it.
    pub fn address_for_line(&self, line: usize) -> (r: Option<usize>)
        ensures
            r == spec_address_for_line(self.lines@, line),
    {
        let n = self.lines.len();
        let mut i: usize = 0;
        assert(self.lines@.skip(0) =~= self.lines@);
        while i < n
            invariant
                i <= n,
                n == self.lines@.len(),
                spec_address_for_line(self.lines@.skip(i as int), line)
                    == spec_address_for_line(self.lines@, line),
            decreases n - i,
        {
            let l = &self.lines[i];
            assert(self.lines@.skip(i as int)[0] == self.lines@[i as int]);
            if l.line == line {
                return Some(l.low);
            }
            assert(self.lines@.skip(i as int).drop_first() =~= self.lines@.skip(i as int + 1));
            i += 1;
        }
        None
    }
}

} // verus!
