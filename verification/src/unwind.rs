//! Frame-pointer-chain stack unwinding over an explicit memory image.
//!
//! The walk assumes the platform calling convention that keeps, at the
//! two machine words `[fp]` and `[fp + WORD_SIZE]`, the saved prior
//! frame pointer and the saved return address.  Starting from a program
//! counter and frame pointer it emits one frame per step, stops at the
//! program's entry function, caps the depth, and treats any failed
//! memory read or overflowing frame pointer as the end of the stack
//! rather than an error.

use vstd::prelude::*;

use crate::strutil::str_eq;
use crate::symbols::{Frame, SymbolTable, spec_function_for_address, spec_line_for_address};

verus! {

/// The most frames a single walk will ever emit.
pub const MAX_FRAMES: usize = 64;

/// A backtrace frame reduced to its mathematical content.
pub struct FrameV {
    pub pc: usize,
    pub function: Option<Seq<char>>,
    pub location: Option<(Seq<char>, usize)>,
}

impl View for Frame {
    type V = FrameV;

    open spec fn view(&self) -> FrameV {
        FrameV {
            pc: self.pc,
            function: match self.function {
                Some(name) => Some(name@),
                None => None,
            },
            location: match self.location {
                Some(loc) => Some((loc.file@, loc.line)),
                None => None,
            },
        }
    }
}

pub open spec fn frames_view(s: Seq<Frame>) -> Seq<FrameV> {
    s.map_values(|f: Frame| f@)
}

/// A word-addressed memory image: the first record for an address wins,
/// an address without a record cannot be read.
pub struct MemoryImage {
    pub words: Vec<(usize, u64)>,
}

/// The word a read of `addr` yields, or absence if the image has none.
pub open spec fn spec_mem_read(words: Seq<(usize, u64)>, addr: usize) -> Option<u64>
    decreases words.len(),
{
    if words.len() == 0 {
        None
    } else if words[0].0 == addr {
        Some(words[0].1)
    } else {
        spec_mem_read(words.drop_first(), addr)
    }
}

impl MemoryImage {
    /// An image with no readable words.
    pub fn new() -> (r: MemoryImage)
        ensures
            r.words@.len() == 0,
    {
        MemoryImage { words: Vec::new() }
    }

    /// Makes the word at `addr` readable (earlier records for the same
    /// address keep priority).
    pub fn push_word(&mut self, addr: usize, word: u64)
        ensures
            final(self).words@ == old(self).words@.push((addr, word)),
    {
        self.words.push((addr, word));
    }

    /// Reads the machine word at `addr`, or reports absence.
    pub fn read_word(&self, addr: usize) -> (r: Option<u64>)
        ensures
            r == spec_mem_read(self.words@, addr),
    {
        let n = self.words.len();
        let mut i: usize = 0;
        assert(self.words@.skip(0) =~= self.words@);
        while i < n
            invariant
                i <= n,
                n == self.words@.len(),
                spec_mem_read(self.words@.skip(i as int), addr) == spec_mem_read(
                    self.words@,
                    addr,
                ),
            decreases n - i,
        {
            assert(self.words@.skip(i as int)[0] == self.words@[i as int]);
            if self.words[i].0 == addr {
                return Some(self.words[i].1);
            }
            assert(self.words@.skip(i as int).drop_first() =~= self.words@.skip(i as int + 1));
            i += 1;
        }
        None
    }
}

/// Whether `pc` resolves to the program's designated entry function,
/// the walk's terminal case.
pub open spec fn spec_is_entry(tbl: SymbolTable, pc: usize) -> bool {
    spec_function_for_address(tbl.funcs@, pc) == Some("main"@)
}

/// The frame emitted for `pc`: whatever the resolver knows about it.
pub open spec fn spec_frame_at(tbl: SymbolTable, pc: usize) -> FrameV {
    FrameV {
        pc,
        function: spec_function_for_address(tbl.funcs@, pc),
        location: spec_line_for_address(tbl.lines@, pc),
    }
}

/// The exact sequence of frames a walk emits: one frame per step,
/// stopping at the entry function, at a frame pointer whose saved words
/// cannot be read, or when the fuel (the depth cap) runs out.
pub open spec fn spec_unwind(
    words: Seq<(usize, u64)>,
    tbl: SymbolTable,
    pc: usize,
    fp: usize,
    fuel: nat,
) -> Seq<FrameV>
    decreases fuel,
{
    if fuel == 0 {
        Seq::empty()
    } else {
        let fr = spec_frame_at(tbl, pc);
        if spec_is_entry(tbl, pc) {
            seq![fr]
        } else if fp > usize::MAX - 8 {
            seq![fr]
        } else {
            match (spec_mem_read(words, (fp + 8) as usize), spec_mem_read(words, fp)) {
                (Some(ret), Some(prior)) => seq![fr] + spec_unwind(
                    words,
                    tbl,
                    ret as usize,
                    prior as usize,
                    (fuel - 1) as nat,
                ),
                _ => seq![fr],
            }
        }
    }
}

/// Walks the frame-pointer chain of `mem` from `pc` and `fp`, emitting
/// exactly the frames that `spec_unwind` names, with the depth capped at
/// `MAX_FRAMES`.
pub fn unwind_frames(
    mem: &MemoryImage,
    tbl: &SymbolTable,
    start_pc: usize,
    start_fp: usize,
) -> (frames: Vec<Frame>)
    ensures
        frames_view(frames@) == spec_unwind(mem.words@, *tbl, start_pc, start_fp, MAX_FRAMES as nat),
{
    let mut frames: Vec<Frame> = Vec::new();
    let mut pc = start_pc;
    let mut fp = start_fp;
    let mut fuel: usize = MAX_FRAMES;
    assert(frames_view(frames@) =~= Seq::<FrameV>::empty());
    loop
        invariant_except_break
            frames_view(frames@) + spec_unwind(mem.words@, *tbl, pc, fp, fuel as nat)
                == spec_unwind(mem.words@, *tbl, start_pc, start_fp, MAX_FRAMES as nat),
        invariant
            fuel <= MAX_FRAMES,
        ensures
            frames_view(frames@) == spec_unwind(
                mem.words@,
                *tbl,
                start_pc,
                start_fp,
                MAX_FRAMES as nat,
            ),
        decreases fuel,
    {
        if fuel == 0 {
            proof {
                assert(frames_view(frames@) + Seq::<FrameV>::empty() =~= frames_view(frames@));
                assert(frames_view(frames@) == spec_unwind(mem.words@, *tbl, start_pc, start_fp, MAX_FRAMES as nat));
            }
            break;
        }
        let ghost pre_frames = frames@;
        let ghost tail = spec_unwind(mem.words@, *tbl, pc, fp, fuel as nat);
        let func = tbl.function_for_address(pc);
        let loc = tbl.line_for_address(pc);
        let is_entry = match &func {
            Some(name) => str_eq(name.as_str(), "main"),
            None => false,
        };
        let fr = Frame { pc, function: func, location: loc };
        proof {
            assert(fr@ == spec_frame_at(*tbl, pc));
            assert(is_entry == spec_is_entry(*tbl, pc));
        }
        frames.push(fr);
        proof {
            assert(frames_view(frames@) =~= frames_view(pre_frames).push(fr@));
        }
        if is_entry {
            proof {
                assert(tail =~= seq![fr@]);
                assert(frames_view(pre_frames).push(fr@) =~= frames_view(pre_frames) + seq![fr@]);
                assert(frames_view(frames@) == frames_view(pre_frames) + tail);
                assert(frames_view(frames@) == spec_unwind(mem.words@, *tbl, start_pc, start_fp, MAX_FRAMES as nat));
            }
            break;
        }
        if fp > usize::MAX - 8 {
            proof {
                assert(tail =~= seq![fr@]);
                assert(frames_view(pre_frames).push(fr@) =~= frames_view(pre_frames) + seq![fr@]);
                assert(frames_view(frames@) == frames_view(pre_frames) + tail);
                assert(frames_view(frames@) == spec_unwind(mem.words@, *tbl, start_pc, start_fp, MAX_FRAMES as nat));
            }
            break;
        }
        let ret = mem.read_word(fp + 8);
        let prior = mem.read_word(fp);
        match (ret, prior) {
            (Some(ret_word), Some(prior_word)) => {
                proof {
                    assert(tail =~= seq![fr@] + spec_unwind(
                        mem.words@,
                        *tbl,
                        ret_word as usize,
                        prior_word as usize,
                        (fuel - 1) as nat,
                    ));
                    assert(frames_view(pre_frames).push(fr@) + spec_unwind(
                        mem.words@,
                        *tbl,
                        ret_word as usize,
                        prior_word as usize,
                        (fuel - 1) as nat,
                    ) =~= frames_view(pre_frames) + tail);
                }
                pc = ret_word as usize;
                fp = prior_word as usize;
                fuel -= 1;
            }
            _ => {
                proof {
                    assert(tail =~= seq![fr@]);
                    assert(frames_view(pre_frames).push(fr@) =~= frames_view(pre_frames)
                        + seq![fr@]);
                    assert(frames_view(frames@) == frames_view(pre_frames) + tail);
                    assert(frames_view(frames@) == spec_unwind(mem.words@, *tbl, start_pc, start_fp, MAX_FRAMES as nat));
                }
                break;
            }
        }
    }
    frames
}

/// A well-formed synthetic frame chain of the given depth: `depth`
/// links, each with readable saved words, none of them the entry
/// function, ending at a frame whose program counter resolves to the
/// entry function.
pub open spec fn spec_frame_chain(
    words: Seq<(usize, u64)>,
    tbl: SymbolTable,
    pc: usize,
    fp: usize,
    depth: nat,
) -> bool
    decreases depth,
{
    if depth == 0 {
        spec_is_entry(tbl, pc)
    } else {
        &&& !spec_is_entry(tbl, pc)
        &&& fp <= usize::MAX - 8
        &&& spec_mem_read(words, (fp + 8) as usize) is Some
        &&& spec_mem_read(words, fp) is Some
        &&& spec_frame_chain(
            words,
            tbl,
            spec_mem_read(words, (fp + 8) as usize).unwrap() as usize,
            spec_mem_read(words, fp).unwrap() as usize,
            (depth - 1) as nat,
        )
    }
}

/// Unwinding a frame chain of depth `n` emits exactly `n + 1` frames,
/// as long as the chain is shorter than the fuel given to the walk.
pub proof fn lemma_unwind_chain_len(
    words: Seq<(usize, u64)>,
    tbl: SymbolTable,
    pc: usize,
    fp: usize,
    n: nat,
    fuel: nat,
)
    requires
        spec_frame_chain(words, tbl, pc, fp, n),
        n < fuel,
    ensures
        spec_unwind(words, tbl, pc, fp, fuel).len() == n + 1,
    decreases n,
{
    if n == 0 {
    } else {
        let ret = spec_mem_read(words, (fp + 8) as usize).unwrap();
        let prior = spec_mem_read(words, fp).unwrap();
        lemma_unwind_chain_len(
            words,
            tbl,
            ret as usize,
            prior as usize,
            (n - 1) as nat,
            (fuel - 1) as nat,
        );
    }
}

/// A corrupted frame: not the entry function, but the saved words at
/// its frame pointer cannot be read.  The walk halts at once, emitting
/// that one frame instead of looping.
pub proof fn lemma_unwind_halts_on_corrupt_frame(
    words: Seq<(usize, u64)>,
    tbl: SymbolTable,
    pc: usize,
    fp: usize,
    fuel: nat,
)
    requires
        fuel > 0,
        !spec_is_entry(tbl, pc),
        fp <= usize::MAX - 8 ==> spec_mem_read(words, (fp + 8) as usize) is None || spec_mem_read(
            words,
            fp,
        ) is None,
    ensures
        spec_unwind(words, tbl, pc, fp, fuel).len() == 1,
{
}

} // verus!
