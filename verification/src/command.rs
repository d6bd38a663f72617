//! The textual command surface: one command per line, already split
//! into whitespace-separated tokens, plus the numeric literal parsers
//! the break command needs.

use vstd::prelude::*;

use crate::strutil::str_eq;
use vstd::string::StringSliceAdditionalSpecFns;

verus! {

/// A recognised debugger command.
pub enum DebuggerCommand {
    Quit,
    Run(Vec<String>),
    Continue,
    Backtrace,
    Break(String),
}

/// A command reduced to its mathematical content.
pub enum CommandV {
    Quit,
    Run(Seq<Seq<char>>),
    Continue,
    Backtrace,
    Break(Seq<char>),
}

impl View for DebuggerCommand {
    type V = CommandV;

    open spec fn view(&self) -> CommandV {
        match self {
            DebuggerCommand::Quit => CommandV::Quit,
            DebuggerCommand::Run(args) => CommandV::Run(args.deep_view()),
            DebuggerCommand::Continue => CommandV::Continue,
            DebuggerCommand::Backtrace => CommandV::Backtrace,
            DebuggerCommand::Break(spec_str) => CommandV::Break(spec_str@),
        }
    }
}

/// Which command a token list names: the first token selects the
/// command (with its aliases), a run command takes the remaining tokens
/// as arguments, a break command requires one argument.
pub open spec fn spec_from_tokens(tokens: Seq<&str>) -> Option<CommandV> {
    if tokens.len() == 0 {
        None
    } else {
        let t = tokens[0]@;
        if t == "q"@ || t == "quit"@ {
            Some(CommandV::Quit)
        } else if t == "r"@ || t == "run"@ {
            Some(CommandV::Run(tokens.skip(1).map_values(|s: &str| s@)))
        } else if t == "c"@ || t == "continue"@ || t == "cont"@ {
            Some(CommandV::Continue)
        } else if t == "bt"@ || t == "back"@ || t == "backtrace"@ {
            Some(CommandV::Backtrace)
        } else if t == "break"@ || t == "b"@ {
            if tokens.len() >= 2 {
                Some(CommandV::Break(tokens[1]@))
            } else {
                None
            }
        } else {
            None
        }
    }
}

impl DebuggerCommand {
    /// Parses one tokenized input line; unrecognised input (including a
    /// break command without an argument) is rejected with absence.
    pub fn from_tokens(tokens: &Vec<&str>) -> (r: Option<DebuggerCommand>)
        ensures
            match r {
                Some(cmd) => spec_from_tokens(tokens@) == Some(cmd@),
                None => spec_from_tokens(tokens@) is None,
            },
    {
        if tokens.len() == 0 {
            return None;
        }
        let t = tokens[0];
        if str_eq(t, "q") || str_eq(t, "quit") {
            Some(DebuggerCommand::Quit)
        } else if str_eq(t, "r") || str_eq(t, "run") {
            let mut args: Vec<String> = Vec::new();
            let mut i: usize = 1;
            while i < tokens.len()
                invariant
                    1 <= i <= tokens.len(),
                    args.deep_view() == tokens@.subrange(1, i as int).map_values(|s: &str| s@),
                decreases tokens.len() - i,
            {
                let ghost pre = args.deep_view();
                args.push(tokens[i].to_owned());
                proof {
                    assert(args.deep_view() =~= pre.push(tokens@[i as int]@));
                    assert(tokens@.subrange(1, i as int + 1).map_values(|s: &str| s@) =~= tokens@
                        .subrange(1, i as int)
                        .map_values(|s: &str| s@)
                        .push(tokens@[i as int]@));
                }
                i += 1;
            }
            proof {
                assert(tokens@.subrange(1, tokens@.len() as int) =~= tokens@.skip(1));
            }
            Some(DebuggerCommand::Run(args))
        } else if str_eq(t, "c") || str_eq(t, "continue") || str_eq(t, "cont") {
            Some(DebuggerCommand::Continue)
        } else if str_eq(t, "bt") || str_eq(t, "back") || str_eq(t, "backtrace") {
            Some(DebuggerCommand::Backtrace)
        } else if str_eq(t, "break") || str_eq(t, "b") {
            if tokens.len() >= 2 {
                Some(DebuggerCommand::Break(tokens[1].to_owned()))
            } else {
                None
            }
        } else {
            None
        }
    }
}

/// The numeric value of a hexadecimal digit byte, or 16 for any other
/// byte (16 marks "not a digit").
pub open spec fn hex_digit_val(b: u8) -> int {
    if 48 <= b <= 57 {  // '0' ..= '9'
        b - 48
    } else if 97 <= b <= 102 {  // 'a' ..= 'f'
        b - 87
    } else if 65 <= b <= 70 {  // 'A' ..= 'F'
        b - 55
    } else {
        16
    }
}

pub open spec fn is_hex_digit(b: u8) -> bool {
    hex_digit_val(b) < 16
}

/// The numeric value of a decimal digit byte, or 10 for any other byte.
pub open spec fn dec_digit_val(b: u8) -> int {
    if 48 <= b <= 57 {
        b - 48
    } else {
        10
    }
}

pub open spec fn is_dec_digit(b: u8) -> bool {
    dec_digit_val(b) < 10
}

/// The value of a digit string read most significant first, in the
/// given base, counting non-digits as their marker value.
pub open spec fn digits_val(bs: Seq<u8>, base: int, dv: spec_fn(u8) -> int) -> int
    decreases bs.len(),
{
    if bs.len() == 0 {
        0
    } else {
        digits_val(bs.drop_last(), base, dv) * base + dv(bs.last())
    }
}

pub proof fn lemma_digits_val_nonneg(bs: Seq<u8>, base: int, dv: spec_fn(u8) -> int)
    requires
        base >= 1,
        forall|b: u8| #[trigger] dv(b) >= 0,
    ensures
        digits_val(bs, base, dv) >= 0,
    decreases bs.len(),
{
    if bs.len() > 0 {
        lemma_digits_val_nonneg(bs.drop_last(), base, dv);
    }
}

/// A digit string's value never shrinks as more digits follow.
pub proof fn lemma_digits_val_prefix_le(bs: Seq<u8>, i: int, base: int, dv: spec_fn(u8) -> int)
    requires
        base >= 1,
        forall|b: u8| #[trigger] dv(b) >= 0,
        0 <= i <= bs.len(),
    ensures
        digits_val(bs.take(i), base, dv) <= digits_val(bs, base, dv),
    decreases bs.len() - i,
{
    if i < bs.len() {
        let v = digits_val(bs.take(i), base, dv);
        lemma_digits_val_nonneg(bs.take(i), base, dv);
        assert(bs.take(i + 1).drop_last() =~= bs.take(i));
        assert(bs.take(i + 1).last() == bs[i]);
        assert(dv(bs[i]) >= 0);
        assert(v * base >= v) by (nonlinear_arith)
            requires
                base >= 1,
                v >= 0,
        ;
        assert(digits_val(bs.take(i + 1), base, dv) == v * base + dv(bs[i]));
        lemma_digits_val_prefix_le(bs, i + 1, base, dv);
    } else {
        assert(bs.take(i) =~= bs);
    }
}

/// Whether the byte string starts with a hexadecimal prefix marker,
/// "0x" or "0X".
pub open spec fn has_hex_prefix(bs: Seq<u8>) -> bool {
    bs.len() >= 2 && bs[0] == 48 && (bs[1] == 120 || bs[1] == 88)
}

/// The digit portion of a hexadecimal literal: everything after the
/// optional "0x"/"0X" prefix.
pub open spec fn spec_hex_digits(bs: Seq<u8>) -> Seq<u8> {
    if has_hex_prefix(bs) {
        bs.skip(2)
    } else {
        bs
    }
}

/// What parsing a hexadecimal literal yields: an optional "0x"/"0X"
/// prefix followed by at least one hexadecimal digit, whose value fits
/// in an address; anything else is rejected.
pub open spec fn spec_parse_hex(bs: Seq<u8>) -> Option<usize> {
    let digits = spec_hex_digits(bs);
    if digits.len() > 0 && (forall|k: int| 0 <= k < digits.len() ==> is_hex_digit(digits[k]))
        && digits_val(digits, 16, |b: u8| hex_digit_val(b)) <= usize::MAX {
        Some(digits_val(digits, 16, |b: u8| hex_digit_val(b)) as usize)
    } else {
        None
    }
}

/// What parsing a decimal literal yields: at least one decimal digit,
/// whose value fits; anything else is rejected.
pub open spec fn spec_parse_dec(bs: Seq<u8>) -> Option<usize> {
    if bs.len() > 0 && (forall|k: int| 0 <= k < bs.len() ==> is_dec_digit(bs[k])) && digits_val(
        bs,
        10,
        |b: u8| dec_digit_val(b),
    ) <= usize::MAX {
        Some(digits_val(bs, 10, |b: u8| dec_digit_val(b)) as usize)
    } else {
        None
    }
}

/// Parses the bytes from `start` on as a hexadecimal literal.
pub fn parse_hex_bytes(bs: &[u8], start: usize) -> (r: Option<usize>)
    requires
        start <= bs@.len(),
    ensures
        r == spec_parse_hex(bs@.skip(start as int)),
{
    let ghost whole = bs@.skip(start as int);
    let n = bs.len();
    let ds: usize = if n - start >= 2 && bs[start] == 48 && (bs[start + 1] == 120 || bs[start + 1]
        == 88) {
        start + 2
    } else {
        start
    };
    let ghost digits = bs@.skip(ds as int);
    let ghost dv = |b: u8| hex_digit_val(b);
    proof {
        assert(whole.len() == n - start);
        if whole.len() >= 2 {
            assert(whole[0] == bs@[start as int]);
            assert(whole[1] == bs@[start as int + 1]);
        }
        if has_hex_prefix(whole) {
            assert(digits =~= whole.skip(2));
        } else {
            assert(digits =~= whole);
        }
        assert(forall|b: u8| #[trigger] dv(b) >= 0);
    }
    if ds == n {
        return None;
    }
    let mut acc: usize = 0;
    let mut i: usize = ds;
    proof {
        assert(digits.take(0) =~= Seq::<u8>::empty());
    }
    while i < n
        invariant
            ds <= i <= n,
            start <= ds,
            n == bs@.len(),
            whole == bs@.skip(start as int),
            digits == bs@.skip(ds as int),
            digits == spec_hex_digits(whole),
            digits.len() == n - ds,
            dv == (|b: u8| hex_digit_val(b)),
            acc == digits_val(digits.take(i - ds), 16, dv),
            forall|k: int| 0 <= k < i - ds ==> is_hex_digit(digits[k]),
        decreases n - i,
    {
        let b = bs[i];
        assert(digits[i - ds] == bs@[i as int]);
        let d: u8 = if 48 <= b && b <= 57 {
            b - 48
        } else if 97 <= b && b <= 102 {
            b - 87
        } else if 65 <= b && b <= 70 {
            b - 55
        } else {
            16
        };
        assert(d == hex_digit_val(b));
        if d >= 16 {
            proof {
                assert(0 <= i - ds < digits.len());
                assert(!is_hex_digit(digits[i - ds]));
                assert(!(forall|k: int| 0 <= k < digits.len() ==> is_hex_digit(digits[k])));
                assert(spec_parse_hex(whole) is None);
            }
            return None;
        }
        proof {
            assert(digits.take(i - ds + 1).drop_last() =~= digits.take(i - ds));
            assert(digits.take(i - ds + 1).last() == digits[i - ds]);
            assert(digits_val(digits.take(i - ds + 1), 16, dv) == acc * 16 + d);
        }
        if acc > (usize::MAX - (d as usize)) / 16 {
            proof {
                assert(acc * 16 + d > usize::MAX) by (nonlinear_arith)
                    requires
                        acc > (usize::MAX - (d as usize)) / 16,
                        d < 16,
                ;
                lemma_digits_val_prefix_le(digits, i - ds + 1, 16, dv);
                assert(digits_val(digits, 16, dv) > usize::MAX);
            }
            return None;
        }
        acc = acc * 16 + (d as usize);
        i += 1;
    }
    proof {
        assert(digits.take(n - ds) =~= digits);
    }
    Some(acc)
}

/// Parses the bytes as a decimal literal.
pub fn parse_dec_bytes(bs: &[u8]) -> (r: Option<usize>)
    ensures
        r == spec_parse_dec(bs@),
{
    let n = bs.len();
    if n == 0 {
        return None;
    }
    let ghost dv = |b: u8| dec_digit_val(b);
    proof {
        assert(forall|b: u8| #[trigger] dv(b) >= 0);
    }
    let mut acc: usize = 0;
    let mut i: usize = 0;
    proof {
        assert(bs@.take(0) =~= Seq::<u8>::empty());
    }
    while i < n
        invariant
            i <= n,
            n == bs@.len(),
            dv == (|b: u8| dec_digit_val(b)),
            acc == digits_val(bs@.take(i as int), 10, dv),
            forall|k: int| 0 <= k < i ==> is_dec_digit(bs@[k]),
        decreases n - i,
    {
        let b = bs[i];
        if b < 48 || b > 57 {
            proof {
                assert(!is_dec_digit(bs@[i as int]));
            }
            return None;
        }
        let d: u8 = b - 48;
        assert(d == dec_digit_val(b));
        proof {
            assert(bs@.take(i as int + 1).drop_last() =~= bs@.take(i as int));
            assert(bs@.take(i as int + 1).last() == bs@[i as int]);
            assert(digits_val(bs@.take(i as int + 1), 10, dv) == acc * 10 + d);
        }
        if acc > (usize::MAX - (d as usize)) / 10 {
            proof {
                assert(acc * 10 + d > usize::MAX) by (nonlinear_arith)
                    requires
                        acc > (usize::MAX - (d as usize)) / 10,
                        d < 10,
                ;
                lemma_digits_val_prefix_le(bs@, i as int + 1, 10, dv);
                assert(digits_val(bs@, 10, dv) > usize::MAX);
            }
            return None;
        }
        acc = acc * 10 + (d as usize);
        i += 1;
    }
    proof {
        assert(bs@.take(n as int) =~= bs@);
    }
    Some(acc)
}

/// Parses a hexadecimal address literal, with an optional "0x"/"0X"
/// prefix, as the break command's literal-address form writes it.
pub fn parse_address(addr: &str) -> (r: Option<usize>)
    ensures
        r == spec_parse_hex(addr.spec_bytes()),
{
    let bs = addr.as_bytes();
    proof {
        assert(bs@.skip(0) =~= bs@);
    }
    parse_hex_bytes(bs, 0)
}

} // verus!
