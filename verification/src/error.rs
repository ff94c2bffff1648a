//! Error types and utilities.

use vstd::prelude::*;
use vstd::string::StringExecFns;
use vstd::string::StrSliceExecFns;

verus! {

/// A collection of possible errors.
#[derive(Debug)]
pub enum Error {
    /// The queried memory is unmapped.
    ///
    /// This does not necessarily mean that the memory region is available
    /// for allocation. Besides OS-specific semantics, queried addresses
    /// outside of a process' address range are also identified as unmapped
    /// regions.
    UnmappedRegion,
    /// A supplied parameter is invalid.
    InvalidParameter(&'static str),
    /// A procfs region could not be parsed; carries the offending input.
    ProcfsInput(String),
    /// A system call failed; carries the reported OS error code.
    SystemCall(i32),
    /// A Mach kernel call failed; carries the non-success kernel return
    /// code, which lives in a code space distinct from generic OS errors.
    MachCall(i32),
}

/// The decimal digits of a number, most significant first.
pub open spec fn spec_decimal(n: nat) -> Seq<char>
    decreases n,
{
    let digit = "0123456789"@[n as int % 10];
    if n < 10 {
        seq![digit]
    } else {
        spec_decimal(n / 10).push(digit)
    }
}

/// The decimal rendering of a signed number: its digits, with a leading
/// minus sign when it is negative.
pub open spec fn spec_signed_decimal(v: int) -> Seq<char> {
    if v < 0 {
        seq!['-'] + spec_decimal((-v) as nat)
    } else {
        spec_decimal(v as nat)
    }
}

/// Appends the decimal digits of a number.
fn append_decimal(out: &mut String, n: usize)
    ensures
        final(out)@ == old(out)@ + spec_decimal(n as nat),
    decreases n,
{
    let digits = "0123456789";
    proof {
        reveal_strlit("0123456789");
    }
    if n >= 10 {
        append_decimal(out, n / 10);
    }
    let d = n % 10;
    out.append(digits.substring_char(d, d + 1));
    proof {
        if n >= 10 {
            assert(out@ =~= old(out)@ + spec_decimal(n as nat));
        } else {
            assert(out@ =~= old(out)@ + spec_decimal(n as nat));
        }
    }
}

impl Error {
    /// Renders the error as a short sentence naming its kind and, where
    /// one exists, its payload.
    pub fn to_text(&self) -> (r: String)
        ensures
            ({
                match self {
                    Error::UnmappedRegion => r@ == "Queried memory is unmapped"@,
                    Error::InvalidParameter(param) => r@ == "Invalid parameter value: "@ + param@,
                    Error::ProcfsInput(input) => r@ == "Invalid procfs input: "@ + input@,
                    Error::SystemCall(code) => r@ == "System call failed with code "@
                        + spec_signed_decimal(*code as int),
                    Error::MachCall(code) => r@ == "Mach kernel call failed with code "@
                        + spec_signed_decimal(*code as int),
                }
            }),
    {
        match self {
            Error::UnmappedRegion => String::from_str("Queried memory is unmapped"),
            Error::InvalidParameter(param) => {
                let mut out = String::from_str("Invalid parameter value: ");
                out.append(param);
                out
            },
            Error::ProcfsInput(input) => {
                let mut out = String::from_str("Invalid procfs input: ");
                out.append(input.as_str());
                out
            },
            Error::SystemCall(code) => {
                let mut out = String::from_str("System call failed with code ");
                append_signed_decimal(&mut out, *code);
                out
            },
            Error::MachCall(code) => {
                let mut out = String::from_str("Mach kernel call failed with code ");
                append_signed_decimal(&mut out, *code);
                out
            },
        }
    }
}

/// Appends the decimal rendering of a signed code.
fn append_signed_decimal(out: &mut String, v: i32)
    ensures
        final(out)@ == old(out)@ + spec_signed_decimal(v as int),
{
    let wide = v as i64;
    if wide < 0 {
        let minus = "-";
        proof {
            reveal_strlit("-");
        }
        out.append(minus);
        let magnitude = (-wide) as usize;
        append_decimal(out, magnitude);
        proof {
            assert(out@ =~= old(out)@ + spec_signed_decimal(v as int));
        }
    } else {
        append_decimal(out, v as usize);
    }
}

} // verus!
