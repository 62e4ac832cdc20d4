//! Decisions the command line makes about its arguments.

use vstd::prelude::*;
use crate::models::{Quant, parse_quant as quant_of, quant_hint};
use crate::fit::{FitLevel, parse_fit, fit_hint};
use crate::text::{chars_of, parse_nat, parse_u64, trim, trim_vec};

verus! {

pub open spec fn unknown_text(what: Seq<char>, given: Seq<char>, accepted: Seq<char>) -> Seq<char> {
    "unknown "@ + what + " '"@ + given + "' (try: "@ + accepted + ")"@
}

/// The message for a value the command line does not recognise.
pub fn unknown(what: &str, given: &str, accepted: &str) -> (r: String)
    ensures
        r@ == unknown_text(what@, given@, accepted@),
{
    let mut r = crate::text::owned("unknown ");
    r.append(what);
    r.append(" '");
    r.append(given);
    r.append("' (try: ");
    r.append(accepted);
    r.append(")");
    r
}

/// A `--quant` argument.
pub fn parse_quant(raw: &str) -> (r: Result<Quant, String>)
    ensures
        quant_of(raw@) matches Some(q) ==> r == Ok::<Quant, String>(q),
        quant_of(raw@) is None ==> (r matches Err(e) && e@ == unknown_text("quantization"@, raw@, quant_hint())),
{
    match Quant::parse(raw) {
        Some(q) => Ok(q),
        None => Err(unknown("quantization", raw, Quant::hint().as_str())),
    }
}

/// The least fit a listing asks for: `--perfect` wins, then an explicit
/// `--min-fit`, then `--runnable` (which means at least marginal).
pub fn resolve_min_fit(perfect: bool, runnable: bool, min_fit: Option<&str>) -> (r: Result<Option<FitLevel>, String>)
    ensures
        perfect ==> r == Ok::<Option<FitLevel>, String>(Some(FitLevel::Perfect)),
        !perfect && min_fit is Some ==> match parse_fit(min_fit.unwrap()@) {
            Some(f) => r == Ok::<Option<FitLevel>, String>(Some(f)),
            None => r matches Err(e) && e@ == unknown_text("fit level"@, min_fit.unwrap()@, fit_hint()),
        },
        !perfect && min_fit is None && runnable ==> r == Ok::<Option<FitLevel>, String>(Some(FitLevel::Marginal)),
        !perfect && min_fit is None && !runnable ==> r == Ok::<Option<FitLevel>, String>(None),
{
    if perfect {
        return Ok(Some(FitLevel::Perfect));
    }
    if let Some(raw) = min_fit {
        return match FitLevel::parse(raw) {
            Some(f) => Ok(Some(f)),
            None => Err(unknown("fit level", raw, FitLevel::hint())),
        };
    }
    if runnable {
        return Ok(Some(FitLevel::Marginal));
    }
    Ok(None)
}


/// The context cap for a run: the `--max-context` flag, else the value of
/// `OLLAMA_CONTEXT_LENGTH` when it reads as a number.
pub open spec fn context_cap_of(flag: Option<u32>, env_value: Option<Seq<char>>) -> Option<u32> {
    match flag {
        Some(n) => Some(n),
        None => match env_value {
            Some(v) => match parse_nat(trim(v)) {
                Some(n) => if n <= u32::MAX { Some(n as u32) } else { None },
                None => None,
            },
            None => None,
        },
    }
}

pub fn context_cap(flag: Option<u32>, env_value: Option<&str>) -> (r: Option<u32>)
    ensures
        r == context_cap_of(flag, match env_value {
            Some(v) => Some(v@),
            None => None,
        }),
{
    match flag {
        Some(n) => Some(n),
        None => match env_value {
            None => None,
            Some(v) => {
                let t = trim_vec(chars_of(v).as_slice());
                match parse_u64(t.as_slice()) {
                    Some(n) => if n <= u32::MAX as u64 {
                        Some(n as u32)
                    } else {
                        None
                    },
                    None => None,
                }
            },
        },
    }
}
} // verus!
