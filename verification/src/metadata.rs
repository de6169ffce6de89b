//! The layout metadata that a module built with
//! `-s EMIT_EMSCRIPTEN_METADATA=1` records in its last two globals.
use vstd::prelude::*;
use crate::layout::{align16, align_memory};

verus! {

/// The character of a decimal digit.
pub open spec fn digit_char(d: nat) -> char {
    (48 + d) as char
}

/// `n` written in decimal, without sign or padding.
pub open spec fn decimal(n: nat) -> Seq<char>
    decreases n,
{
    if n < 10 {
        seq![digit_char(n)]
    } else {
        decimal(n / 10).push(digit_char(n % 10))
    }
}

/// The message for a recorded value too small to be an address.
pub open spec fn unexpected_message(what: Seq<char>, value: u32) -> Seq<char> {
    "emscripten unexpected "@ + what + " "@ + decimal(value as nat)
}

/// `format!("emscripten unexpected {} {}", what, value)`: the text, then the
/// value in decimal.
#[verifier::external_body]
fn unexpected_value(what: &str, value: u32) -> (message: String)
    ensures
        message@ == unexpected_message(what@, value),
{
    format!("emscripten unexpected {} {}", what, value)
}

/// What the module's global initializers (each `Some` of an `i32` constant,
/// `None` for any other initializer, in index order) record: nothing unless
/// there are two globals and the last two are `i32` constants; then
/// `(dynamic_base, dynamictop_ptr)` from the last and the one before it,
/// each less 32 and rounded up to 16, or the error for the first of them
/// (in that order) that is below 32 as an unsigned number.
pub open spec fn recorded_metadata(initializers: Seq<Option<i32>>) -> Result<
    Option<(u32, u32)>,
    Seq<char>,
> {
    let n = initializers.len();
    if n < 2 {
        Ok(None)
    } else {
        match (initializers[n - 1], initializers[n - 2]) {
            (Some(base), Some(top)) => {
                let base = base as u32;
                let top = top as u32;
                if base < 32 {
                    Err(unexpected_message("dynamic_base"@, base))
                } else if top < 32 {
                    Err(unexpected_message("dynamictop_ptr"@, top))
                } else {
                    Ok(Some((align16(base - 32) as u32, align16(top - 32) as u32)))
                }
            },
            _ => Ok(None),
        }
    }
}

/// The metadata the module records, as [`recorded_metadata`] describes.
pub fn emscripten_metadata(initializers: &Vec<Option<i32>>) -> (metadata: Result<
    Option<(u32, u32)>,
    String,
>)
    ensures
        match (metadata, recorded_metadata(initializers@)) {
            (Ok(found), Ok(expected)) => found == expected,
            (Err(message), Err(expected)) => message@ == expected,
            _ => false,
        },
        initializers@.len() < 2 ==> metadata == Ok::<Option<(u32, u32)>, String>(None),
        initializers@.len() >= 2 && (initializers@[initializers@.len() - 1] is None
            || initializers@[initializers@.len() - 2] is None) ==> metadata == Ok::<
            Option<(u32, u32)>,
            String,
        >(None),
        metadata matches Ok(Some((base, top_ptr))) ==> {
            let n = initializers@.len();
            &&& n >= 2
            &&& initializers@[n - 1] matches Some(b) && b as u32 >= 32 && base % 16 == 0
                && (b as u32) - 32 <= base < (b as u32) - 32 + 16
            &&& initializers@[n - 2] matches Some(t) && t as u32 >= 32 && top_ptr % 16 == 0
                && (t as u32) - 32 <= top_ptr < (t as u32) - 32 + 16
        },
        metadata is Err ==> {
            let n = initializers@.len();
            &&& n >= 2
            &&& initializers@[n - 1] matches Some(b)
            &&& initializers@[n - 2] matches Some(t)
            &&& (b as u32) < 32 || (t as u32) < 32
        },
{
    let n = initializers.len();
    if n < 2 {
        return Ok(None);
    }
    match (initializers[n - 1], initializers[n - 2]) {
        (Some(base), Some(top)) => {
            let base = base as u32;
            let top = top as u32;
            if base < 32 {
                return Err(unexpected_value("dynamic_base", base));
            }
            if top < 32 {
                return Err(unexpected_value("dynamictop_ptr", top));
            }
            Ok(Some((align_memory(base - 32), align_memory(top - 32))))
        },
        _ => Ok(None),
    }
}

/// Only the last two globals decide: globals before them change nothing.
pub proof fn lemma_only_last_two_globals_count(
    earlier: Seq<Option<i32>>,
    before_last: Option<i32>,
    last: Option<i32>,
)
    ensures
        recorded_metadata(earlier + seq![before_last, last]) == recorded_metadata(
            seq![before_last, last],
        ),
{
    let all = earlier + seq![before_last, last];
    assert(all[all.len() - 1] == last);
    assert(all[all.len() - 2] == before_last);
}

/// When the module records metadata, each value is the recorded global less
/// 32, rounded up to a multiple of 16; when the last or the one before it is
/// not an `i32` constant, nothing is recorded.
pub proof fn lemma_recorded_values(initializers: Seq<Option<i32>>)
    ensures
        initializers.len() >= 2 && (initializers[initializers.len() - 1] is None
            || initializers[initializers.len() - 2] is None) ==> recorded_metadata(initializers)
            == Ok::<Option<(u32, u32)>, Seq<char>>(None),
        recorded_metadata(initializers) matches Ok(Some((base, top_ptr))) ==> {
            let n = initializers.len();
            &&& initializers[n - 1] matches Some(b) && base % 16 == 0 && (b as u32) - 32 <= base
                < (b as u32) - 32 + 16
            &&& initializers[n - 2] matches Some(t) && top_ptr % 16 == 0 && (t as u32) - 32
                <= top_ptr < (t as u32) - 32 + 16
        },
{
}

} // verus!
