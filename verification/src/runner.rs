//! The command launcher's pure logic: placeholder substitution in argument
//! lists and assembly of a launched process's captured output. The caller
//! spawns the process and captures the raw bytes; the output text is
//! decoded here from the legacy console encoding.

use vstd::prelude::*;
use vstd::string::StrSliceExecFns;
use vstd::string::StringExecFns;
use crate::text::{spec_trim, str_eq, trim_str};

verus! {

/// The placeholder token in a configured argument, meaning "substitute the
/// interactively entered text".
pub open spec fn placeholder() -> Seq<char> {
    "%INPUT%"@
}

pub open spec fn spec_has_placeholder(args: Seq<Seq<char>>) -> bool {
    exists|i: int| 0 <= i < args.len() && args[i] == placeholder()
}

/// Whether any argument is the placeholder token: such a command collects
/// input before it may run.
pub fn has_placeholder(args: &Vec<String>) -> (r: bool)
    ensures
        r == spec_has_placeholder(args.deep_view()),
{
    let n = args.len();
    let mut i: usize = 0;
    while i < n
        invariant
            0 <= i <= n,
            n == args@.len(),
            forall|k: int| 0 <= k < i ==> args.deep_view()[k] != placeholder(),
        decreases n - i,
    {
        if str_eq(args[i].as_str(), "%INPUT%") {
            assert(args.deep_view()[i as int] == placeholder());
            return true;
        }
        i = i + 1;
    }
    false
}

/// Every placeholder argument replaced by the entered text, all other
/// arguments kept verbatim, in order.
pub open spec fn spec_substitute(args: Seq<Seq<char>>, input: Seq<char>) -> Seq<Seq<char>> {
    Seq::new(
        args.len(),
        |i: int|
            if args[i] == placeholder() {
                input
            } else {
                args[i]
            },
    )
}

pub fn substitute_args(args: &Vec<String>, input: &str) -> (r: Vec<String>)
    ensures
        r.deep_view() == spec_substitute(args.deep_view(), input@),
{
    let n = args.len();
    let mut out: Vec<String> = Vec::new();
    let mut i: usize = 0;
    while i < n
        invariant
            0 <= i <= n,
            n == args@.len(),
            out@.len() == i,
            forall|k: int|
                0 <= k < i ==> (#[trigger] out@[k])@ == spec_substitute(
                    args.deep_view(),
                    input@,
                )[k],
        decreases n - i,
    {
        if str_eq(args[i].as_str(), "%INPUT%") {
            assert(args.deep_view()[i as int] == placeholder());
            out.push(input.to_owned());
        } else {
            assert(args.deep_view()[i as int] != placeholder());
            out.push(args[i].clone());
        }
        i = i + 1;
    }
    proof {
        assert(out.deep_view() =~~= spec_substitute(args.deep_view(), input@));
    }
    out
}

/// What IBM866 decoding of a whole buffer yields: a function of the bytes
/// alone.
pub uninterp spec fn ibm866_decoded(bytes: Seq<u8>) -> Seq<char>;

/// Relies on encoding_rs's `Encoding::decode` on the IBM866 encoding: the
/// result depends on the bytes alone, and an ASCII-only input (IBM866 is
/// ASCII-compatible, and ASCII bytes hold no byte-order mark) decodes to
/// the same characters.
#[verifier::external_body]
fn decode_ibm866(bytes: &[u8]) -> (r: String)
    ensures
        r@ == ibm866_decoded(bytes@),
        (forall|i: int| 0 <= i < bytes@.len() ==> bytes@[i] < 0x80) ==> r@ == Seq::new(
            bytes@.len(),
            |i: int| bytes@[i] as char,
        ),
{
    let (text, _, _) = encoding_rs::IBM866.decode(bytes);
    text.into_owned()
}

/// The combined output text: stdout, then a labeled stderr section when
/// there is any stderr text, trimmed; nothing when the trimmed result is
/// empty.
pub open spec fn spec_compose_output(out: Seq<char>, err: Seq<char>) -> Option<Seq<char>> {
    let combined = if err.len() == 0 {
        out
    } else {
        out + "\nERROR:\n"@ + err
    };
    if spec_trim(combined).len() == 0 {
        None
    } else {
        Some(spec_trim(combined))
    }
}

/// Combine decoded stdout and stderr text into the log text to deliver,
/// exactly as `spec_compose_output` prescribes.
pub fn compose_output(out_text: &str, err_text: &str) -> (r: Option<String>)
    ensures
        match r {
            Some(s) => spec_compose_output(out_text@, err_text@) == Some(s@),
            None => spec_compose_output(out_text@, err_text@) is None,
        },
{
    let mut combined = out_text.to_owned();
    if !err_text.is_empty() {
        combined.append("\nERROR:\n");
        combined.append(err_text);
        proof {
            assert(combined@ =~= out_text@ + "\nERROR:\n"@ + err_text@);
        }
    }
    let trimmed = trim_str(combined.as_str());
    if trimmed.is_empty() {
        None
    } else {
        Some(trimmed.to_owned())
    }
}

/// The model of `assemble_command_output` over the raw captured bytes.
pub open spec fn spec_assemble_output(out_bytes: Seq<u8>, err_bytes: Seq<u8>) -> Option<
    Seq<char>,
> {
    spec_compose_output(ibm866_decoded(out_bytes), ibm866_decoded(err_bytes))
}

/// Decode a finished process's captured stdout and stderr from the legacy
/// console encoding and combine them into the log text to deliver;
/// `None` means nothing worth logging came out.
pub fn assemble_command_output(stdout: &[u8], stderr: &[u8]) -> (r: Option<String>)
    ensures
        match r {
            Some(s) => spec_assemble_output(stdout@, stderr@) == Some(s@),
            None => spec_assemble_output(stdout@, stderr@) is None,
        },
{
    let out_text = decode_ibm866(stdout);
    let err_text = decode_ibm866(stderr);
    compose_output(out_text.as_str(), err_text.as_str())
}

} // verus!
