//! A verified core for `interact`-style command-line filters.
//!
//! The library turns a pure text-to-text transformation into a function on
//! raw input bytes: the bytes are decoded as UTF-8 text, the transformation
//! is applied exactly once to the whole text, and the result is encoded back
//! to bytes.  Reading standard input and writing standard output stay outside
//! the library; a thin unverified shell hands the bytes in and out.
//!
//! [`interact_on`] is the adapter core.  [`count_lines`] and [`rev_lines`]
//! are the classic example filters (`wc -l` and `rev`), verified against a
//! sequence model of line splitting.

use vstd::prelude::*;

pub mod lines;
pub mod text;

verus! {

use crate::text::DecodeError;
use crate::text::string_from_utf8;
use crate::lines::dec_digits;
use crate::lines::join_lines;
use crate::lines::spec_lines;
use vstd::string::StrSliceExecFns;
use vstd::utf8::valid_utf8;
use vstd::utf8::decode_utf8;
use vstd::utf8::encode_utf8;
use vstd::utf8::decode_utf8_encode_utf8;

/// The adapter core: decode `input` as UTF-8 text, apply `f` exactly once to
/// the complete text, and return the UTF-8 encoding of the result.
///
/// The transformation is assumed total: it must accept every text.  When the
/// input bytes are not valid UTF-8, the transformation is never invoked and
/// the call fails with a [`DecodeError`]; no output is produced.
pub fn interact_on<F: Fn(String) -> String>(f: F, input: Vec<u8>) -> (r: Result<
    Vec<u8>,
    DecodeError,
>)
    requires
        forall|s: String| call_requires(f, (s,)),
    ensures
        r is Ok <==> valid_utf8(input@),
        r is Ok ==> exists|s: String, t: String|
            {
                &&& s@ == decode_utf8(input@)
                &&& #[trigger] call_ensures(f, (s,), t)
                &&& r->Ok_0@ == encode_utf8(t@)
            },
{
    match string_from_utf8(input) {
        None => Err(DecodeError),
        Some(text) => {
            let ghost text0 = text;
            let out = f(text);
            let bytes = out.as_str().as_bytes_vec();
            proof {
                assert(call_ensures(f, (text0,), out));
            }
            Ok(bytes)
        },
    }
}

/// The adapter with the identity transformation is a pass-through filter:
/// on valid UTF-8 input, the output bytes equal the input bytes.
pub fn interact_identity(input: Vec<u8>) -> (r: Result<Vec<u8>, DecodeError>)
    ensures
        r is Ok <==> valid_utf8(input@),
        r is Ok ==> r->Ok_0@ == input@,
{
    let ghost iv = input@;
    let f = |s: String| -> (t: String)
        ensures
            t == s,
        { s };
    let ghost g = f;
    let r = interact_on(f, input);
    proof {
        if r is Ok {
            let (s, t) = choose|s: String, t: String|
                {
                    &&& s@ == decode_utf8(iv)
                    &&& #[trigger] call_ensures(g, (s,), t)
                    &&& r->Ok_0@ == encode_utf8(t@)
                };
            assert(t == s);
            decode_utf8_encode_utf8(iv);
        }
    }
    r
}

/// The adapter with the [`crate::lines::count_lines`] filter: on valid
/// UTF-8 input, the output is the decimal line count followed by a newline.
pub fn interact_count_lines(input: Vec<u8>) -> (r: Result<Vec<u8>, DecodeError>)
    ensures
        r is Ok <==> valid_utf8(input@),
        r is Ok ==> r->Ok_0@ == encode_utf8(
            dec_digits(spec_lines(decode_utf8(input@)).len()).push('\n'),
        ),
{
    let ghost iv = input@;
    let r = interact_on(crate::lines::count_lines, input);
    proof {
        if r is Ok {
            let (s, t) = choose|s: String, t: String|
                {
                    &&& s@ == decode_utf8(iv)
                    &&& #[trigger] call_ensures(crate::lines::count_lines, (s,), t)
                    &&& r->Ok_0@ == encode_utf8(t@)
                };
            assert(t@ == dec_digits(spec_lines(s@).len()).push('\n'));
        }
    }
    r
}

/// The adapter with the [`crate::lines::rev_lines`] filter: on valid UTF-8
/// input, the output is each line reversed, line order kept, lines joined
/// with `'\n'`.
pub fn interact_rev_lines(input: Vec<u8>) -> (r: Result<Vec<u8>, DecodeError>)
    ensures
        r is Ok <==> valid_utf8(input@),
        r is Ok ==> r->Ok_0@ == encode_utf8(
            join_lines(spec_lines(decode_utf8(input@)).map_values(|l: Seq<char>| l.reverse())),
        ),
{
    let ghost iv = input@;
    let r = interact_on(crate::lines::rev_lines, input);
    proof {
        if r is Ok {
            let (s, t) = choose|s: String, t: String|
                {
                    &&& s@ == decode_utf8(iv)
                    &&& #[trigger] call_ensures(crate::lines::rev_lines, (s,), t)
                    &&& r->Ok_0@ == encode_utf8(t@)
                };
            assert(t@ == join_lines(spec_lines(s@).map_values(|l: Seq<char>| l.reverse())));
        }
    }
    r
}

} // verus!
