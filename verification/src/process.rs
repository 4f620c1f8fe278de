//! What a finished process left behind, and what is made of it.

use crate::exit::{infra, Failure};
use crate::text;
use vstd::prelude::*;

verus! {

/// What a process left behind: whether and how it exited, and what it printed.
#[derive(Debug)]
pub struct Output {
    /// Whether it exited with code zero.
    pub success: bool,
    /// Its exit code, where it has one: a process ended by a signal does not.
    pub code: Option<i32>,
    pub stdout: Vec<u8>,
    pub stderr: Vec<u8>,
}

/// What `String::from_utf8_lossy` makes of bytes.
pub uninterp spec fn lossy_text(bytes: Seq<u8>) -> Seq<char>;

/// `String::from_utf8_lossy`: bytes as text. Valid UTF-8 is decoded as it is;
/// what stands for an invalid stretch is left to that function, and is the same
/// for the same bytes.
#[verifier::external_body]
pub(crate) fn lossy(bytes: &[u8]) -> (r: String)
    ensures
        r@ == lossy_text(bytes@),
        vstd::utf8::valid_utf8(bytes@) ==> r@ == vstd::utf8::decode_utf8(bytes@),
{
    String::from_utf8_lossy(bytes).into_owned()
}

/// What the error of `String::from_utf8` says of bytes that are not UTF-8.
pub uninterp spec fn utf8_complaint(bytes: Seq<u8>) -> Seq<char>;

/// `String::from_utf8`: the text that the bytes encode, or an error exactly
/// where they are not valid UTF-8.
#[verifier::external_body]
pub(crate) fn utf8(bytes: Vec<u8>) -> (r: Result<String, String>)
    ensures
        match r {
            Ok(s) => vstd::utf8::valid_utf8(bytes@) && s@ == vstd::utf8::decode_utf8(bytes@),
            Err(e) => !vstd::utf8::valid_utf8(bytes@) && e@ == utf8_complaint(bytes@),
        },
{
    String::from_utf8(bytes).map_err(|e| e.to_string())
}

/// What a failed run of a tool is reported as.
pub open spec fn tool_failed(tool: Seq<char>, args: Seq<Seq<char>>, stderr: Seq<u8>) -> Seq<char> {
    tool + " "@ + text::joined(args, " "@) + " failed: "@ + text::trim(lossy_text(stderr))
}

/// Whether a run of a tool succeeded, with what it complained of where it did
/// not.
pub fn succeeded(tool: &str, args: &[String], out: &Output) -> (r: Result<(), Failure>)
    ensures
        match r {
            Ok(_) => out.success,
            Err(e) => !out.success && e is Infra && e.says() == tool_failed(
                tool@,
                text::views(args@),
                out.stderr@,
            ),
        },
{
    if out.success {
        return Ok(());
    }
    let mut msg = tool.to_owned();
    msg.append(" ");
    msg.append(text::join(args, " ").as_str());
    msg.append(" failed: ");
    msg.append(text::trimmed(lossy(&out.stderr).as_str()).as_str());
    Err(infra(msg))
}

/// What a run of a tool that must succeed printed: the text of it, or why there
/// is none.
pub open spec fn printed(
    tool: Seq<char>,
    args: Seq<Seq<char>>,
    out: Output,
    r: Result<String, Failure>,
) -> bool {
    match r {
        Ok(s) => out.success && vstd::utf8::valid_utf8(out.stdout@) && s@
            == vstd::utf8::decode_utf8(out.stdout@),
        Err(e) => {
            &&& e is Infra
            &&& if out.success {
                !vstd::utf8::valid_utf8(out.stdout@) && e.says() == utf8_complaint(out.stdout@)
            } else {
                e.says() == tool_failed(tool, args, out.stderr@)
            }
        },
    }
}

/// What a run of a tool printed, as text.
pub fn stdout_of(tool: &str, args: &[String], out: Output) -> (r: Result<String, Failure>)
    ensures
        printed(tool@, text::views(args@), out, r),
{
    match succeeded(tool, args, &out) {
        Ok(_) => match utf8(out.stdout) {
            Ok(s) => Ok(s),
            Err(e) => Err(infra(e)),
        },
        Err(e) => Err(e),
    }
}

/// What a run of a tool printed, without the white space it ends with.
pub open spec fn printed_trimmed(
    tool: Seq<char>,
    args: Seq<Seq<char>>,
    out: Output,
    r: Result<String, Failure>,
) -> bool {
    match r {
        Ok(s) => out.success && vstd::utf8::valid_utf8(out.stdout@) && s@ == text::trim_end(
            vstd::utf8::decode_utf8(out.stdout@),
        ),
        Err(e) => printed(tool, args, out, r),
    }
}

/// What a run of a tool printed, as text, without the white space it ends with.
pub fn trimmed_stdout_of(tool: &str, args: &[String], out: Output) -> (r: Result<String, Failure>)
    ensures
        printed_trimmed(tool@, text::views(args@), out, r),
{
    match stdout_of(tool, args, out) {
        Ok(s) => Ok(text::trimmed_end(s.as_str())),
        Err(e) => Err(e),
    }
}

/// A tool's output is taken exactly where the tool succeeded and printed text, and then it
/// is that text; where it failed, what is said of it names the tool, what it was asked and
/// what it complained of.
pub proof fn a_tool_is_believed_where_it_succeeded(
    tool: Seq<char>,
    args: Seq<Seq<char>>,
    out: Output,
    r: Result<String, Failure>,
    trimmed: Result<String, Failure>,
)
    requires
        printed(tool, args, out, r),
        printed_trimmed(tool, args, out, trimmed),
    ensures
        r is Ok <==> out.success && vstd::utf8::valid_utf8(out.stdout@),
        trimmed is Ok <==> r is Ok,
        r matches Ok(s) ==> s@ == vstd::utf8::decode_utf8(out.stdout@),
        r matches Ok(s) ==> trimmed->Ok_0@ == text::trim_end(s@),
        r matches Err(e) ==> e is Infra,
        r matches Err(e) ==> (out.success ==> e.says() == utf8_complaint(out.stdout@)),
        r matches Err(e) ==> (!out.success ==> e.says() == tool + seq![' '] + text::joined(
            args,
            seq![' '],
        ) + " failed: "@ + text::trim(lossy_text(out.stderr@))),
{
    reveal_strlit(" ");
    assert(" "@ =~= seq![' ']);
}

} // verus!
