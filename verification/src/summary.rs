//! How a search result is shown: the start of its content, and a note where
//! the content goes on.

use vstd::prelude::*;
use vstd::string::{StringExecFns, StringSliceAdditionalSpecFns};
use vstd::utf8::*;

verus! {

/// The number of bytes of a result's content that are shown.
pub const SUMMARY_LEN: usize = 2500;

/// Where the summary of a content of `len` bytes ends.
pub open spec fn summary_end(len: nat) -> nat {
    if len < SUMMARY_LEN {
        len
    } else {
        SUMMARY_LEN as nat
    }
}

/// The note that follows the summary of a content of `len` bytes.
pub open spec fn summary_note(len: nat) -> Seq<char> {
    if len < SUMMARY_LEN {
        ""@
    } else {
        "...(over 2500 characters)..."@
    }
}

/// The line that shows `content`: its first bytes as text, a space, and the
/// note.
pub open spec fn summary_of(content: Seq<char>) -> Seq<char> {
    let bytes = encode_utf8(content);
    decode_utf8(bytes.subrange(0, summary_end(bytes.len()) as int)) + " "@ + summary_note(
        bytes.len(),
    )
}

/// Whether the summary of `content` ends between two characters, as it must.
pub open spec fn summarizable(content: Seq<char>) -> bool {
    let bytes = encode_utf8(content);
    is_char_boundary(bytes, summary_end(bytes.len()) as int)
}

/// Whether `content` can be shown: whether its summary ends between two
/// characters.
pub fn can_summarize(content: &str) -> (yes: bool)
    ensures
        yes == summarizable(content@),
{
    let len = content.as_bytes().len();
    let end = if len < SUMMARY_LEN {
        len
    } else {
        SUMMARY_LEN
    };
    content.is_char_boundary(end)
}

/// The line that shows `content`.
pub fn summarize(content: &str) -> (line: String)
    requires
        summarizable(content@),
    ensures
        line@ == summary_of(content@),
{
    let len = content.as_bytes().len();
    let end = if len < SUMMARY_LEN {
        len
    } else {
        SUMMARY_LEN
    };
    let (head, _) = content.split_at(end);
    proof {
        encode_utf8_decode_utf8(head@);
    }
    let mut line = String::from_str(head);
    line.append(" ");
    if end == SUMMARY_LEN {
        line.append("...(over 2500 characters)...");
    } else {
        proof {
            reveal_strlit("");
            assert(line@ + ""@ =~= line@);
        }
    }
    line
}

} // verus!
