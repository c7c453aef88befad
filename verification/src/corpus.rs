//! The corpus: the content of each document as it is laid out in a text of
//! comma-separated lines, and the identifiers that documents are given.

use vstd::prelude::*;
use vstd::set_lib::{lemma_int_range, set_int_range};
use vstd::std_specs::iter::IteratorSpec;
use crate::doc::{DocId, Document};

verus! {

/// `String::push`. The character is appended to the text.
#[verifier::external_body]
fn push_char(text: &mut String, c: char)
    ensures
        final(text)@ == old(text)@.push(c),
{
    text.push(c)
}

/// `uuid::Uuid::new_v4`, taken as a number by `uuid::Uuid::as_u128`. The
/// identifier is drawn at random, so nothing is claimed of its value.
#[verifier::external_body]
fn random_id() -> (id: DocId) {
    DocId { value: uuid::Uuid::new_v4().as_u128() }
}

/// The characters of `text`, in order.
pub fn chars_of(text: &str) -> (chars: Vec<char>)
    ensures
        chars@ == text@,
{
    broadcast use vstd::string::group_string_axioms;

    let mut chars: Vec<char> = Vec::new();
    let mut rest = text.chars();
    loop
        invariant
            chars@ + rest.remaining() == text@,
            rest.decrease() is Some,
        decreases rest.decrease()->0,
    {
        match rest.next() {
            Some(c) => {
                chars.push(c);
            },
            None => {
                assert(chars@ + rest.remaining() =~= chars@);
                return chars;
            },
        }
    }
}

/// The position of the first line feed in `text`, or the length of `text`
/// where it has none.
pub open spec fn line_end(text: Seq<char>) -> int
    decreases text.len(),
{
    if text.len() == 0 || text[0] == '\n' {
        0
    } else {
        1 + line_end(text.drop_first())
    }
}

/// `line` without the carriage return that it may end in.
pub open spec fn without_return(line: Seq<char>) -> Seq<char> {
    if line.len() > 0 && line.last() == '\r' {
        line.drop_last()
    } else {
        line
    }
}

/// The lines of `text`. A line ends in a line feed, or in a carriage return
/// and a line feed, and neither belongs to the line. The last line may end
/// with the text instead, and is then taken whole.
pub open spec fn lines_of(text: Seq<char>) -> Seq<Seq<char>>
    decreases text.len(),
{
    if text.len() == 0 {
        Seq::empty()
    } else {
        let end = line_end(text);
        if 0 <= end < text.len() {
            seq![without_return(text.take(end))] + lines_of(text.skip(end + 1))
        } else {
            seq![text]
        }
    }
}

/// The number of commas in `line`.
pub open spec fn commas(line: Seq<char>) -> nat
    decreases line.len(),
{
    if line.len() == 0 {
        0
    } else if line.last() == ',' {
        commas(line.drop_last()) + 1
    } else {
        commas(line.drop_last())
    }
}

/// The field of a line that is no part of a document's content, counted from 0.
pub const DROPPED_FIELD: usize = 5;

/// The content of the document on `line`: the fields of the line, which
/// commas separate, one after the other without the commas, but for the
/// dropped field.
pub open spec fn content_of(line: Seq<char>) -> Seq<char>
    decreases line.len(),
{
    if line.len() == 0 {
        Seq::empty()
    } else if line.last() != ',' && commas(line.drop_last()) != DROPPED_FIELD {
        content_of(line.drop_last()).push(line.last())
    } else {
        content_of(line.drop_last())
    }
}

/// The contents of the documents in `text`: one for each line after the
/// first, which is a header.
pub open spec fn contents_of(text: Seq<char>) -> Seq<Seq<char>> {
    let lines = lines_of(text);
    if lines.len() == 0 {
        Seq::empty()
    } else {
        lines.drop_first().map_values(|line: Seq<char>| content_of(line))
    }
}

/// Where the line that starts `text` ends: before the first line feed, or
/// with the text.
pub proof fn line_end_is_first_feed(text: Seq<char>, n: int)
    requires
        0 <= n <= text.len(),
        forall|k: int| 0 <= k < n ==> text[k] != '\n',
        n == text.len() || text[n] == '\n',
    ensures
        line_end(text) == n,
    decreases n,
{
    if n > 0 {
        line_end_is_first_feed(text.drop_first(), n - 1);
    }
}

/// The content of the line that stands in `chars` from `from` up to `to`.
pub fn content_in(chars: &Vec<char>, from: usize, to: usize) -> (content: String)
    requires
        from <= to <= chars@.len(),
    ensures
        content@ == content_of(chars@.subrange(from as int, to as int)),
{
    let mut content = String::new();
    let mut field: usize = 0;
    let mut at: usize = from;
    while at < to
        invariant
            from <= at <= to <= chars@.len(),
            field == commas(chars@.subrange(from as int, at as int)),
            field <= at - from,
            content@ == content_of(chars@.subrange(from as int, at as int)),
        decreases to - at,
    {
        let c = chars[at];
        proof {
            let line = chars@.subrange(from as int, at + 1);
            assert(line.drop_last() =~= chars@.subrange(from as int, at as int));
            assert(line.last() == c);
        }
        if c == ',' {
            field = field + 1;
        } else if field != DROPPED_FIELD {
            push_char(&mut content, c);
        }
        at = at + 1;
    }
    content
}

/// Whether `contents` spell out `expected`, text by text.
pub open spec fn spells(contents: Seq<String>, expected: Seq<Seq<char>>) -> bool {
    &&& contents.len() == expected.len()
    &&& forall|i: int| 0 <= i < contents.len() ==> (#[trigger] contents[i])@ == expected[i]
}

/// Reads the content of each document from a text of comma-separated lines
/// under a header line.
pub fn corpus_contents(text: &str) -> (contents: Vec<String>)
    ensures
        spells(contents@, contents_of(text@)),
{
    let chars = chars_of(text);
    let mut contents: Vec<String> = Vec::new();
    let mut header_passed = false;
    let mut start: usize = 0;
    let ghost mut lines: Seq<Seq<char>> = Seq::empty();
    assert(chars@.skip(0) =~= chars@);
    while start < chars.len()
        invariant
            start <= chars@.len(),
            chars@ == text@,
            lines_of(chars@) == lines + lines_of(chars@.skip(start as int)),
            header_passed == (lines.len() > 0),
            !header_passed ==> contents@.len() == 0,
            header_passed ==> spells(
                contents@,
                lines.drop_first().map_values(|line: Seq<char>| content_of(line)),
            ),
        decreases chars@.len() - start,
    {
        let mut end: usize = start;
        while end < chars.len() && chars[end] != '\n'
            invariant
                start <= end <= chars@.len(),
                forall|k: int| start <= k < end ==> chars@[k] != '\n',
            decreases chars@.len() - end,
        {
            end = end + 1;
        }
        let closed = end < chars.len();
        let stop = if closed && start < end && chars[end - 1] == '\r' {
            end - 1
        } else {
            end
        };
        let ghost rest = chars@.skip(start as int);
        let ghost line = chars@.subrange(start as int, stop as int);
        proof {
            line_end_is_first_feed(rest, end - start);
            assert(rest.take(end - start) =~= chars@.subrange(start as int, end as int));
            if closed {
                assert(rest.skip(end - start + 1) =~= chars@.skip(end + 1));
                assert(without_return(chars@.subrange(start as int, end as int)) =~= line);
            } else {
                assert(rest =~= line);
                assert(chars@.skip(end as int) =~= Seq::<char>::empty());
                assert(lines_of(chars@.skip(end as int)) =~= Seq::<Seq<char>>::empty());
            }
            let next = if closed {
                end + 1
            } else {
                end as int
            };
            assert(lines_of(rest) =~= seq![line] + lines_of(chars@.skip(next)));
            assert(lines + lines_of(rest) =~= lines.push(line) + lines_of(chars@.skip(next)));
        }
        if header_passed {
            let content = content_in(&chars, start, stop);
            contents.push(content);
            proof {
                let before = lines.drop_first().map_values(|line: Seq<char>| content_of(line));
                let after = lines.push(line).drop_first().map_values(
                    |line: Seq<char>| content_of(line),
                );
                assert(lines.push(line).drop_first() =~= lines.drop_first().push(line));
                assert(after =~= before.push(content_of(line)));
            }
        } else {
            header_passed = true;
            proof {
                assert(lines.push(line).drop_first() =~= Seq::<Seq<char>>::empty());
            }
        }
        proof {
            lines = lines.push(line);
        }
        start = if closed {
            end + 1
        } else {
            end
        };
    }
    proof {
        assert(chars@.skip(start as int) =~= Seq::<char>::empty());
        assert(lines_of(chars@) =~= lines);
    }
    contents
}

/// Whether `corpus` holds one document for each of `contents`, in their order.
pub open spec fn holds(corpus: Seq<Document>, contents: Seq<Seq<char>>) -> bool {
    &&& corpus.len() == contents.len()
    &&& forall|i: int| 0 <= i < corpus.len() ==> (#[trigger] corpus[i]).content@ == contents[i]
}

/// Whether a document of `corpus` has the identifier `id`.
pub open spec fn has_id(corpus: Seq<Document>, id: DocId) -> bool {
    exists|i: int| 0 <= i < corpus.len() && (#[trigger] corpus[i]).id == id
}

/// The identifier that is the number `k`.
pub open spec fn numbered(k: int) -> DocId {
    DocId { value: k as u128 }
}

/// No two documents of `corpus` have one identifier.
pub open spec fn distinct_ids(corpus: Seq<Document>) -> bool {
    forall|i: int, j: int| 0 <= i < j < corpus.len() ==> corpus[i].id != corpus[j].id
}

/// Numbers that are all identifiers of documents of `corpus` are no more
/// than the documents.
pub proof fn identifiers_are_few(corpus: Seq<Document>, values: Set<int>)
    requires
        values.finite(),
        forall|v: int| #[trigger] values.contains(v) ==> 0 <= v <= u128::MAX && has_id(corpus, numbered(v)),
    ensures
        values.len() <= corpus.len(),
    decreases corpus.len(),
{
    if corpus.len() == 0 {
        if values.len() > 0 {
            let v = values.choose();
            assert(values.contains(v));
            assert(has_id(corpus, numbered(v)));
        }
    } else {
        let front = corpus.drop_last();
        let last = corpus.last().id.value as int;
        let rest = values.remove(last);
        assert forall|v: int| #[trigger] rest.contains(v) implies 0 <= v <= u128::MAX && has_id(
            front,
            numbered(v),
        ) by {
            assert(values.contains(v));
            let id = numbered(v);
            let i = choose|i: int| 0 <= i < corpus.len() && (#[trigger] corpus[i]).id == id;
            assert(i < corpus.len() - 1);
            assert(front[i].id == id);
        }
        identifiers_are_few(front, rest);
    }
}

/// Whether a document of `corpus` has the identifier `id`.
pub fn holds_id(corpus: &Vec<Document>, id: DocId) -> (found: bool)
    ensures
        found == has_id(corpus@, id),
{
    let mut at: usize = 0;
    while at < corpus.len()
        invariant
            at <= corpus@.len(),
            forall|i: int| 0 <= i < at ==> (#[trigger] corpus@[i]).id != id,
        decreases corpus@.len() - at,
    {
        if corpus[at].id.value == id.value {
            return true;
        }
        at = at + 1;
    }
    false
}

/// The identifier that a new document of `corpus` gets where `drawn` was
/// drawn for it: `drawn` itself, unless a document has it already, and then
/// the least number that no document has.
pub open spec fn unused(corpus: Seq<Document>, drawn: DocId, id: DocId) -> bool {
    &&& !has_id(corpus, id)
    &&& !has_id(corpus, drawn) ==> id == drawn
    &&& has_id(corpus, drawn) ==> forall|k: int|
        0 <= k < id.value ==> #[trigger] has_id(corpus, numbered(k))
}

/// Picks the identifier of a new document of `corpus` for which `drawn` was
/// drawn: one that no document has yet.
pub fn unused_id(corpus: &Vec<Document>, drawn: DocId) -> (id: DocId)
    ensures
        unused(corpus@, drawn, id),
{
    if !holds_id(corpus, drawn) {
        return drawn;
    }
    let mut candidate: u128 = 0;
    let mut taken = holds_id(corpus, DocId { value: candidate });
    while taken
        invariant
            candidate <= corpus@.len(),
            taken == has_id(corpus@, DocId { value: candidate }),
            forall|k: int| 0 <= k < candidate ==> #[trigger] has_id(corpus@, numbered(k)),
        decreases corpus@.len() - candidate,
    {
        proof {
            let values = set_int_range(0, candidate + 1);
            lemma_int_range(0, candidate + 1);
            assert forall|v: int| #[trigger] values.contains(v) implies 0 <= v <= u128::MAX
                && has_id(corpus@, numbered(v)) by {
                if v == candidate {
                    assert(numbered(v) == DocId { value: candidate });
                }
            }
            identifiers_are_few(corpus@, values);
            assert(candidate + 1 <= corpus.len());
        }
        candidate = candidate + 1;
        taken = holds_id(corpus, DocId { value: candidate });
    }
    DocId { value: candidate }
}

/// Makes a document of each content, in order. An identifier is drawn at
/// random for each, and given to it unless an earlier document has it
/// already, so that no two documents have one identifier.
pub fn assign_ids(contents: &Vec<String>) -> (corpus: Vec<Document>)
    ensures
        corpus@.len() == contents@.len(),
        forall|i: int| 0 <= i < corpus@.len() ==> (#[trigger] corpus@[i]).content == contents@[i],
        distinct_ids(corpus@),
{
    let mut corpus: Vec<Document> = Vec::new();
    let mut at: usize = 0;
    while at < contents.len()
        invariant
            at <= contents@.len(),
            corpus@.len() == at,
            forall|i: int| 0 <= i < at ==> (#[trigger] corpus@[i]).content == contents@[i],
            distinct_ids(corpus@),
        decreases contents@.len() - at,
    {
        let id = unused_id(&corpus, random_id());
        let ghost before = corpus@;
        corpus.push(Document { id, content: contents[at].clone() });
        proof {
            assert forall|i: int, j: int| 0 <= i < j < corpus@.len() implies corpus@[i].id
                != corpus@[j].id by {
                assert(corpus@[i] == before[i]);
                if j < before.len() {
                    assert(corpus@[j] == before[j]);
                }
            }
        }
        at = at + 1;
    }
    corpus
}

/// Reads a corpus from a text of comma-separated lines under a header line:
/// one document for each line after the first, in the order of the lines,
/// each under an identifier of its own.
pub fn corpus_of(text: &str) -> (corpus: Vec<Document>)
    ensures
        holds(corpus@, contents_of(text@)),
        distinct_ids(corpus@),
{
    let contents = corpus_contents(text);
    assign_ids(&contents)
}

} // verus!
