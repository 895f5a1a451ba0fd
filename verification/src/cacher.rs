//! The append-only logs. A log is a text of records, one a line: a record is
//! appended as its line and a newline, and read back by cutting the text at
//! the newlines. Lines that are empty, or that do not read as a record, are
//! left out.

use crate::text::{
    chars_of, lemma_split_append_mark, lemma_split_append_unmarked, lemma_split_has_pieces, split,
    split_on, views,
};
use vstd::prelude::*;

verus! {

/// Why a record cannot be appended.
#[derive(Debug, PartialEq, Eq, Structural)]
pub enum WriteError {
    /// The record has no text: it would not be read back.
    EmptyRecord,
    /// The record holds a newline: it would be read back as two.
    EmbeddedNewline,
    /// The log could not be written to.
    Failed,
}

/// A log to which records of one type are appended. Whoever implements it
/// says with the result whether the record was appended.
pub trait Cache<T> {
    fn cache(&mut self, obj: &T) -> Result<(), WriteError>;
}

/// The text that ends a record.
pub open spec fn newline() -> Seq<char> {
    seq!['\n']
}

/// Whether the line holds a newline.
pub open spec fn has_newline(line: Seq<char>) -> bool {
    exists|i: int| 0 <= i < line.len() && line[i] == '\n'
}

/// A record as it is appended: its line and a newline.
pub open spec fn framed(line: Seq<char>) -> Seq<char> {
    line + newline()
}

/// The lines that are not empty, in their order.
pub open spec fn nonempty(lines: Seq<Seq<char>>) -> Seq<Seq<char>>
    decreases lines.len(),
{
    if lines.len() == 0 {
        Seq::<Seq<char>>::empty()
    } else if lines.last().len() > 0 {
        nonempty(lines.drop_last()).push(lines.last())
    } else {
        nonempty(lines.drop_last())
    }
}

/// The lines of a log that may hold a record: those that are not empty.
pub open spec fn record_lines(content: Seq<char>) -> Seq<Seq<char>> {
    nonempty(split_on(content, newline()))
}

/// The records that were read, in the order of their lines.
pub open spec fn records_read<T>(parsed: Seq<Option<T>>) -> Seq<T> {
    parsed.filter_map(|record: Option<T>| record)
}

/// The text to append to a log for a record with this line.
pub fn cache(line: &str) -> (r: Result<String, WriteError>)
    ensures
        match r {
            Ok(text) => text@ == framed(line@) && line@.len() > 0 && !has_newline(line@),
            Err(WriteError::EmptyRecord) => line@.len() == 0,
            Err(WriteError::EmbeddedNewline) => line@.len() > 0 && has_newline(line@),
            Err(WriteError::Failed) => false,
        },
{
    let chars = chars_of(line);
    if chars.len() == 0 {
        return Err(WriteError::EmptyRecord);
    }
    let mut i: usize = 0;
    while i < chars.len()
        invariant
            i <= chars.len(),
            chars@ == line@,
            forall|j: int| 0 <= j < i ==> chars@[j] != '\n',
        decreases chars.len() - i,
    {
        if chars[i] == '\n' {
            return Err(WriteError::EmbeddedNewline);
        }
        i += 1;
    }
    let mut text = line.to_owned();
    text.push('\n');
    proof {
        assert(text@ =~= framed(line@));
    }
    Ok(text)
}

/// The lines of a log that may hold a record, in their order.
pub fn cached_lines(content: &str) -> (lines: Vec<String>)
    ensures
        views(lines@) == record_lines(content@),
{
    let pieces = split(content, "\n");
    proof {
        reveal_strlit("\n");
        assert("\n"@ =~= newline());
    }
    let mut lines: Vec<String> = Vec::new();
    let mut i: usize = 0;
    proof {
        assert(views(pieces@).take(0) =~= Seq::<Seq<char>>::empty());
        assert(views(lines@) =~= Seq::<Seq<char>>::empty());
    }
    while i < pieces.len()
        invariant
            i <= pieces.len(),
            views(lines@) == nonempty(views(pieces@).take(i as int)),
        decreases pieces.len() - i,
    {
        proof {
            let more = views(pieces@).take(i + 1);
            assert(more.drop_last() =~= views(pieces@).take(i as int));
            assert(more.last() == pieces@[i as int]@);
        }
        if !pieces[i].as_str().is_empty() {
            let line = pieces[i].clone();
            proof {
                assert(views(lines@.push(line)) =~= views(lines@).push(line@));
            }
            lines.push(line);
        }
        i += 1;
    }
    proof {
        assert(views(pieces@).take(pieces.len() as int) =~= views(pieces@));
    }
    lines
}

/// The records that were read from the lines of a log: `parsed` holds, for
/// each line, the record that it reads as, or none. The lines that did not
/// read as a record are left out, and the others keep their order.
pub fn load_from_cache<T>(parsed: Vec<Option<T>>) -> (records: Vec<T>)
    ensures
        records@ == records_read(parsed@),
{
    let ghost pick = |record: Option<T>| record;
    let ghost all = parsed@;
    let mut records: Vec<T> = Vec::new();
    proof {
        assert(all.take(0) =~= Seq::<Option<T>>::empty());
    }
    for record in it: parsed
        invariant
            pick == |record: Option<T>| record,
            it.seq() == all,
            records@ == all.take(it.index()).filter_map(pick),
    {
        proof {
            all.lemma_filter_map_take_succ(pick, it.index());
        }
        match record {
            Some(record) => {
                records.push(record);
            },
            None => {},
        }
    }
    proof {
        assert(all.take(all.len() as int) =~= all);
    }
    records
}

/// Appending a record to a log that is empty or ends with a newline adds
/// its line, and nothing else, to the lines that are read back.
pub proof fn lemma_append_adds_record(content: Seq<char>, line: Seq<char>)
    requires
        content.len() == 0 || content.last() == '\n',
        line.len() > 0,
        !has_newline(line),
    ensures
        record_lines(content + framed(line)) == record_lines(content).push(line),
{
    let pieces = split_on(content, newline());
    lemma_split_has_pieces(content, newline());
    if content.len() == 0 {
        assert(pieces =~= seq![content]);
    } else {
        let front = content.drop_last();
        assert(content =~= front + newline());
        lemma_split_append_mark(front, '\n');
    }
    assert(pieces.last() =~= Seq::<char>::empty());
    lemma_appended_pieces(content, line);
    assert(pieces.last() + line =~= line);
    let grown = pieces.drop_last().push(line);
    assert(grown.drop_last() =~= pieces.drop_last());
}

/// The pieces of a log after a record was appended: the last piece got the
/// line of the record, and an empty piece follows.
proof fn lemma_appended_pieces(content: Seq<char>, line: Seq<char>)
    requires
        !has_newline(line),
    ensures
        split_on(content, newline()).len() >= 1,
        record_lines(content + framed(line)) == nonempty(
            split_on(content, newline()).drop_last().push(
                split_on(content, newline()).last() + line,
            ),
        ),
{
    let pieces = split_on(content, newline());
    assert forall|i: int| 0 <= i < line.len() implies line[i] != '\n' by {
    }
    lemma_split_append_unmarked(content, '\n', line);
    lemma_split_append_mark(content + line, '\n');
    assert(content + framed(line) =~= (content + line) + newline());
    let grown = pieces.drop_last().push(pieces.last() + line);
    assert(grown.push(Seq::<char>::empty()).drop_last() =~= grown);
}

/// A log never loses a line when a record is appended to it, whatever it
/// held before.
pub proof fn lemma_append_keeps_lines(content: Seq<char>, line: Seq<char>)
    requires
        !has_newline(line),
    ensures
        record_lines(content + framed(line)).len() >= record_lines(content).len(),
{
    let pieces = split_on(content, newline());
    lemma_appended_pieces(content, line);
    let grown = pieces.drop_last().push(pieces.last() + line);
    assert(grown.drop_last() =~= pieces.drop_last());
}

} // verus!
