//! The review log: one JSON record per line, each naming a card, the rating
//! given and the days elapsed since that card's previous review.

use crate::json::{
    error_message, json_document, json_member, json_text, json_unsigned, member, parse_document,
    text_of, unsigned_of,
};
use crate::lines::{blank, is_blank, line_texts, lines_of, split_lines};
use vstd::prelude::*;

verus! {

/// One review of one card, as logged.
#[derive(Debug, Clone, PartialEq, Eq)]
pub struct ReviewLogEntry {
    pub card_id: String,
    pub rating: u32,
    pub elapsed: u32,
}

/// What a [`ReviewLogEntry`] says, with the card's identifier as a sequence
/// of characters.
pub struct ReviewRecord {
    pub card_id: Seq<char>,
    pub rating: u32,
    pub elapsed: u32,
}

impl View for ReviewLogEntry {
    type V = ReviewRecord;

    open spec fn view(&self) -> ReviewRecord {
        ReviewRecord { card_id: self.card_id@, rating: self.rating, elapsed: self.elapsed }
    }
}

/// Why a line of the log is not a review record.
#[derive(Debug, Clone, Copy, PartialEq, Eq, Structural)]
pub enum LineFault {
    /// The line is not a JSON document.
    Syntax,
    /// The document has no member `cardId` holding a string.
    CardId,
    /// The document has no member `rating` holding an integer of 32 bits.
    Rating,
    /// The document has no member `elapsed` holding an integer of 32 bits.
    Elapsed,
}

/// A line of the log that is neither blank nor a review record.
#[derive(Debug, Clone, PartialEq, Eq)]
pub struct LogParseError {
    /// The number of the line in the log, counted from 1.
    pub line: usize,
    pub fault: LineFault,
    /// The JSON parser's message for a [`LineFault::Syntax`], empty for the
    /// other faults.
    pub detail: String,
}

/// The member `key` of `doc` when it holds a string.
pub open spec fn text_member(doc: serde_json::Value, key: Seq<char>) -> Option<Seq<char>> {
    match json_member(doc, key) {
        Some(found) => json_text(found),
        None => None,
    }
}

/// The member `key` of `doc` when it holds an unsigned integer of 32 bits.
pub open spec fn u32_member(doc: serde_json::Value, key: Seq<char>) -> Option<u32> {
    match json_member(doc, key) {
        Some(found) => match json_unsigned(found) {
            Some(n) => if n <= u32::MAX {
                Some(n as u32)
            } else {
                None
            },
            None => None,
        },
        None => None,
    }
}

/// The review record that a JSON document holds, or the first member that
/// keeps it from being one.
pub open spec fn record_of_document(doc: serde_json::Value) -> Result<ReviewRecord, LineFault> {
    match text_member(doc, "cardId"@) {
        None => Err(LineFault::CardId),
        Some(card_id) => match u32_member(doc, "rating"@) {
            None => Err(LineFault::Rating),
            Some(rating) => match u32_member(doc, "elapsed"@) {
                None => Err(LineFault::Elapsed),
                Some(elapsed) => Ok(ReviewRecord { card_id, rating, elapsed }),
            },
        },
    }
}

/// The review record written on a line.
pub open spec fn record_of_line(line: Seq<char>) -> Result<ReviewRecord, LineFault> {
    match json_document(line) {
        None => Err(LineFault::Syntax),
        Some(doc) => record_of_document(doc),
    }
}

/// The fault of a line: a blank line has none, nor has a line with a record.
pub open spec fn line_fault(line: Seq<char>) -> Option<LineFault> {
    if blank(line) {
        None
    } else {
        match record_of_line(line) {
            Ok(_) => None,
            Err(fault) => Some(fault),
        }
    }
}

/// The record of a line that is not blank and holds one.
pub open spec fn line_record(line: Seq<char>) -> Option<ReviewRecord> {
    if blank(line) {
        None
    } else {
        match record_of_line(line) {
            Ok(record) => Some(record),
            Err(_) => None,
        }
    }
}

/// The first faulty line among `lines`, by its number counted from 1, with
/// its fault.
pub open spec fn log_fault(lines: Seq<Seq<char>>) -> Option<(int, LineFault)>
    decreases lines.len(),
{
    if lines.len() == 0 {
        None
    } else {
        match log_fault(lines.drop_last()) {
            Some(earlier) => Some(earlier),
            None => match line_fault(lines.last()) {
                Some(fault) => Some((lines.len() as int, fault)),
                None => None,
            },
        }
    }
}

/// The records written on `lines`, in the order of the lines.
pub open spec fn log_records(lines: Seq<Seq<char>>) -> Seq<ReviewRecord>
    decreases lines.len(),
{
    if lines.len() == 0 {
        Seq::empty()
    } else {
        match line_record(lines.last()) {
            Some(record) => log_records(lines.drop_last()).push(record),
            None => log_records(lines.drop_last()),
        }
    }
}

/// What a list of entries says.
pub open spec fn entry_records(entries: Seq<ReviewLogEntry>) -> Seq<ReviewRecord> {
    Seq::new(entries.len(), |i: int| entries[i]@)
}

fn u32_field(doc: &serde_json::Value, key: &str) -> (r: Option<u32>)
    ensures
        r == u32_member(*doc, key@),
{
    match member(doc, key) {
        Some(found) => match unsigned_of(found) {
            Some(n) => if n <= u32::MAX as u64 {
                Some(n as u32)
            } else {
                None
            },
            None => None,
        },
        None => None,
    }
}

/// Reads a review record out of a parsed JSON document.
pub fn entry_from_document(doc: &serde_json::Value) -> (r: Result<ReviewLogEntry, LineFault>)
    ensures
        match r {
            Ok(entry) => record_of_document(*doc) == Ok::<ReviewRecord, LineFault>(entry@),
            Err(fault) => record_of_document(*doc) == Err::<ReviewRecord, LineFault>(fault),
        },
{
    let card_id = match member(doc, "cardId") {
        Some(found) => match text_of(found) {
            Some(text) => text.to_owned(),
            None => { return Err(LineFault::CardId); },
        },
        None => { return Err(LineFault::CardId); },
    };
    let rating = match u32_field(doc, "rating") {
        Some(n) => n,
        None => { return Err(LineFault::Rating); },
    };
    let elapsed = match u32_field(doc, "elapsed") {
        Some(n) => n,
        None => { return Err(LineFault::Elapsed); },
    };
    Ok(ReviewLogEntry { card_id, rating, elapsed })
}

/// Reads the review log: every line that is not blank must hold a record.
///
/// The entries come back in the order of their lines. A single faulty line
/// fails the whole log, and the error names the first such line.
pub fn parse_review_log(text: &str) -> (r: Result<Vec<ReviewLogEntry>, LogParseError>)
    ensures
        match r {
            Ok(entries) => {
                &&& log_fault(lines_of(text@)).is_none()
                &&& entry_records(entries@) == log_records(lines_of(text@))
            },
            Err(e) => {
                &&& log_fault(lines_of(text@)) == Some((e.line as int, e.fault))
                &&& e.fault != LineFault::Syntax ==> e.detail@.len() == 0
            },
        },
{
    let lines = split_lines(text);
    let mut entries: Vec<ReviewLogEntry> = Vec::new();
    let mut i: usize = 0;
    while i < lines.len()
        invariant
            i <= lines.len(),
            line_texts(lines@) == lines_of(text@),
            log_fault(lines_of(text@).take(i as int)).is_none(),
            entry_records(entries@) == log_records(lines_of(text@).take(i as int)),
        decreases lines.len() - i,
    {
        let line = lines[i].as_str();
        assert(lines_of(text@).take(i as int + 1).drop_last() == lines_of(text@).take(i as int));
        if !is_blank(line) {
            match parse_document(line) {
                Ok(doc) => match entry_from_document(&doc) {
                    Ok(entry) => {
                        entries.push(entry);
                    },
                    Err(fault) => {
                        proof {
                            lemma_fault_stays(lines_of(text@), i as int + 1);
                        }
                        return Err(LogParseError { line: i + 1, fault, detail: String::new() });
                    },
                },
                Err(error) => {
                    proof {
                        lemma_fault_stays(lines_of(text@), i as int + 1);
                    }
                    return Err(
                        LogParseError {
                            line: i + 1,
                            fault: LineFault::Syntax,
                            detail: error_message(&error),
                        },
                    );
                },
            }
        }
        i += 1;
    }
    assert(lines_of(text@).take(i as int) == lines_of(text@));
    Ok(entries)
}

/// The fault of a log is its first faulty line: no line before it has a
/// fault, and a log without a fault has no faulty line at all.
pub proof fn lemma_log_fault_is_first(lines: Seq<Seq<char>>)
    ensures
        match log_fault(lines) {
            Some((number, fault)) => {
                &&& 1 <= number <= lines.len()
                &&& line_fault(lines[number - 1]) == Some(fault)
                &&& forall|j: int| 0 <= j < number - 1 ==> line_fault(#[trigger] lines[j]).is_none()
            },
            None => forall|j: int| 0 <= j < lines.len() ==> line_fault(#[trigger] lines[j]).is_none(),
        },
    decreases lines.len(),
{
    if lines.len() > 0 {
        let front = lines.drop_last();
        lemma_log_fault_is_first(front);
        assert forall|j: int| 0 <= j < front.len() implies front[j] == lines[j] by {}
    }
}

/// A log with exactly one faulty line fails on that line.
pub proof fn lemma_single_fault_is_named(lines: Seq<Seq<char>>, at: int)
    requires
        0 <= at < lines.len(),
        line_fault(lines[at]).is_some(),
        forall|j: int| 0 <= j < lines.len() && j != at ==> line_fault(#[trigger] lines[j]).is_none(),
    ensures
        log_fault(lines) == Some((at + 1, line_fault(lines[at]).unwrap())),
{
    lemma_log_fault_is_first(lines);
}

/// A fault found among the first `n` lines is the fault of the whole log.
pub proof fn lemma_fault_stays(lines: Seq<Seq<char>>, n: int)
    requires
        0 <= n <= lines.len(),
        log_fault(lines.take(n)).is_some(),
    ensures
        log_fault(lines) == log_fault(lines.take(n)),
    decreases lines.len() - n,
{
    if n < lines.len() {
        assert(lines.take(n + 1).drop_last() == lines.take(n));
        lemma_fault_stays(lines, n + 1);
    } else {
        assert(lines.take(n) == lines);
    }
}

} // verus!
