//! The parser of the stream-copy process's progress records.
//!
//! The process writes `key=value` lines and ends each record with a blank
//! line. The parser gathers the pairs into a running sample. It hands the
//! sample out as soon as a line sets `out_time_ms` or `progress`, so that an
//! observer need not wait for the end of the record, and again at the blank
//! line. The sample is kept across blank lines: a key stays in it, with the
//! value last written for it, until the stream ends. Lines without `=` are
//! passed over.

use crate::ffmpeg::params::{
    clone_fields, entries_of, find_key, lemma_upsert, lookup, unique_keys, upsert, Entries,
    FfmpegProgress,
};
use crate::text::{chars_of, find_char, same_text, trim, trim_bounds};
use vstd::prelude::*;
use vstd::string::*;

verus! {

/// What one line of progress output is, once trimmed.
pub enum Line {
    /// Nothing but whitespace: the end of a record.
    Blank,
    /// A key and its value, split at the first `=`.
    Pair { key: Seq<char>, value: Seq<char> },
    /// Text without `=`.
    Noise,
}

/// Reads `line`: trimmed, it is blank, or a pair split at its first `=`, or
/// neither.
pub open spec fn read_line(line: Seq<char>) -> Line {
    let text = trim(line);
    if text.len() == 0 {
        Line::Blank
    } else {
        match text.index_of_first('=') {
            Some(at) => Line::Pair { key: text.take(at), value: text.skip(at + 1) },
            None => Line::Noise,
        }
    }
}

/// Whether a line that sets `key` makes the parser hand out the sample at
/// once.
pub open spec fn reports_progress(key: Seq<char>) -> bool {
    key == "out_time_ms"@ || key == "progress"@
}

/// The running sample after `line`, for the running sample `sample` before
/// it: a pair sets its key, and any other line, a blank one too, leaves the
/// sample as it is.
pub open spec fn sample_after(sample: Entries, line: Seq<char>) -> Entries {
    match read_line(line) {
        Line::Blank => sample,
        Line::Pair { key, value } => upsert(sample, key, value),
        Line::Noise => sample,
    }
}

/// The sample that `line` makes the parser hand out, if it does, for the
/// running sample `sample` before the line.
pub open spec fn sample_emitted(sample: Entries, line: Seq<char>) -> Option<Entries> {
    match read_line(line) {
        Line::Blank => if sample.len() > 0 {
            Some(sample)
        } else {
            None
        },
        Line::Pair { key, value } => if reports_progress(key) {
            Some(upsert(sample, key, value))
        } else {
            None
        },
        Line::Noise => None,
    }
}

/// The parser's state: the sample gathered since the stream began.
#[derive(Debug)]
pub struct ProgressParser {
    /// The running sample.
    pub current: Vec<(String, String)>,
}

impl View for ProgressParser {
    type V = Entries;

    open spec fn view(&self) -> Entries {
        entries_of(self.current@)
    }
}

impl ProgressParser {
    /// A parser with an empty running sample.
    pub fn new() -> (r: Self)
        ensures
            r@ == Seq::<(Seq<char>, Seq<char>)>::empty(),
    {
        let r = ProgressParser { current: Vec::new() };
        assert(r@ =~= Seq::empty());
        r
    }

    /// Sets `key` to `value` in the running sample.
    fn set(&mut self, key: String, value: String)
        ensures
            final(self)@ == upsert(old(self)@, key@, value@),
    {
        match find_key(&self.current, key.as_str()) {
            Some(i) => {
                self.current.set(i, (key, value));
                assert(self@ =~= upsert(old(self)@, key@, value@));
            },
            None => {
                self.current.push((key, value));
                assert(self@ =~= upsert(old(self)@, key@, value@));
            },
        }
    }

    /// The running sample as a progress event.
    fn snapshot(&self) -> (r: FfmpegProgress)
        ensures
            r@ == self@,
    {
        FfmpegProgress::new(clone_fields(&self.current))
    }

    /// Takes in one line of the process's output and returns the sample to
    /// hand out, if the line calls for one.
    ///
    /// A blank line hands out the running sample, unless it is empty, and
    /// keeps it. A `key=value` line sets the key; where the key is
    /// `out_time_ms` or `progress` the running sample is handed out at once
    /// and kept. Any other line changes nothing. No line makes a key occur
    /// twice.
    pub fn feed(&mut self, line: &str) -> (emitted: Option<FfmpegProgress>)
        ensures
            final(self)@ == sample_after(old(self)@, line@),
            match emitted {
                Some(progress) => sample_emitted(old(self)@, line@) == Some(progress@),
                None => sample_emitted(old(self)@, line@) is None,
            },
            unique_keys(old(self)@) ==> unique_keys(final(self)@),
    {
        proof {
            if unique_keys(self@) {
                lemma_sample_keys_stay_unique(self@, line@);
            }
        }
        let chars = chars_of(line);
        let (lo, hi) = trim_bounds(&chars);
        let ghost text = trim(line@);
        if lo == hi {
            if self.current.len() > 0 {
                return Some(self.snapshot());
            }
            return None;
        }
        match find_char(&chars, lo, hi, '=') {
            Some(at) => {
                proof {
                    assert(text[at as int] == '=');
                    assert forall|j: int| 0 <= j < at implies text[j] != '=' by {
                        assert(text[j] == chars@[lo + j]);
                    }
                    assert(text.contains('='));
                    text.index_of_first_ensures('=');
                    assert(text.index_of_first('=') == Some(at as int));
                    assert(text.take(at as int) =~= line@.subrange(lo as int, lo + at));
                    assert(text.skip(at + 1) =~= line@.subrange(lo + at + 1, hi as int));
                }
                let key = String::from_str(line.substring_char(lo, lo + at));
                let value = String::from_str(line.substring_char(lo + at + 1, hi));
                let report = same_text(key.as_str(), "out_time_ms") || same_text(
                    key.as_str(),
                    "progress",
                );
                self.set(key, value);
                if report {
                    Some(self.snapshot())
                } else {
                    None
                }
            },
            None => {
                proof {
                    text.index_of_first_ensures('=');
                    if let Some(found) = text.index_of_first('=') {
                        assert(text[found] == chars@[lo + found]);
                    }
                }
                None
            },
        }
    }

    /// Ends the stream: returns what is left of the running sample, unless
    /// it is empty.
    pub fn finish(self) -> (emitted: Option<FfmpegProgress>)
        ensures
            match emitted {
                Some(progress) => self@.len() > 0 && progress@ == self@,
                None => self@.len() == 0,
            },
    {
        if self.current.len() > 0 {
            Some(FfmpegProgress::new(self.current))
        } else {
            None
        }
    }
}

/// A running sample that starts without repeated keys never gains one.
pub proof fn lemma_sample_keys_stay_unique(sample: Entries, line: Seq<char>)
    requires
        unique_keys(sample),
    ensures
        unique_keys(sample_after(sample, line)),
{
    match read_line(line) {
        Line::Pair { key, value } => {
            lemma_upsert(sample, key, value, key);
        },
        _ => {},
    }
}

/// Accumulation goes on across blank lines: a blank line leaves the running
/// sample as it is, so what was gathered before it is still there after it.
pub proof fn lemma_blank_line_keeps_sample(sample: Entries, line: Seq<char>)
    requires
        read_line(line) is Blank,
    ensures
        sample_after(sample, line) == sample,
{
}

/// A key that the running sample holds stays in it whatever line follows:
/// with the value of the line if the line sets that key, else with the value
/// it had.
pub proof fn lemma_keys_persist(sample: Entries, line: Seq<char>, key: Seq<char>)
    requires
        lookup(sample, key) is Some,
    ensures
        lookup(sample_after(sample, line), key) == match read_line(line) {
            Line::Pair { key: set, value } => if set == key {
                Some(value)
            } else {
                lookup(sample, key)
            },
            _ => lookup(sample, key),
        },
        lookup(sample_after(sample, line), key) is Some,
{
    match read_line(line) {
        Line::Pair { key: set, value } => {
            lemma_upsert(sample, set, value, key);
        },
        _ => {},
    }
}

/// A sample that is handed out is never empty.
pub proof fn lemma_emitted_sample_is_not_empty(sample: Entries, line: Seq<char>)
    ensures
        sample_emitted(sample, line) matches Some(emitted) ==> emitted.len() > 0,
{
    match read_line(line) {
        Line::Pair { key, value } => {
            lemma_upsert(sample, key, value, key);
        },
        _ => {},
    }
}

} // verus!
