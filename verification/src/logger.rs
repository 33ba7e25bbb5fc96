//! The durable CSV log, modelled exactly.
//!
//! The logger renders every byte that reaches the store and keeps a
//! ghost model of the store's content: the header line it was last
//! reset to and every row appended since. The caller that owns the
//! file applies each returned line verbatim, so the model is the
//! store, line for line. Appending only ever extends the model; a row
//! with a timestamp that would corrupt the line structure is refused
//! whole.

use vstd::prelude::*;
use vstd::string::*;
use crate::fixed::Decimal;
use crate::text::{
    dec_text,
    dec_string,
    dec_digits,
    digits_val,
    is_num,
    find_from,
    u64_string,
    parse_dec_spec,
    parse_decimal,
    parse_digits,
    find_char,
    lemma_find_found,
    lemma_find_none,
    lemma_dec_digits_props,
    lemma_dec_round_trip,
};

verus! {

/// Why a row was refused.
#[derive(Clone, Copy, PartialEq, Eq, Structural, Debug)]
pub enum LogError {
    /// The timestamp holds a comma or a line break, which would break
    /// the line-oriented store.
    BadTimestamp,
}

/// A timestamp string the CSV store can carry verbatim.
pub open spec fn timestamp_ok(ts: Seq<char>) -> bool {
    forall|i: int| 0 <= i < ts.len() ==> ts[i] != ',' && ts[i] != '\n'
}

/// The text of one log row: `timestamp,register,value` and a line
/// break.
pub open spec fn row_text(ts: Seq<char>, register: u16, value: Decimal) -> Seq<char> {
    ts + seq![','] + dec_digits(register as nat) + seq![','] + dec_text(value) + seq!['\n']
}

/// The given row texts joined in order.
pub open spec fn joined(rows: Seq<Seq<char>>) -> Seq<char>
    decreases rows.len(),
{
    if rows.len() == 0 {
        Seq::empty()
    } else {
        joined(rows.drop_last()) + rows.last()
    }
}

/// Joining one more row appends exactly that row's text.
pub proof fn lemma_joined_push(rows: Seq<Seq<char>>, row: Seq<char>)
    ensures
        joined(rows.push(row)) == joined(rows) + row,
{
    assert(rows.push(row).drop_last() =~= rows);
    assert(rows.push(row).last() == row);
}

/// The append-only record sink: carries the store's path for the
/// caller that opens the file, and the exact model of its content.
pub struct FileLogger {
    /// Path of the backing store.
    pub path: String,
    /// The header line, with its line break, the store was last reset
    /// to.
    pub header: Ghost<Seq<char>>,
    /// Every row appended since the reset, in order.
    pub rows: Ghost<Seq<Seq<char>>>,
}

impl FileLogger {
    /// The store's whole content under this model.
    pub open spec fn store_content(self) -> Seq<char> {
        self.header@ + joined(self.rows@)
    }

    /// A logger for the store at `path`. Creating the store (and its
    /// directory) is the file owner's concern; nothing of an existing
    /// store is touched, so the model starts empty.
    pub fn new(path: &str) -> (l: FileLogger)
        ensures
            l.path@ == path@,
            l.header@ == Seq::<char>::empty(),
            l.rows@ == Seq::<Seq<char>>::empty(),
    {
        FileLogger { path: path.to_owned(), header: Ghost(Seq::empty()), rows: Ghost(Seq::empty()) }
    }

    /// Reset the store to exactly the header line: the returned text
    /// is the store's entire new content, discarding all prior rows.
    pub fn write_header(&mut self, header: &str) -> (text: String)
        ensures
            text@ == header@ + seq!['\n'],
            final(self).path == old(self).path,
            final(self).header@ == header@ + seq!['\n'],
            final(self).rows@ == Seq::<Seq<char>>::empty(),
            final(self).store_content() == header@ + seq!['\n'],
    {
        proof {
            reveal_strlit("\n");
        }
        let mut text = String::from_str(header);
        text.append("\n");
        proof {
            assert(text@ =~= header@ + seq!['\n']);
        }
        self.header = Ghost(text@);
        self.rows = Ghost(Seq::empty());
        proof {
            assert(self.store_content() =~= header@ + seq!['\n']);
        }
        text
    }

    /// Append one row: render `timestamp,register,value` and extend
    /// the model by exactly that line. A timestamp that would corrupt
    /// the line structure is refused and nothing changes.
    pub fn log(&mut self, timestamp: &str, register: u16, value: Decimal) -> (r: Result<
        String,
        LogError,
    >)
        requires
            value.wf(),
        ensures
            timestamp_ok(timestamp@) ==> {
                let row = row_text(timestamp@, register, value);
                &&& r is Ok
                &&& r->Ok_0@ == row
                &&& final(self).path == old(self).path
                &&& final(self).header == old(self).header
                &&& final(self).rows@ == old(self).rows@.push(row)
                &&& final(self).store_content() == old(self).store_content() + row
            },
            !timestamp_ok(timestamp@) ==> r == Result::<String, LogError>::Err(
                LogError::BadTimestamp,
            ) && *final(self) == *old(self),
    {
        if !timestamp_clean(timestamp) {
            return Err(LogError::BadTimestamp);
        }
        proof {
            reveal_strlit(",");
            reveal_strlit("\n");
        }
        let mut line = String::from_str(timestamp);
        line.append(",");
        let reg = u64_string(register as u64);
        line.append(reg.as_str());
        line.append(",");
        let val = dec_string(&value);
        line.append(val.as_str());
        line.append("\n");
        proof {
            assert(line@ =~= row_text(timestamp@, register, value));
        }
        self.rows = Ghost(self.rows@.push(line@));
        proof {
            lemma_joined_push(old(self).rows@, line@);
            assert(self.store_content() =~= old(self).store_content() + line@);
        }
        Ok(line)
    }
}

/// Whether the store can carry this timestamp verbatim.
fn timestamp_clean(ts: &str) -> (r: bool)
    ensures
        r == timestamp_ok(ts@),
{
    let n = ts.unicode_len();
    let mut i: usize = 0;
    while i < n
        invariant
            i <= n == ts@.len(),
            forall|j: int| 0 <= j < i ==> ts@[j] != ',' && ts@[j] != '\n',
        decreases n - i,
    {
        let c = ts.get_char(i);
        if c == ',' || c == '\n' {
            return false;
        }
        i = i + 1;
    }
    true
}

/// Law: one append leaves every earlier byte of the store in place —
/// the old content is a prefix of the new content.
pub proof fn lemma_append_only(before: FileLogger, after: FileLogger, row: Seq<char>)
    requires
        after.header == before.header,
        after.rows@ == before.rows@.push(row),
    ensures
        after.store_content().len() == before.store_content().len() + row.len(),
        after.store_content().subrange(0, before.store_content().len() as int)
            == before.store_content(),
{
    lemma_joined_push(before.rows@, row);
    assert(after.store_content() =~= before.store_content() + row);
    assert((before.store_content() + row).subrange(0, before.store_content().len() as int)
        =~= before.store_content());
}

/// Law: a reset followed by one successful append yields a store
/// holding exactly the header line and that row.
pub proof fn lemma_reset_then_append(l: FileLogger, row: Seq<char>)
    requires
        l.rows@ == Seq::<Seq<char>>::empty().push(row),
    ensures
        l.store_content() == l.header@ + row,
{
    lemma_joined_push(Seq::empty(), row);
    assert(joined(Seq::<Seq<char>>::empty()) + row =~= row);
    assert(l.store_content() == l.header@ + joined(l.rows@));
}

/// What a stored row line parses back to: the text before the first
/// comma, a register number, and a decimal value, the line ending in a
/// line break.
pub open spec fn parse_row_spec(s: Seq<char>) -> Option<(Seq<char>, u16, Decimal)> {
    if s.len() == 0 || s.last() != '\n' {
        None
    } else {
        let i = find_from(s, ',', 0);
        if i < 0 {
            None
        } else {
            let k = find_from(s, ',', i + 1);
            if k < 0 {
                None
            } else {
                let ts = s.subrange(0, i);
                let reg_s = s.subrange(i + 1, k);
                let val_s = s.subrange(k + 1, s.len() - 1);
                if is_num(reg_s, u16::MAX as nat) {
                    match parse_dec_spec(val_s) {
                        Some(v) => Some((ts, digits_val(reg_s) as u16, v)),
                        None => None,
                    }
                } else {
                    None
                }
            }
        }
    }
}

/// Parse one stored line back into its `(timestamp, register, value)`
/// tuple, exactly as `parse_row_spec` reads it.
pub fn parse_row(line: &str) -> (r: Option<(String, u16, Decimal)>)
    ensures
        match r {
            Some(t) => parse_row_spec(line@) == Some((t.0@, t.1, t.2)),
            None => parse_row_spec(line@) is None,
        },
{
    let n = line.unicode_len();
    if n == 0 {
        return None;
    }
    if line.get_char(n - 1) != '\n' {
        return None;
    }
    let i = match find_char(line, ',', 0, n) {
        Some(i) => i,
        None => {
            proof {
                lemma_find_none(line@, ',', 0);
            }
            return None;
        },
    };
    proof {
        lemma_find_found(line@, ',', 0, i as int);
    }
    let k = match find_char(line, ',', i + 1, n) {
        Some(k) => k,
        None => {
            proof {
                lemma_find_none(line@, ',', i as int + 1);
            }
            return None;
        },
    };
    proof {
        lemma_find_found(line@, ',', i as int + 1, k as int);
        assert(line@[k as int] == ',');
        assert(line@[n as int - 1] == '\n');
        assert(k < n - 1);
    }
    let reg = match parse_digits(line, i + 1, k, 65535) {
        Some(v) => v,
        None => {
            return None;
        },
    };
    let value = match parse_decimal(line, k + 1, n - 1) {
        Some(v) => v,
        None => {
            return None;
        },
    };
    let ts = line.substring_char(0, i).to_owned();
    Some((ts, reg as u16, value))
}

/// Law: every row the logger writes parses back to the same
/// `(timestamp, register, value)` tuple, with nothing lost.
pub proof fn lemma_row_round_trip(ts: Seq<char>, register: u16, value: Decimal)
    requires
        timestamp_ok(ts),
        value.wf(),
    ensures
        parse_row_spec(row_text(ts, register, value)) == Some((ts, register, value)),
{
    let s = row_text(ts, register, value);
    let a = dec_digits(register as nat);
    let v = dec_text(value);
    lemma_dec_digits_props(register as nat);
    assert(s.len() == ts.len() + a.len() + v.len() + 3);
    assert(s.last() == '\n');
    assert(s[ts.len() as int] == ',');
    assert(forall|j: int| 0 <= j < ts.len() ==> s[j] == ts[j]);
    lemma_find_found(s, ',', 0, ts.len() as int);
    let k = ts.len() + 1 + a.len();
    assert(s[k as int] == ',');
    assert(forall|j: int| ts.len() + 1 <= j < k ==> s[j] == a[j - ts.len() - 1]);
    lemma_find_found(s, ',', ts.len() as int + 1, k as int);
    assert(s.subrange(0, ts.len() as int) =~= ts);
    assert(s.subrange(ts.len() as int + 1, k as int) =~= a);
    assert(s.subrange(k as int + 1, s.len() - 1) =~= v);
    lemma_dec_round_trip(value);
}

} // verus!
