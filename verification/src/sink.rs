//! The record sink: encoding a record as one row of the append-only
//! output table, and an in-memory append-only buffer of encoded rows.
//!
//! The table's column order is fixed: `title, body, footer`. A field is
//! quoted exactly when it holds a delimiter, a quote or a line break;
//! inside a quoted field every quote is doubled. Each row ends with a
//! newline. Writing the buffered rows to the actual output stream
//! happens outside the library; a failed write there is fatal to the
//! run, since a silent partial write would corrupt the output.
use vstd::prelude::*;

use crate::record::{Joke, RowModel};
use crate::text::{chars_vec, string_of_chars};

verus! {

/// Whether `c` forces its field to be quoted: the delimiter, the quote,
/// or a line break.
pub open spec fn is_csv_special(c: char) -> bool {
    c == ',' || c == '"' || c == '\n' || c == '\r'
}

/// Whether the field `s` must be quoted.
pub open spec fn needs_quoting(s: Seq<char>) -> bool {
    exists|i: int| 0 <= i < s.len() && is_csv_special(s[i])
}

/// `s` with every quote doubled.
pub open spec fn escaped(s: Seq<char>) -> Seq<char>
    decreases s.len(),
{
    if s.len() == 0 {
        Seq::empty()
    } else {
        escaped(s.drop_last()) + (if s.last() == '"' {
            seq!['"', '"']
        } else {
            seq![s.last()]
        })
    }
}

/// The encoding of one field: quoted and escaped when it holds a special
/// character, and unchanged otherwise.
pub open spec fn encoded_field(s: Seq<char>) -> Seq<char> {
    if needs_quoting(s) {
        seq!['"'] + escaped(s) + seq!['"']
    } else {
        s
    }
}

/// The encoding of one record as one row, in column order
/// `title, body, footer`, ending with a newline.
pub open spec fn encoded_row(r: RowModel) -> Seq<char> {
    encoded_field(r.title) + seq![','] + encoded_field(r.body) + seq![','] + encoded_field(r.footer)
        + seq!['\n']
}

fn field_needs_quoting(f: &Vec<char>) -> (b: bool)
    ensures
        b == needs_quoting(f@),
{
    let mut i: usize = 0;
    while i < f.len()
        invariant
            i <= f.len(),
            forall|j: int| 0 <= j < i ==> !is_csv_special(f@[j]),
        decreases f.len() - i,
    {
        let c = f[i];
        if c == ',' || c == '"' || c == '\n' || c == '\r' {
            return true;
        }
        i += 1;
    }
    false
}

fn push_encoded_field(out: &mut Vec<char>, field: &str)
    ensures
        final(out)@ == old(out)@ + encoded_field(field@),
{
    let f = chars_vec(field);
    if !field_needs_quoting(&f) {
        let mut i: usize = 0;
        let ghost base = out@;
        while i < f.len()
            invariant
                i <= f.len(),
                out@ =~= base + f@.subrange(0, i as int),
            decreases f.len() - i,
        {
            out.push(f[i]);
            i += 1;
        }
        proof {
            assert(f@.subrange(0, f@.len() as int) =~= f@);
        }
        return ;
    }
    out.push('"');
    let ghost base = out@;
    let mut i: usize = 0;
    while i < f.len()
        invariant
            i <= f.len(),
            out@ =~= base + escaped(f@.subrange(0, i as int)),
        decreases f.len() - i,
    {
        let ghost pre = f@.subrange(0, i as int);
        let ghost nxt = f@.subrange(0, i + 1);
        proof {
            assert(nxt.drop_last() =~= pre);
            assert(nxt.last() == f@[i as int]);
        }
        let c = f[i];
        if c == '"' {
            out.push('"');
            out.push('"');
        } else {
            out.push(c);
        }
        proof {
            assert(out@ =~= base + escaped(nxt));
        }
        i += 1;
    }
    out.push('"');
    proof {
        assert(f@.subrange(0, f@.len() as int) =~= f@);
        assert(out@ =~= old(out)@ + encoded_field(field@));
    }
}

/// The header row of the output table, naming the three columns in
/// column order.
pub fn header_row() -> (r: String)
    ensures
        r@ == "title,body,footer\n"@,
{
    String::from_str("title,body,footer\n")
}

/// Encodes one record as one row of the output table.
pub fn encode_record(record: &Joke) -> (r: String)
    ensures
        r@ == encoded_row(record@),
{
    let mut out: Vec<char> = Vec::new();
    push_encoded_field(&mut out, record.title.as_str());
    out.push(',');
    push_encoded_field(&mut out, record.body.as_str());
    out.push(',');
    push_encoded_field(&mut out, record.footer.as_str());
    out.push('\n');
    proof {
        assert(out@ =~= encoded_row(record@));
    }
    string_of_chars(out)
}

/// An append-only in-memory buffer of encoded rows: rows leave it in
/// exactly the order records were appended, with no reordering and no
/// dropping.
pub struct RecordSink {
    rows: Vec<String>,
}

impl View for RecordSink {
    type V = Seq<Seq<char>>;

    closed spec fn view(&self) -> Seq<Seq<char>> {
        self.rows.deep_view()
    }
}

impl RecordSink {
    /// An empty sink.
    pub fn new() -> (s: RecordSink)
        ensures
            s@ == Seq::<Seq<char>>::empty(),
    {
        let s = RecordSink { rows: Vec::new() };
        proof {
            assert(s@ =~= Seq::<Seq<char>>::empty());
        }
        s
    }

    /// Appends one record as one encoded row, after every row appended
    /// before it.
    pub fn append(&mut self, record: &Joke)
        ensures
            final(self)@ == old(self)@.push(encoded_row(record@)),
    {
        let row = encode_record(record);
        let ghost rv = row@;
        self.rows.push(row);
        proof {
            assert(self@ =~= old(self)@.push(rv));
        }
    }

    /// The encoded rows, in append order.
    pub fn rows(&self) -> (r: &Vec<String>)
        ensures
            r.deep_view() == self@,
    {
        &self.rows
    }
}

} // verus!
