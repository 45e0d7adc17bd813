//! Renders entries as CSV rows, marking repeated string ids.
use crate::composer::FromageCook;
use crate::fromage::{Fromage, FromageKind, FromageView, KindView};
use crate::parser::csv::{com_word, ignored_str_word, msg_word, str_word};
use crate::text::{decimal_of, push_decimal};
use std::collections::HashSet;
use vstd::prelude::*;
use vstd::string::*;

verus! {

broadcast use vstd::std_specs::hash::group_hash_axioms;

/// `KIND<sep>ID<sep>ORIGINAL`
pub open spec fn csv_header(sep: char) -> Seq<char> {
    seq!['K', 'I', 'N', 'D', sep, 'I', 'D', sep, 'O', 'R', 'I', 'G', 'I', 'N', 'A', 'L']
}

/// `<kind><sep><id><sep>"<val>"`
pub open spec fn resource_row(kind: Seq<char>, sep: char, id: u64, val: Seq<char>) -> Seq<char> {
    kind + seq![sep] + decimal_of(id as nat) + seq![sep, '"'] + val + seq!['"']
}

/// The CSV row for an entry, given the string ids already written.
pub open spec fn csv_line(seen: Set<u64>, sep: char, f: FromageView) -> Seq<char> {
    match f.kind {
        KindView::Empty => Seq::empty(),
        KindView::Comment(text) => com_word() + seq![sep, '#', '#', '#', sep] + text,
        KindView::Str { id, val } => resource_row(
            if seen.contains(id) { ignored_str_word() } else { str_word() },
            sep,
            id,
            val,
        ),
        KindView::Msg { id, val } => resource_row(msg_word(), sep, id, val),
    }
}

/// The string ids written once an entry is written.
pub open spec fn csv_seen(seen: Set<u64>, f: FromageView) -> Set<u64> {
    match f.kind {
        KindView::Str { id, .. } => seen.insert(id),
        _ => seen,
    }
}

/// Writes entries in the CSV format. Only the first string entry of an id is
/// written with kind `str`; later ones get `(str)`. Message ids are not tracked.
pub struct CsvComposer {
    pub sep: char,
    inserted_str_id: HashSet<u64>,
}

fn push_row(out: &mut String, sep: char, id: u64, val: &String)
    ensures
        final(out)@ == old(out)@ + seq![sep] + decimal_of(id as nat) + seq![sep, '"'] + val@
            + seq!['"'],
{
    out.push(sep);
    push_decimal(out, id);
    out.push(sep);
    out.push('"');
    out.append(val.as_str());
    out.push('"');
    assert(final(out)@ =~= old(out)@ + seq![sep] + decimal_of(id as nat) + seq![sep, '"']
        + val@ + seq!['"']);
}

impl CsvComposer {
    /// The separator written between fields.
    pub closed spec fn separator(&self) -> char {
        self.sep
    }

    /// The string ids written so far.
    pub closed spec fn seen(&self) -> Set<u64> {
        self.inserted_str_id@
    }

    pub fn new(sep: char) -> (r: Self)
        ensures
            r.separator() == sep,
            r.seen() == Set::<u64>::empty(),
    {
        CsvComposer { sep, inserted_str_id: HashSet::new() }
    }

    /// The header row, without its line break.
    pub fn header_line(&self) -> (r: String)
        ensures
            r@ == csv_header(self.separator()),
    {
        let mut out = String::new();
        out.push('K');
        out.push('I');
        out.push('N');
        out.push('D');
        out.push(self.sep);
        out.push('I');
        out.push('D');
        out.push(self.sep);
        out.push('O');
        out.push('R');
        out.push('I');
        out.push('G');
        out.push('I');
        out.push('N');
        out.push('A');
        out.push('L');
        assert(out@ =~= csv_header(self.sep));
        out
    }

    /// The row for `fromage`, without its line break; records a string id as written.
    pub fn line(&mut self, fromage: &Fromage) -> (r: String)
        ensures
            r@ == csv_line(old(self).seen(), old(self).separator(), fromage@),
            final(self).seen() == csv_seen(old(self).seen(), fromage@),
            final(self).separator() == old(self).separator(),
    {
        let sep = self.sep;
        let mut out = String::new();
        match &fromage.kind {
            FromageKind::Empty => {},
            FromageKind::Comment(text) => {
                out.push('c');
                out.push('o');
                out.push('m');
                out.push(sep);
                out.push('#');
                out.push('#');
                out.push('#');
                out.push(sep);
                out.append(text.as_str());
            },
            FromageKind::Str { id, val } => {
                if self.inserted_str_id.contains(id) {
                    out.push('(');
                    out.push('s');
                    out.push('t');
                    out.push('r');
                    out.push(')');
                } else {
                    self.inserted_str_id.insert(*id);
                    out.push('s');
                    out.push('t');
                    out.push('r');
                }
                push_row(&mut out, sep, *id, val);
                assert(self.inserted_str_id@ =~= old(self).inserted_str_id@.insert(*id));
            },
            FromageKind::Msg { id, val } => {
                out.push('m');
                out.push('s');
                out.push('g');
                push_row(&mut out, sep, *id, val);
            },
        }
        assert(out@ =~= csv_line(old(self).seen(), old(self).sep, fromage@));
        out
    }
}

impl FromageCook for CsvComposer {
    fn header(&self) -> (r: Option<String>)
        ensures
            r is Some,
            r->Some_0@ == csv_header(self.separator()),
    {
        Some(self.header_line())
    }

    fn cook(&mut self, fromage: &Fromage) -> (r: String)
        ensures
            r@ == csv_line(old(self).seen(), old(self).separator(), fromage@),
            final(self).seen() == csv_seen(old(self).seen(), fromage@),
            final(self).separator() == old(self).separator(),
    {
        self.line(fromage)
    }

    fn line_end(&self) -> (r: &'static str)
        ensures
            r@ == seq!['\n'],
    {
        proof {
            reveal_strlit("\n");
        }
        "\n"
    }
}

} // verus!
