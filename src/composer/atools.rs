//! Renders entries as ATools lines.
use crate::composer::FromageCook;
use crate::fromage::{Fromage, FromageKind, FromageView, KindView};
use crate::text::{decimal_of, push_decimal};
use vstd::prelude::*;
use vstd::string::*;

verus! {

/// `<tag>[<id>] = "<val>"`
pub open spec fn entry_line(tag: char, id: u64, val: Seq<char>) -> Seq<char> {
    seq![tag, '['] + decimal_of(id as nat) + seq![']', ' ', '=', ' ', '"'] + val + seq!['"']
}

/// The ATools line for an entry, without its line break.
pub open spec fn atools_line(f: FromageView) -> Seq<char> {
    let mark = if f.ignored { seq![';'] } else { Seq::empty() };
    match f.kind {
        KindView::Empty => Seq::empty(),
        KindView::Comment(text) => seq![';', ' '] + text,
        KindView::Str { id, val } => mark + entry_line('s', id, val),
        KindView::Msg { id, val } => mark + entry_line('m', id, val),
    }
}

/// Writes entries in the ATools format. No escaping is done: a value that
/// holds `"` does not read back the same.
pub struct AToolsComposer;

fn push_entry(out: &mut String, tag: char, id: u64, val: &String)
    ensures
        final(out)@ == old(out)@ + entry_line(tag, id, val@),
{
    out.push(tag);
    out.push('[');
    push_decimal(out, id);
    out.push(']');
    out.push(' ');
    out.push('=');
    out.push(' ');
    out.push('"');
    out.append(val.as_str());
    out.push('"');
    assert(final(out)@ =~= old(out)@ + entry_line(tag, id, val@));
}

impl AToolsComposer {
    /// The ATools line for `fromage`, without its line break.
    pub fn line(&self, fromage: &Fromage) -> (r: String)
        ensures
            r@ == atools_line(fromage@),
    {
        let mut out = String::new();
        match &fromage.kind {
            FromageKind::Empty => {},
            FromageKind::Comment(text) => {
                out.push(';');
                out.push(' ');
                out.append(text.as_str());
            },
            FromageKind::Str { id, val } => {
                if fromage.ignored {
                    out.push(';');
                }
                push_entry(&mut out, 's', *id, val);
            },
            FromageKind::Msg { id, val } => {
                if fromage.ignored {
                    out.push(';');
                }
                push_entry(&mut out, 'm', *id, val);
            },
        }
        assert(out@ =~= atools_line(fromage@));
        out
    }
}

impl FromageCook for AToolsComposer {
    fn header(&self) -> (r: Option<String>)
        ensures
            r is None,
    {
        None
    }

    fn cook(&mut self, fromage: &Fromage) -> (r: String)
        ensures
            r@ == atools_line(fromage@),
    {
        self.line(fromage)
    }

    fn line_end(&self) -> (r: &'static str)
        ensures
            r@ == seq!['\r', '\n'],
    {
        proof {
            reveal_strlit("\r\n");
        }
        "\r\n"
    }
}

} // verus!
