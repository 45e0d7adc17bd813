//! The ATools line format: `s[<id>] = "<val>"`, `m[<id>] = "<val>"`, `; comment`.
use crate::error::LactoseIntolerance;
use crate::fromage::{entry, Fromage, FromageKind, FromageView, KindView};
use crate::parser::{bad_line, bad_line_message, owned_string, FromageMaker, FromagemakingProcess};
use crate::text::{parse_u64, parse_u64_spec};
use vstd::prelude::*;
use vstd::string::*;

verus! {

/// Where a left-to-right scan of an entry's characters after its tag stands.
pub enum EntryScan {
    /// Looking for the `[` that opens the id.
    Open,
    /// Collecting the id, up to `]`.
    Id(Seq<char>),
    /// Looking for the `"` that opens the value.
    Quote(Seq<char>),
    /// Collecting the value, up to the closing `"`.
    Val(Seq<char>, Seq<char>),
    /// Id and value are complete; the rest of the line is not read.
    Done(Seq<char>, Seq<char>),
}

pub open spec fn entry_step(st: EntryScan, c: char) -> EntryScan {
    match st {
        EntryScan::Open => if c == '[' { EntryScan::Id(Seq::empty()) } else { EntryScan::Open },
        EntryScan::Id(id) => if c == ']' { EntryScan::Quote(id) } else { EntryScan::Id(id.push(c)) },
        EntryScan::Quote(id) => if c == '"' {
            EntryScan::Val(id, Seq::empty())
        } else {
            EntryScan::Quote(id)
        },
        EntryScan::Val(id, val) => if c == '"' {
            EntryScan::Done(id, val)
        } else {
            EntryScan::Val(id, val.push(c))
        },
        EntryScan::Done(id, val) => EntryScan::Done(id, val),
    }
}

pub open spec fn entry_scan(st: EntryScan, s: Seq<char>) -> EntryScan
    decreases s.len(),
{
    if s.len() == 0 {
        st
    } else {
        entry_step(entry_scan(st, s.drop_last()), s.last())
    }
}

/// The kind of an entry line `<tag>…[<id>]…"<val>"`, tag `s` or `m`.
pub open spec fn entry_kind(body: Seq<char>) -> Option<KindView> {
    if body.len() == 0 {
        None
    } else {
        match entry_scan(EntryScan::Open, body.drop_first()) {
            EntryScan::Done(id, val) => match parse_u64_spec(id) {
                Some(n) => if body[0] == 's' {
                    Some(KindView::Str { id: n, val })
                } else if body[0] == 'm' {
                    Some(KindView::Msg { id: n, val })
                } else {
                    None
                },
                None => None,
            },
            _ => None,
        }
    }
}

/// The entry that an ATools line denotes; `None` for a malformed line.
pub open spec fn atools_parse(line: Seq<char>) -> Option<FromageView> {
    if line.len() == 0 {
        Some(entry(KindView::Empty, false))
    } else if line[0] == ';' {
        if line.len() >= 2 && line[1] == ' ' {
            Some(entry(KindView::Comment(line.subrange(2, line.len() as int)), false))
        } else if line.len() >= 2 && (line[1] == 's' || line[1] == 'm') {
            match entry_kind(line.drop_first()) {
                Some(k) => Some(entry(k, true)),
                None => None,
            }
        } else {
            Some(entry(KindView::Comment(line.drop_first()), false))
        }
    } else {
        match entry_kind(line) {
            Some(k) => Some(entry(k, false)),
            None => None,
        }
    }
}

spec fn scan_state(phase: u8, id: Seq<char>, val: Seq<char>) -> EntryScan {
    if phase == 0 {
        EntryScan::Open
    } else if phase == 1 {
        EntryScan::Id(id)
    } else if phase == 2 {
        EntryScan::Quote(id)
    } else if phase == 3 {
        EntryScan::Val(id, val)
    } else {
        EntryScan::Done(id, val)
    }
}

fn parse_entry(body: &str) -> (r: Option<FromageKind>)
    ensures
        match r {
            Some(k) => entry_kind(body@) == Some(k@),
            None => entry_kind(body@) is None,
        },
{
    let n = body.unicode_len();
    if n == 0 {
        return None;
    }
    let tag = body.get_char(0);
    let rest = body.substring_char(1, n);
    assert(rest@ == body@.drop_first());
    let mut phase: u8 = 0;
    let mut id: Vec<char> = Vec::new();
    let mut val = String::new();
    for c in it: rest.chars()
        invariant
            phase <= 4,
            phase == 0 ==> id@ == Seq::<char>::empty(),
            phase <= 2 ==> val@ == Seq::<char>::empty(),
            it.seq() == rest@,
            scan_state(phase, id@, val@) == entry_scan(
                EntryScan::Open,
                rest@.subrange(0, it.index() as int),
            ),
    {
        let ghost pre = rest@.subrange(0, it.index() as int);
        let ghost next = rest@.subrange(0, it.index() + 1);
        assert(next.drop_last() == pre);
        assert(next.last() == c);
        assert(entry_scan(EntryScan::Open, next) == entry_step(entry_scan(EntryScan::Open, pre), c));
        if phase == 0 {
            if c == '[' {
                phase = 1;
            }
        } else if phase == 1 {
            if c == ']' {
                phase = 2;
            } else {
                id.push(c);
            }
        } else if phase == 2 {
            if c == '"' {
                phase = 3;
            }
        } else if phase == 3 {
            if c == '"' {
                phase = 4;
            } else {
                val.push(c);
            }
        }
    }
    assert(rest@.subrange(0, rest@.len() as int) == rest@);
    if phase != 4 {
        return None;
    }
    match parse_u64(&id) {
        Some(num) => {
            if tag == 's' {
                Some(FromageKind::Str { id: num, val })
            } else if tag == 'm' {
                Some(FromageKind::Msg { id: num, val })
            } else {
                None
            }
        },
        None => None,
    }
}

/// Parses one ATools line; a malformed line is handed back as the error.
pub fn parse_line(line: &str) -> (r: Result<Fromage, &str>)
    ensures
        match r {
            Ok(f) => atools_parse(line@) == Some(f@),
            Err(bad) => atools_parse(line@) is None && bad@ == line@,
        },
{
    let n = line.unicode_len();
    if n == 0 {
        return Ok(Fromage::empty());
    }
    if line.get_char(0) == ';' {
        if n >= 2 && line.get_char(1) == ' ' {
            let text = owned_string(line.substring_char(2, n));
            return Ok(Fromage::comment(text));
        }
        if n >= 2 && (line.get_char(1) == 's' || line.get_char(1) == 'm') {
            let body = line.substring_char(1, n);
            assert(body@ == line@.drop_first());
            return match parse_entry(body) {
                Some(kind) => Ok(Fromage { kind, ignored: true }),
                None => Err(line),
            };
        }
        let text = owned_string(line.substring_char(1, n));
        assert(text@ == line@.drop_first());
        return Ok(Fromage::comment(text));
    }
    match parse_entry(line) {
        Some(kind) => Ok(Fromage { kind, ignored: false }),
        None => Err(line),
    }
}

/// Makes ATools parsing processes; the format has no header.
pub struct AToolsMaker;

impl Default for AToolsMaker {
    fn default() -> (r: AToolsMaker) {
        AToolsMaker
    }
}

impl FromageMaker for AToolsMaker {
    type Process = AToolsParser;

    fn process(self, header: Option<&str>) -> (r: Result<AToolsParser, LactoseIntolerance>)
        ensures
            r is Ok,
    {
        Ok(AToolsParser)
    }
}

/// Parses ATools input line by line; each line is read on its own.
pub struct AToolsParser;

impl FromagemakingProcess for AToolsParser {
    fn next_fromage(&mut self, line: &str) -> (r: Result<Fromage, LactoseIntolerance>)
        ensures
            match r {
                Ok(f) => atools_parse(line@) == Some(f@),
                Err(e) => atools_parse(line@) is None && e is Dyn && e->Dyn_0@
                    == bad_line_message(line@),
            },
    {
        match parse_line(line) {
            Ok(f) => Ok(f),
            Err(bad) => Err(bad_line(bad)),
        }
    }
}

} // verus!
