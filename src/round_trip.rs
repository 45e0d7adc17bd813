//! What holds of a parser and a composer used together.
use crate::composer::atools::{atools_line, entry_line};
use crate::composer::csv::{csv_line, csv_seen};
use crate::fromage::{entry, FromageView, KindView};
use crate::parser::atools::{atools_parse, entry_kind, entry_scan, entry_step, EntryScan};
use crate::composer::csv::resource_row;
use crate::parser::csv::{
    com_word, csv_parse, ignored_str_word, msg_word, row_scan, row_start, row_step,
    str_word, RowScan,
};
use crate::text::{all_digits, decimal_of, is_digit, lemma_decimal_of, lemma_parse_decimal};
use vstd::prelude::*;

verus! {

proof fn lemma_entry_scan_concat(st: EntryScan, a: Seq<char>, b: Seq<char>)
    ensures
        entry_scan(st, a + b) == entry_scan(entry_scan(st, a), b),
    decreases b.len(),
{
    if b.len() == 0 {
        assert(a + b == a);
    } else {
        lemma_entry_scan_concat(st, a, b.drop_last());
        assert((a + b).drop_last() == a + b.drop_last());
        assert((a + b).last() == b.last());
    }
}

proof fn lemma_entry_scan_one(st: EntryScan, c: char)
    ensures
        entry_scan(st, seq![c]) == entry_step(st, c),
{
    assert(seq![c].drop_last() == Seq::<char>::empty());
    assert(seq![c].last() == c);
    assert(entry_scan(st, Seq::<char>::empty()) == st);
}

proof fn lemma_entry_scan_id(acc: Seq<char>, s: Seq<char>)
    requires
        all_digits(s),
    ensures
        entry_scan(EntryScan::Id(acc), s) == EntryScan::Id(acc + s),
    decreases s.len(),
{
    if s.len() == 0 {
        assert(acc + s == acc);
    } else {
        let t = s.drop_last();
        assert(all_digits(t)) by {
            assert forall|i: int| 0 <= i < t.len() implies is_digit(#[trigger] t[i]) by {
                assert(t[i] == s[i]);
            }
        }
        lemma_entry_scan_id(acc, t);
        assert(is_digit(s[s.len() - 1]));
        assert(acc + s == (acc + t).push(s.last()));
    }
}

proof fn lemma_entry_scan_val(id: Seq<char>, acc: Seq<char>, s: Seq<char>)
    requires
        !s.contains('"'),
    ensures
        entry_scan(EntryScan::Val(id, acc), s) == EntryScan::Val(id, acc + s),
    decreases s.len(),
{
    if s.len() == 0 {
        assert(acc + s == acc);
    } else {
        let t = s.drop_last();
        assert(!t.contains('"')) by {
            if t.contains('"') {
                let i = choose|i: int| 0 <= i < t.len() && t[i] == '"';
                assert(s[i] == '"');
            }
        }
        lemma_entry_scan_val(id, acc, t);
        assert(s[s.len() - 1] != '"');
        assert(acc + s == (acc + t).push(s.last()));
    }
}

/// A value collected by an ATools scan never holds `"`.
proof fn lemma_entry_scan_no_quote(s: Seq<char>)
    ensures
        match entry_scan(EntryScan::Open, s) {
            EntryScan::Val(_, v) => !v.contains('"'),
            EntryScan::Done(_, v) => !v.contains('"'),
            _ => true,
        },
    decreases s.len(),
{
    if s.len() > 0 {
        lemma_entry_scan_no_quote(s.drop_last());
        match entry_scan(EntryScan::Open, s.drop_last()) {
            EntryScan::Val(id, v) => {
                if s.last() != '"' {
                    assert forall|i: int| 0 <= i < v.push(s.last()).len() implies v.push(
                        s.last(),
                    )[i] != '"' by {
                        if i < v.len() {
                            assert(v.push(s.last())[i] == v[i]);
                        }
                    }
                }
            },
            _ => {},
        }
    }
}

pub open spec fn tagged_kind(tag: char, id: u64, val: Seq<char>) -> KindView {
    if tag == 's' {
        KindView::Str { id, val }
    } else {
        KindView::Msg { id, val }
    }
}

/// An ATools line `s[<id>] = "<val>"` (or with tag `m`), where `val` holds no
/// `"`, parses to that entry, and composing the entry gives the line back;
/// with a leading `;` the same holds of the ignored entry.
pub proof fn lemma_atools_entry_round_trip(tag: char, id: u64, val: Seq<char>, ignored: bool)
    requires
        tag == 's' || tag == 'm',
        !val.contains('"'),
    ensures
        ({
            let line = (if ignored { seq![';'] } else { Seq::empty() }) + entry_line(tag, id, val);
            &&& atools_parse(line) == Some(entry(tagged_kind(tag, id, val), ignored))
            &&& atools_line(entry(tagged_kind(tag, id, val), ignored)) == line
        }),
{
    let d = decimal_of(id as nat);
    lemma_decimal_of(id as nat);
    lemma_parse_decimal(id);
    let body = entry_line(tag, id, val);
    let rest = seq!['['] + d + seq![']', ' ', '=', ' ', '"'] + val + seq!['"'];
    assert(body.drop_first() == rest);
    let e = EntryScan::Open;
    lemma_entry_scan_concat(e, seq!['['] + d + seq![']', ' ', '=', ' ', '"'] + val, seq!['"']);
    lemma_entry_scan_concat(e, seq!['['] + d + seq![']', ' ', '=', ' ', '"'], val);
    lemma_entry_scan_concat(e, seq!['['] + d + seq![']', ' ', '='], seq![' ', '"']);
    lemma_entry_scan_concat(e, seq!['['] + d + seq![']', ' '], seq!['=']);
    lemma_entry_scan_concat(e, seq!['['] + d, seq![']', ' ']);
    lemma_entry_scan_concat(e, seq!['['], d);
    assert(seq!['['] + d + seq![']', ' ', '=', ' ', '"'] == seq!['['] + d + seq![']', ' ', '=']
        + seq![' ', '"']);
    assert(seq!['['] + d + seq![']', ' ', '='] == seq!['['] + d + seq![']', ' '] + seq!['=']);
    lemma_entry_scan_one(e, '[');
    lemma_entry_scan_id(Seq::empty(), d);
    assert(Seq::<char>::empty() + d == d);
    let s1 = EntryScan::Id(d);
    lemma_entry_scan_concat(s1, seq![']'], seq![' ']);
    assert(seq![']', ' '] == seq![']'] + seq![' ']);
    lemma_entry_scan_one(s1, ']');
    lemma_entry_scan_one(EntryScan::Quote(d), ' ');
    lemma_entry_scan_one(EntryScan::Quote(d), '=');
    lemma_entry_scan_concat(EntryScan::Quote(d), seq![' '], seq!['"']);
    assert(seq![' ', '"'] == seq![' '] + seq!['"']);
    lemma_entry_scan_one(EntryScan::Quote(d), '"');
    lemma_entry_scan_val(d, Seq::empty(), val);
    assert(Seq::<char>::empty() + val == val);
    lemma_entry_scan_one(EntryScan::Val(d, val), '"');
    assert(entry_scan(e, rest) == EntryScan::Done(d, val));
    assert(entry_kind(body) == Some(tagged_kind(tag, id, val)));
    let line = (if ignored { seq![';'] } else { Seq::empty() }) + body;
    if ignored {
        assert(line.drop_first() == body);
        assert(line[1] == tag);
    } else {
        assert(line == body);
    }
    assert(atools_line(entry(tagged_kind(tag, id, val), ignored)) =~= line);
}

/// Parsing an ATools line, composing the entry and parsing the result gives
/// the same entry back.
pub proof fn lemma_atools_parse_compose_parse(line: Seq<char>)
    requires
        atools_parse(line) is Some,
    ensures
        atools_parse(atools_line(atools_parse(line)->Some_0)) == atools_parse(line),
{
    let f = atools_parse(line)->Some_0;
    match f.kind {
        KindView::Empty => {
            assert(atools_line(f) == Seq::<char>::empty());
        },
        KindView::Comment(text) => {
            let out = atools_line(f);
            assert(out.subrange(2, out.len() as int) == text);
        },
        KindView::Str { id, val } => {
            let body = if f.ignored { line.drop_first() } else { line };
            lemma_entry_scan_no_quote(body.drop_first());
            lemma_atools_entry_round_trip('s', id, val, f.ignored);
        },
        KindView::Msg { id, val } => {
            let body = if f.ignored { line.drop_first() } else { line };
            lemma_entry_scan_no_quote(body.drop_first());
            lemma_atools_entry_round_trip('m', id, val, f.ignored);
        },
    }
}

/// A line `;` followed by an entry line tagged `s` or `m` denotes the same
/// entry, marked ignored; it is malformed exactly when the entry line is.
pub proof fn lemma_ignored_prefix(body: Seq<char>)
    requires
        body.len() > 0,
        body[0] == 's' || body[0] == 'm',
    ensures
        atools_parse(seq![';'] + body) == match atools_parse(body) {
            Some(f) => Some(entry(f.kind, true)),
            None => None,
        },
{
    assert((seq![';'] + body).drop_first() == body);
    assert((seq![';'] + body)[1] == body[0]);
}

/// A blank line is the empty entry in both formats, and the empty entry
/// is written as a blank line in both.
pub proof fn lemma_blank_lines(sep: char, column: int, seen: Set<u64>)
    ensures
        atools_parse(Seq::empty()) == Some(entry(KindView::Empty, false)),
        csv_parse(Seq::empty(), sep, column) == Some(entry(KindView::Empty, false)),
        atools_line(entry(KindView::Empty, false)) == Seq::<char>::empty(),
        csv_line(seen, sep, entry(KindView::Empty, false)) == Seq::<char>::empty(),
        csv_seen(seen, entry(KindView::Empty, false)) == seen,
{
}

proof fn lemma_row_scan_concat(st: RowScan, a: Seq<char>, b: Seq<char>, sep: char, column: int)
    ensures
        row_scan(st, a + b, sep, column) == row_scan(row_scan(st, a, sep, column), b, sep, column),
    decreases b.len(),
{
    if b.len() == 0 {
        assert(a + b == a);
    } else {
        lemma_row_scan_concat(st, a, b.drop_last(), sep, column);
        assert((a + b).drop_last() == a + b.drop_last());
        assert((a + b).last() == b.last());
    }
}

proof fn lemma_row_scan_one(st: RowScan, c: char, sep: char, column: int)
    ensures
        row_scan(st, seq![c], sep, column) == row_step(st, c, sep, column),
{
    assert(seq![c].drop_last() == Seq::<char>::empty());
    assert(seq![c].last() == c);
    assert(row_scan(st, Seq::<char>::empty(), sep, column) == st);
}

proof fn lemma_no_char_drop_last(s: Seq<char>, c: char)
    requires
        s.len() > 0,
        !s.contains(c),
    ensures
        !s.drop_last().contains(c),
        s.last() != c,
{
    if s.drop_last().contains(c) {
        let i = choose|i: int| 0 <= i < s.drop_last().len() && s.drop_last()[i] == c;
        assert(s[i] == c);
    }
    assert(s[s.len() - 1] == s.last());
}

proof fn lemma_row_kind_run(acc: Seq<char>, s: Seq<char>, sep: char, column: int)
    requires
        !s.contains(sep),
    ensures
        row_scan(RowScan::Kind(acc), s, sep, column) == RowScan::Kind(acc + s),
    decreases s.len(),
{
    if s.len() == 0 {
        assert(acc + s == acc);
    } else {
        lemma_no_char_drop_last(s, sep);
        lemma_row_kind_run(acc, s.drop_last(), sep, column);
        assert(acc + s == (acc + s.drop_last()).push(s.last()));
    }
}

proof fn lemma_row_id_run(kind: Seq<char>, acc: Seq<char>, s: Seq<char>, sep: char, column: int)
    requires
        !s.contains(sep),
    ensures
        row_scan(RowScan::Id(kind, acc), s, sep, column) == RowScan::Id(kind, acc + s),
    decreases s.len(),
{
    if s.len() == 0 {
        assert(acc + s == acc);
    } else {
        lemma_no_char_drop_last(s, sep);
        lemma_row_id_run(kind, acc, s.drop_last(), sep, column);
        assert(acc + s == (acc + s.drop_last()).push(s.last()));
    }
}

/// Inside the target column, characters that cannot end the field are kept.
proof fn lemma_row_field_run(
    kind: Seq<char>,
    id: Seq<char>,
    target: int,
    quoted: bool,
    val: Seq<char>,
    s: Seq<char>,
    sep: char,
    column: int,
)
    requires
        !s.contains('"'),
        !quoted ==> !s.contains(sep),
    ensures
        row_scan(
            RowScan::Field { kind, id, target, col: target, quoted, val },
            s,
            sep,
            column,
        ) == (RowScan::Field { kind, id, target, col: target, quoted, val: val + s }),
    decreases s.len(),
{
    if s.len() == 0 {
        assert(val + s == val);
    } else {
        lemma_no_char_drop_last(s, '"');
        if !quoted {
            lemma_no_char_drop_last(s, sep);
        }
        lemma_row_field_run(kind, id, target, quoted, val, s.drop_last(), sep, column);
        assert(val + s == (val + s.drop_last()).push(s.last()));
    }
}

proof fn lemma_push_no_char(v: Seq<char>, x: char, c: char)
    requires
        !v.contains(c),
        x != c,
    ensures
        !v.push(x).contains(c),
{
    assert forall|i: int| 0 <= i < v.push(x).len() implies v.push(x)[i] != c by {
        if i < v.len() {
            assert(v.push(x)[i] == v[i]);
        }
    }
}

/// A value collected by a CSV row scan never holds `"`.
proof fn lemma_row_scan_no_quote(s: Seq<char>, sep: char, column: int)
    ensures
        match row_scan(row_start(), s, sep, column) {
            RowScan::Field { val, .. } => !val.contains('"'),
            RowScan::Done { val, .. } => !val.contains('"'),
            _ => true,
        },
    decreases s.len(),
{
    if s.len() > 0 {
        lemma_row_scan_no_quote(s.drop_last(), sep, column);
        match row_scan(row_start(), s.drop_last(), sep, column) {
            RowScan::Field { val, .. } => {
                if s.last() != '"' {
                    lemma_push_no_char(val, s.last(), '"');
                }
            },
            RowScan::Id(..) => {
                assert(!Seq::<char>::empty().contains('"'));
            },
            _ => {},
        }
    }
}

/// The characters that rows written by the CSV composer use for their own markup.
pub open spec fn csv_markup(c: char) -> bool {
    is_digit(c) || c == '"' || c == '#' || c == '(' || c == ')' || c == 's' || c == 't' || c
        == 'r' || c == 'c' || c == 'o' || c == 'm' || c == 'g'
}

/// What a CSV row reads back as once composed: string entries are marked
/// ignored exactly when their id was written before.
pub open spec fn csv_reread(seen: Set<u64>, f: FromageView) -> FromageView {
    match f.kind {
        KindView::Str { id, val } => entry(f.kind, seen.contains(id)),
        _ => entry(f.kind, false),
    }
}

proof fn lemma_word_no_sep(w: Seq<char>, sep: char)
    requires
        forall|i: int| 0 <= i < w.len() ==> csv_markup(#[trigger] w[i]),
        !csv_markup(sep),
    ensures
        !w.contains(sep),
{
}

proof fn lemma_resource_row(kind: Seq<char>, sep: char, id: u64, val: Seq<char>)
    requires
        kind == str_word() || kind == ignored_str_word() || kind == msg_word(),
        !csv_markup(sep),
        !val.contains('"'),
    ensures
        ({
            let row = resource_row(kind, sep, id, val);
            &&& row.len() > 0
            &&& row_scan(row_start(), row, sep, 2) == (RowScan::Field {
                kind,
                id: decimal_of(id as nat),
                target: 2,
                col: 2,
                quoted: false,
                val,
            })
        }),
{
    let d = decimal_of(id as nat);
    lemma_decimal_of(id as nat);
    let st = row_start();
    let f0 = RowScan::Field { kind, id: d, target: 2, col: 2, quoted: false, val: Seq::empty() };
    let f1 = RowScan::Field { kind, id: d, target: 2, col: 2, quoted: true, val: Seq::empty() };
    let f2 = RowScan::Field { kind, id: d, target: 2, col: 2, quoted: true, val };
    lemma_word_no_sep(kind, sep);
    assert(!d.contains(sep)) by {
        if d.contains(sep) {
            let i = choose|i: int| 0 <= i < d.len() && d[i] == sep;
            assert(is_digit(d[i]));
        }
    }
    assert(kind != com_word()) by {
        if kind == com_word() {
            assert(kind[0] == 'c');
        }
    }
    lemma_row_kind_run(Seq::empty(), kind, sep, 2);
    assert(Seq::<char>::empty() + kind == kind);
    lemma_row_scan_one(RowScan::Kind(kind), sep, sep, 2);
    lemma_row_id_run(kind, Seq::empty(), d, sep, 2);
    assert(Seq::<char>::empty() + d == d);
    lemma_row_scan_one(RowScan::Id(kind, d), sep, sep, 2);
    lemma_row_scan_one(f0, '"', sep, 2);
    lemma_row_field_run(kind, d, 2, true, Seq::empty(), val, sep, 2);
    assert(Seq::<char>::empty() + val == val);
    lemma_row_scan_one(f2, '"', sep, 2);
    let a = kind;
    let b = a + seq![sep];
    let c = b + d;
    let e = c + seq![sep];
    let g = e + seq!['"'];
    let h = g + val;
    let row = h + seq!['"'];
    assert(row =~= resource_row(kind, sep, id, val));
    lemma_row_scan_concat(st, Seq::empty(), a, sep, 2);
    assert(Seq::<char>::empty() + a == a);
    lemma_row_scan_concat(st, a, seq![sep], sep, 2);
    lemma_row_scan_concat(st, b, d, sep, 2);
    lemma_row_scan_concat(st, c, seq![sep], sep, 2);
    lemma_row_scan_concat(st, e, seq!['"'], sep, 2);
    lemma_row_scan_concat(st, g, val, sep, 2);
    lemma_row_scan_concat(st, h, seq!['"'], sep, 2);
    assert(row_scan(st, Seq::<char>::empty(), sep, 2) == st);
}

proof fn lemma_comment_row(sep: char, text: Seq<char>)
    requires
        !csv_markup(sep),
        !text.contains('"'),
        !text.contains(sep),
    ensures
        ({
            let row = com_word() + seq![sep, '#', '#', '#', sep] + text;
            &&& row.len() > 0
            &&& row_scan(row_start(), row, sep, 2) == (RowScan::Field {
                kind: com_word(),
                id: seq!['#', '#', '#'],
                target: 2,
                col: 2,
                quoted: false,
                val: text,
            })
        }),
{
    let kind = com_word();
    let hashes = seq!['#', '#', '#'];
    let st = row_start();
    let f0 = RowScan::Field {
        kind,
        id: hashes,
        target: 2,
        col: 2,
        quoted: false,
        val: Seq::empty(),
    };
    lemma_word_no_sep(kind, sep);
    lemma_word_no_sep(hashes, sep);
    lemma_row_kind_run(Seq::empty(), kind, sep, 2);
    assert(Seq::<char>::empty() + kind == kind);
    lemma_row_scan_one(RowScan::Kind(kind), sep, sep, 2);
    lemma_row_id_run(kind, Seq::empty(), hashes, sep, 2);
    assert(Seq::<char>::empty() + hashes == hashes);
    lemma_row_scan_one(RowScan::Id(kind, hashes), sep, sep, 2);
    lemma_row_field_run(kind, hashes, 2, false, Seq::empty(), text, sep, 2);
    assert(Seq::<char>::empty() + text == text);
    let a = kind;
    let b = a + seq![sep];
    let c = b + hashes;
    let e = c + seq![sep];
    let row = e + text;
    assert(row =~= com_word() + seq![sep, '#', '#', '#', sep] + text);
    lemma_row_scan_concat(st, Seq::empty(), a, sep, 2);
    assert(Seq::<char>::empty() + a == a);
    lemma_row_scan_concat(st, a, seq![sep], sep, 2);
    lemma_row_scan_concat(st, b, hashes, sep, 2);
    lemma_row_scan_concat(st, c, seq![sep], sep, 2);
    lemma_row_scan_concat(st, e, text, sep, 2);
    assert(row_scan(st, Seq::<char>::empty(), sep, 2) == st);
}

/// A CSV row that parses, composed again (given the string ids written
/// before it) and read back under the composer's own header, keeps its kind,
/// id and value; a string entry reads back as ignored exactly when its id was
/// written before. This needs a separator that the composer's markup does not
/// use, and a comment without the separator in its text.
pub proof fn lemma_csv_parse_compose_parse(line: Seq<char>, sep: char, column: int, seen: Set<u64>)
    requires
        !csv_markup(sep),
        csv_parse(line, sep, column) is Some,
        csv_parse(line, sep, column)->Some_0.kind is Comment ==> !csv_parse(
            line,
            sep,
            column,
        )->Some_0.kind->Comment_0.contains(sep),
    ensures
        ({
            let f = csv_parse(line, sep, column)->Some_0;
            csv_parse(csv_line(seen, sep, f), sep, 2) == Some(csv_reread(seen, f))
        }),
{
    let f = csv_parse(line, sep, column)->Some_0;
    lemma_row_scan_no_quote(line, sep, column);
    match f.kind {
        KindView::Empty => {},
        KindView::Comment(text) => {
            lemma_comment_row(sep, text);
        },
        KindView::Str { id, val } => {
            let kind = if seen.contains(id) { ignored_str_word() } else { str_word() };
            lemma_resource_row(kind, sep, id, val);
            lemma_parse_decimal(id);
            assert(kind != com_word()) by {
                if kind == com_word() {
                    assert(kind[0] == 'c');
                }
            }
            assert(str_word() != ignored_str_word()) by {
                assert(str_word().len() != ignored_str_word().len());
            }
        },
        KindView::Msg { id, val } => {
            lemma_resource_row(msg_word(), sep, id, val);
            lemma_parse_decimal(id);
            assert(msg_word() != com_word()) by {
                assert(msg_word()[0] != com_word()[0]);
            }
            assert(msg_word() != str_word()) by {
                assert(msg_word()[0] != str_word()[0]);
            }
            assert(msg_word() != ignored_str_word()) by {
                assert(msg_word().len() != ignored_str_word().len());
            }
        },
    }
}

/// The id of a string entry.
pub open spec fn string_id(f: FromageView) -> Option<u64> {
    match f.kind {
        KindView::Str { id, .. } => Some(id),
        _ => None,
    }
}

/// The string ids written once the entries `fs` are written in order.
pub open spec fn csv_seen_all(seen: Set<u64>, fs: Seq<FromageView>) -> Set<u64>
    decreases fs.len(),
{
    if fs.len() == 0 {
        seen
    } else {
        csv_seen(csv_seen_all(seen, fs.drop_last()), fs.last())
    }
}

/// The rows that the CSV composer writes for the entries `fs`, in order.
pub open spec fn csv_lines(seen: Set<u64>, sep: char, fs: Seq<FromageView>) -> Seq<Seq<char>>
    decreases fs.len(),
{
    if fs.len() == 0 {
        Seq::empty()
    } else {
        csv_lines(seen, sep, fs.drop_last()).push(
            csv_line(csv_seen_all(seen, fs.drop_last()), sep, fs.last()),
        )
    }
}

proof fn lemma_csv_lines_index(seen: Set<u64>, sep: char, fs: Seq<FromageView>, k: int)
    requires
        0 <= k < fs.len(),
    ensures
        csv_lines(seen, sep, fs).len() == fs.len(),
        csv_lines(seen, sep, fs)[k] == csv_line(
            csv_seen_all(seen, fs.subrange(0, k)),
            sep,
            fs[k],
        ),
    decreases fs.len(),
{
    let t = fs.drop_last();
    if k == fs.len() - 1 {
        assert(fs.subrange(0, k) == t);
        if t.len() > 0 {
            lemma_csv_lines_index(seen, sep, t, 0);
        }
    } else {
        lemma_csv_lines_index(seen, sep, t, k);
        assert(t.subrange(0, k) == fs.subrange(0, k));
    }
}

proof fn lemma_seen_all_ids(fs: Seq<FromageView>, id: u64)
    ensures
        csv_seen_all(Set::empty(), fs).contains(id) <==> exists|j: int|
            0 <= j < fs.len() && #[trigger] string_id(fs[j]) == Some(id),
    decreases fs.len(),
{
    if fs.len() > 0 {
        let t = fs.drop_last();
        lemma_seen_all_ids(t, id);
        let last = fs.len() - 1;
        assert(fs.last() == fs[last]);
        let prev = csv_seen_all(Set::empty(), t);
        if string_id(fs[last]) == Some(id) {
            assert(csv_seen(prev, fs[last]).contains(id));
        } else {
            assert(csv_seen(prev, fs[last]).contains(id) == prev.contains(id));
        }
        if exists|j: int| 0 <= j < fs.len() && #[trigger] string_id(fs[j]) == Some(id) {
            let j = choose|j: int| 0 <= j < fs.len() && #[trigger] string_id(fs[j]) == Some(id);
            if j < t.len() {
                assert(string_id(t[j]) == Some(id));
            }
        }
        if exists|j: int| 0 <= j < t.len() && #[trigger] string_id(t[j]) == Some(id) {
            let j = choose|j: int| 0 <= j < t.len() && #[trigger] string_id(t[j]) == Some(id);
            assert(string_id(fs[j]) == Some(id));
        }
    }
}

/// Written in order, a string entry's row has kind `(str)` exactly when an
/// earlier entry is a string entry with the same id, and `str` otherwise;
/// its id and value are kept. A message entry's row always has kind `msg`.
pub proof fn lemma_csv_first_occurrence(sep: char, fs: Seq<FromageView>, k: int)
    requires
        0 <= k < fs.len(),
    ensures
        csv_lines(Set::empty(), sep, fs).len() == fs.len(),
        match fs[k].kind {
            KindView::Str { id, val } => csv_lines(Set::empty(), sep, fs)[k] == resource_row(
                if exists|j: int| 0 <= j < k && #[trigger] string_id(fs[j]) == Some(id) {
                    ignored_str_word()
                } else {
                    str_word()
                },
                sep,
                id,
                val,
            ),
            KindView::Msg { id, val } => csv_lines(Set::empty(), sep, fs)[k] == resource_row(
                msg_word(),
                sep,
                id,
                val,
            ),
            _ => true,
        },
{
    lemma_csv_lines_index(Set::empty(), sep, fs, k);
    let pre = fs.subrange(0, k);
    match fs[k].kind {
        KindView::Str { id, val } => {
            lemma_seen_all_ids(pre, id);
            if exists|j: int| 0 <= j < k && #[trigger] string_id(fs[j]) == Some(id) {
                let j = choose|j: int| 0 <= j < k && #[trigger] string_id(fs[j]) == Some(id);
                assert(string_id(pre[j]) == Some(id));
            }
            if exists|j: int| 0 <= j < pre.len() && #[trigger] string_id(pre[j]) == Some(id) {
                let j = choose|j: int| 0 <= j < pre.len() && #[trigger] string_id(pre[j]) == Some(id);
                assert(string_id(fs[j]) == Some(id));
            }
        },
        _ => {},
    }
}

} // verus!
