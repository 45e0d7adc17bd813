//! The CSV-like format: a header naming the columns, then rows
//! `<kind><sep><id><sep><fields…>`, with double-quoted fields.
use crate::error::LactoseIntolerance;
use crate::fromage::{entry, Fromage, FromageKind, FromageView, KindView};
use crate::parser::{bad_line, bad_line_message, FromageMaker, FromagemakingProcess};
use crate::text::{parse_u64, parse_u64_spec};
use vstd::prelude::*;
use vstd::string::*;

verus! {

pub open spec fn com_word() -> Seq<char> {
    seq!['c', 'o', 'm']
}

pub open spec fn str_word() -> Seq<char> {
    seq!['s', 't', 'r']
}

pub open spec fn ignored_str_word() -> Seq<char> {
    seq!['(', 's', 't', 'r', ')']
}

pub open spec fn msg_word() -> Seq<char> {
    seq!['m', 's', 'g']
}

/// The fields of a line split at every separator (no quoting).
pub open spec fn split_fields(s: Seq<char>, sep: char) -> Seq<Seq<char>>
    decreases s.len(),
{
    if s.len() == 0 {
        seq![Seq::empty()]
    } else {
        let f = split_fields(s.drop_last(), sep);
        if s.last() == sep {
            f.push(Seq::empty())
        } else {
            f.update(f.len() - 1, f.last().push(s.last()))
        }
    }
}

/// The index of the first header field equal to `name`.
pub open spec fn header_column(header: Seq<char>, sep: char, name: Seq<char>) -> Option<int> {
    let fs = split_fields(header, sep);
    if exists|k: int| 0 <= k < fs.len() && fs[k] == name {
        Some(
            choose|k: int|
                0 <= k < fs.len() && fs[k] == name && forall|j: int| 0 <= j < k ==> fs[j] != name,
        )
    } else {
        None
    }
}

/// Where a left-to-right scan of a CSV row stands.
pub enum RowScan {
    /// Collecting the kind, up to the first separator.
    Kind(Seq<char>),
    /// Collecting the id, up to the second separator.
    Id(Seq<char>, Seq<char>),
    /// In the content columns: `col` is the current column, `target` the one
    /// whose characters make the value.
    Field {
        kind: Seq<char>,
        id: Seq<char>,
        target: int,
        col: int,
        quoted: bool,
        val: Seq<char>,
    },
    /// The target column has ended; the rest of the row is not read.
    Done { kind: Seq<char>, id: Seq<char>, val: Seq<char> },
}

pub open spec fn row_step(st: RowScan, c: char, sep: char, column: int) -> RowScan {
    match st {
        RowScan::Kind(kind) => if c == sep {
            RowScan::Id(kind, Seq::empty())
        } else {
            RowScan::Kind(kind.push(c))
        },
        RowScan::Id(kind, id) => if c == sep {
            RowScan::Field {
                kind,
                id,
                target: if kind == com_word() { 2 } else { column },
                col: 2,
                quoted: false,
                val: Seq::empty(),
            }
        } else {
            RowScan::Id(kind, id.push(c))
        },
        RowScan::Field { kind, id, target, col, quoted, val } => {
            let kept = if col == target { val.push(c) } else { val };
            if quoted {
                if c == '"' {
                    RowScan::Field { kind, id, target, col, quoted: false, val }
                } else {
                    RowScan::Field { kind, id, target, col, quoted: true, val: kept }
                }
            } else if c == sep {
                if col == target {
                    RowScan::Done { kind, id, val }
                } else if col < target {
                    RowScan::Field { kind, id, target, col: col + 1, quoted: false, val }
                } else {
                    // a column past the target never becomes it: counting stops
                    RowScan::Field { kind, id, target, col, quoted: false, val }
                }
            } else if c == '"' {
                RowScan::Field { kind, id, target, col, quoted: true, val }
            } else {
                RowScan::Field { kind, id, target, col, quoted: false, val: kept }
            }
        },
        RowScan::Done { kind, id, val } => RowScan::Done { kind, id, val },
    }
}

pub open spec fn row_scan(st: RowScan, s: Seq<char>, sep: char, column: int) -> RowScan
    decreases s.len(),
{
    if s.len() == 0 {
        st
    } else {
        row_step(row_scan(st, s.drop_last(), sep, column), s.last(), sep, column)
    }
}

pub open spec fn row_start() -> RowScan {
    RowScan::Kind(Seq::empty())
}

/// The entry made of a row's kind, id and value.
pub open spec fn row_entry(kind: Seq<char>, id: Seq<char>, val: Seq<char>) -> Option<FromageView> {
    if kind == com_word() {
        Some(entry(KindView::Comment(val), false))
    } else {
        match parse_u64_spec(id) {
            Some(n) => if kind == str_word() {
                Some(entry(KindView::Str { id: n, val }, false))
            } else if kind == ignored_str_word() {
                Some(entry(KindView::Str { id: n, val }, true))
            } else if kind == msg_word() {
                Some(entry(KindView::Msg { id: n, val }, false))
            } else {
                None
            },
            None => None,
        }
    }
}

/// The entry that a CSV row denotes; `None` for a malformed row.
pub open spec fn csv_parse(line: Seq<char>, sep: char, column: int) -> Option<FromageView> {
    if line.len() == 0 {
        Some(entry(KindView::Empty, false))
    } else {
        match row_scan(row_start(), line, sep, column) {
            RowScan::Field { kind, id, quoted, val, .. } => if quoted {
                None
            } else {
                row_entry(kind, id, val)
            },
            RowScan::Done { kind, id, val } => row_entry(kind, id, val),
            _ => None,
        }
    }
}

fn same_chars(a: &Vec<char>, b: &str) -> (r: bool)
    ensures
        r == (a@ == b@),
{
    let n = b.unicode_len();
    if a.len() != n {
        return false;
    }
    let mut i: usize = 0;
    while i < n
        invariant
            n == a@.len() == b@.len(),
            i <= n,
            forall|j: int| 0 <= j < i ==> a@[j] == b@[j],
        decreases n - i,
    {
        if a[i] != b.get_char(i) {
            return false;
        }
        i = i + 1;
    }
    assert(a@ == b@);
    true
}

spec fn row_state(
    phase: u8,
    kind: Seq<char>,
    id: Seq<char>,
    target: usize,
    col: usize,
    quoted: bool,
    val: Seq<char>,
) -> RowScan {
    if phase == 0 {
        RowScan::Kind(kind)
    } else if phase == 1 {
        RowScan::Id(kind, id)
    } else if phase == 2 {
        RowScan::Field { kind, id, target: target as int, col: col as int, quoted, val }
    } else {
        RowScan::Done { kind, id, val }
    }
}

/// Parses one CSV row, taking the value from column `translation_column`
/// (from column 2 for a comment); a malformed row is handed back as the error.
pub fn parse_line(line: &str, sep: char, translation_column: usize) -> (r: Result<Fromage, &str>)
    ensures
        match r {
            Ok(f) => csv_parse(line@, sep, translation_column as int) == Some(f@),
            Err(bad) => csv_parse(line@, sep, translation_column as int) is None && bad@ == line@,
        },
{
    if line.is_empty() {
        return Ok(Fromage::empty());
    }
    let ghost column = translation_column as int;
    let mut phase: u8 = 0;
    let mut kind: Vec<char> = Vec::new();
    let mut id: Vec<char> = Vec::new();
    let mut target: usize = 2;
    let mut col: usize = 2;
    let mut quoted = false;
    let mut val = String::new();
    for c in it: line.chars()
        invariant
            phase <= 3,
            it.seq() == line@,
            column == translation_column as int,
            phase == 0 ==> id@ == Seq::<char>::empty(),
            phase <= 1 ==> val@ == Seq::<char>::empty() && !quoted && col == 2,
            phase >= 2 ==> 2 <= col && (col <= target || col == 2),
            row_state(phase, kind@, id@, target, col, quoted, val@) == row_scan(
                row_start(),
                line@.subrange(0, it.index() as int),
                sep,
                column,
            ),
    {
        let ghost pre = line@.subrange(0, it.index() as int);
        let ghost next = line@.subrange(0, it.index() + 1);
        assert(next.drop_last() == pre);
        assert(next.last() == c);
        assert(row_scan(row_start(), next, sep, column) == row_step(
            row_scan(row_start(), pre, sep, column),
            c,
            sep,
            column,
        ));
        if phase == 0 {
            if c == sep {
                phase = 1;
            } else {
                kind.push(c);
            }
        } else if phase == 1 {
            if c == sep {
                phase = 2;
                let is_com = same_chars(&kind, "com");
                proof {
                    reveal_strlit("com");
                    assert("com"@ =~= com_word());
                }
                target = if is_com { 2 } else { translation_column };
            } else {
                id.push(c);
            }
        } else if phase == 2 {
            if quoted {
                if c == '"' {
                    quoted = false;
                } else if col == target {
                    val.push(c);
                }
            } else if c == sep {
                if col == target {
                    phase = 3;
                } else if col < target {
                    col = col + 1;
                }
            } else if c == '"' {
                quoted = true;
            } else if col == target {
                val.push(c);
            }
        }
    }
    assert(line@.subrange(0, line@.len() as int) == line@);
    if phase < 2 || (phase == 2 && quoted) {
        return Err(line);
    }
    proof {
        reveal_strlit("com");
        reveal_strlit("str");
        reveal_strlit("(str)");
        reveal_strlit("msg");
        assert("com"@ =~= com_word());
        assert("str"@ =~= str_word());
        assert("(str)"@ =~= ignored_str_word());
        assert("msg"@ =~= msg_word());
    }
    if same_chars(&kind, "com") {
        return Ok(Fromage::comment(val));
    }
    let num = match parse_u64(&id) {
        Some(num) => num,
        None => return Err(line),
    };
    if same_chars(&kind, "str") {
        Ok(Fromage::str(num, val))
    } else if same_chars(&kind, "(str)") {
        Ok(Fromage { kind: FromageKind::Str { id: num, val }, ignored: true })
    } else if same_chars(&kind, "msg") {
        Ok(Fromage::msg(num, val))
    } else {
        Err(line)
    }
}

proof fn lemma_fields_nonempty(s: Seq<char>, sep: char)
    ensures
        split_fields(s, sep).len() >= 1,
    decreases s.len(),
{
    if s.len() > 0 {
        lemma_fields_nonempty(s.drop_last(), sep);
    }
}

/// Fields completed in a prefix of a line are fields of the whole line.
proof fn lemma_fields_extend(s: Seq<char>, sep: char, i: int)
    requires
        0 <= i <= s.len(),
    ensures
        split_fields(s.subrange(0, i), sep).len() <= split_fields(s, sep).len(),
        forall|j: int|
            0 <= j < split_fields(s.subrange(0, i), sep).len() - 1 ==> split_fields(s, sep)[j]
                == #[trigger] split_fields(s.subrange(0, i), sep)[j],
    decreases s.len(),
{
    if i == s.len() {
        assert(s.subrange(0, i) == s);
    } else {
        let t = s.drop_last();
        lemma_fields_extend(t, sep, i);
        assert(t.subrange(0, i) == s.subrange(0, i));
        lemma_fields_nonempty(t, sep);
    }
}

proof fn lemma_first_match(fs: Seq<Seq<char>>, name: Seq<char>, k: int)
    requires
        0 <= k < fs.len(),
        fs[k] == name,
        forall|j: int| 0 <= j < k ==> fs[j] != name,
    ensures
        (choose|c: int|
            0 <= c < fs.len() && fs[c] == name && forall|j: int| 0 <= j < c ==> fs[j] != name)
            == k,
{
    let c = choose|c: int|
        0 <= c < fs.len() && fs[c] == name && forall|j: int| 0 <= j < c ==> fs[j] != name;
    assert(0 <= c < fs.len() && fs[c] == name && forall|j: int| 0 <= j < c ==> fs[j] != name);
    if c < k {
        assert(fs[c] != name);
    } else if c > k {
        assert(fs[k] != name);
    }
}

/// The index of the first field of `header` that equals `name`.
pub fn find_column(header: &str, sep: char, name: &str) -> (r: Option<usize>)
    ensures
        match r {
            Some(k) => header_column(header@, sep, name@) == Some(k as int),
            None => header_column(header@, sep, name@) is None,
        },
{
    let n = header.unicode_len();
    let mut k: usize = 0;
    let mut cur: Vec<char> = Vec::new();
    assert(header@.subrange(0, 0) == Seq::<char>::empty());
    for c in it: header.chars()
        invariant
            it.seq() == header@,
            n == header@.len(),
            k <= it.index(),
            split_fields(header@.subrange(0, it.index() as int), sep).len() == k + 1,
            split_fields(header@.subrange(0, it.index() as int), sep)[k as int] == cur@,
            forall|j: int|
                0 <= j < k ==> split_fields(header@.subrange(0, it.index() as int), sep)[j]
                    != name@,
    {
        let ghost pre = header@.subrange(0, it.index() as int);
        let ghost next = header@.subrange(0, it.index() + 1);
        assert(next.drop_last() == pre);
        assert(next.last() == c);
        let ghost fp = split_fields(pre, sep);
        let ghost fnext = split_fields(next, sep);
        if c == sep {
            if same_chars(&cur, name) {
                proof {
                    let fs = split_fields(header@, sep);
                    lemma_fields_extend(header@, sep, it.index() + 1);
                    assert(fnext.len() == k + 2);
                    assert(fnext[k as int] == fp[k as int]);
                    assert(fs[k as int] == fnext[k as int]);
                    assert forall|j: int| 0 <= j < k implies fs[j] != name@ by {
                        assert(fs[j] == fnext[j]);
                        assert(fnext[j] == fp[j]);
                    }
                    lemma_first_match(fs, name@, k as int);
                }
                return Some(k);
            }
            k = k + 1;
            cur = Vec::new();
            assert(forall|j: int| 0 <= j < k - 1 ==> fnext[j] == fp[j]);
        } else {
            cur.push(c);
            assert(forall|j: int| 0 <= j < k ==> fnext[j] == fp[j]);
        }
    }
    assert(header@.subrange(0, header@.len() as int) == header@);
    let ghost fs = split_fields(header@, sep);
    if same_chars(&cur, name) {
        proof {
            lemma_first_match(fs, name@, k as int);
        }
        Some(k)
    } else {
        assert(!exists|j: int| 0 <= j < fs.len() && fs[j] == name@);
        None
    }
}

/// Makes CSV parsing processes that read the value from a column chosen by name.
pub struct CsvMaker {
    sep: char,
    translation_column: String,
}

impl CsvMaker {
    pub closed spec fn separator(&self) -> char {
        self.sep
    }

    pub closed spec fn column_name(&self) -> Seq<char> {
        self.translation_column@
    }

    pub fn new(separator: char, translation_column: String) -> (r: Self)
        ensures
            r.separator() == separator,
            r.column_name() == translation_column@,
    {
        CsvMaker { sep: separator, translation_column }
    }
}

/// Whether a header locates a usable value column: one named `name`, past the
/// kind and id columns.
pub open spec fn header_accepted(header: Option<&str>, sep: char, name: Seq<char>) -> bool {
    &&& header is Some
    &&& header_column(header->Some_0@, sep, name) is Some
    &&& header_column(header->Some_0@, sep, name)->Some_0 >= 2
}

impl FromageMaker for CsvMaker {
    type Process = CsvParser;

    fn process(self, header: Option<&str>) -> (r: Result<CsvParser, LactoseIntolerance>)
        ensures
            r is Ok <==> header_accepted(header, self.separator(), self.column_name()),
            match r {
                Ok(p) => {
                    &&& p.separator() == self.separator()
                    &&& header_column(header->Some_0@, self.separator(), self.column_name())
                        == Some(p.column() as int)
                },
                Err(e) => e is Static && e->Static_0@ == "bad translation column"@,
            },
    {
        let line = match header {
            Some(line) => line,
            None => return Err(LactoseIntolerance::Static("bad translation column")),
        };
        match find_column(line, self.sep, self.translation_column.as_str()) {
            Some(k) => {
                if k < 2 {
                    Err(LactoseIntolerance::Static("bad translation column"))
                } else {
                    Ok(CsvParser { sep: self.sep, translation_column: k })
                }
            },
            None => Err(LactoseIntolerance::Static("bad translation column")),
        }
    }
}

/// Parses CSV rows line by line, each on its own, with the column found in the header.
pub struct CsvParser {
    sep: char,
    translation_column: usize,
}

impl CsvParser {
    #[verifier::type_invariant]
    spec fn inv(&self) -> bool {
        self.translation_column >= 2
    }

    pub closed spec fn separator(&self) -> char {
        self.sep
    }

    pub closed spec fn column(&self) -> usize {
        self.translation_column
    }

    /// The index of the column that values are read from.
    pub fn translation_column(&self) -> (r: usize)
        ensures
            r == self.column(),
            r >= 2,
    {
        proof {
            use_type_invariant(self);
        }
        self.translation_column
    }
}

impl FromagemakingProcess for CsvParser {
    fn next_fromage(&mut self, line: &str) -> (r: Result<Fromage, LactoseIntolerance>)
        ensures
            final(self).separator() == old(self).separator(),
            final(self).column() == old(self).column(),
            match r {
                Ok(f) => csv_parse(line@, old(self).separator(), old(self).column() as int) == Some(
                    f@,
                ),
                Err(e) => csv_parse(line@, old(self).separator(), old(self).column() as int) is None
                    && e is Dyn && e->Dyn_0@ == bad_line_message(line@),
            },
    {
        proof {
            use_type_invariant(&*self);
        }
        match parse_line(line, self.sep, self.translation_column) {
            Ok(f) => Ok(f),
            Err(bad) => Err(bad_line(bad)),
        }
    }
}

} // verus!
