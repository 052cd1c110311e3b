//! Extraction of parameter records from the text of one section's
//! documentation.

use crate::docs::{entries, Documentation};
use crate::scan::{
    extract_spec, gather, has_no_entry, is_rule, is_underline, kind_at, lemma_no_entry_no_record,
    lemma_records_are_sound, lines_of, names_of, produced, scan, LineKind, Mode, Scan,
};
use crate::section::SysctlSection;
use crate::text::{
    append_range, blank, rows, same_chars, space, split_chars, string_from_chars, to_chars, trim,
    trim_bounds, trim_end, width,
};
use vstd::prelude::*;

verus! {

/// Whether the line is a rule.
pub fn rule(line: &Vec<char>) -> (b: bool)
    ensures
        b == is_rule(line@),
{
    let w = width(line);
    if w == 0 {
        return false;
    }
    let first = line[0];
    if first != '=' && first != '-' {
        assert(trim_end(line@)[0] == first);
        return false;
    }
    let mut i: usize = 1;
    while i < w
        invariant
            1 <= i <= w <= line.len(),
            first == line@[0],
            first == '=' || first == '-',
            trim_end(line@) == line@.subrange(0, w as int),
            forall|j: int| 0 <= j < i ==> line@[j] == first,
        decreases w - i,
    {
        if line[i] != first {
            assert(trim_end(line@)[i as int] == line@[i as int]);
            assert(trim_end(line@)[0] == first);
            return false;
        }
        i += 1;
    }
    assert forall|j: int| 0 <= j < trim_end(line@).len() implies #[trigger] trim_end(line@)[j]
        == first by {
        assert(trim_end(line@)[j] == line@[j]);
    }
    true
}

/// Whether line `i` underlines the line before it.
pub fn underline(lines: &Vec<Vec<char>>, i: usize) -> (b: bool)
    ensures
        b == is_underline(rows(lines@), i as int),
{
    if i == 0 || i >= lines.len() {
        return false;
    }
    assert(rows(lines@)[i as int] == lines@[i as int]@);
    assert(rows(lines@)[i - 1] == lines@[i - 1]@);
    rule(&lines[i]) && !blank(&lines[i - 1]) && width(&lines[i]) >= width(&lines[i - 1])
}

/// The kind of line `i`.
pub fn classify(lines: &Vec<Vec<char>>, i: usize) -> (kind: LineKind)
    requires
        i < lines.len(),
    ensures
        kind == kind_at(rows(lines@), i as int),
{
    let line = &lines[i];
    assert(rows(lines@)[i as int] == line@);
    if underline(lines, i) {
        LineKind::Underline
    } else if i + 1 < lines.len() && underline(lines, i + 1) {
        LineKind::Title
    } else if line.len() >= 2 && line[0] == '.' && line[1] == '.' {
        LineKind::Directive
    } else if blank(line) {
        LineKind::Blank
    } else if space(line[0]) {
        LineKind::Indented
    } else {
        LineKind::Margin
    }
}

/// Whether `name` is one of `names`.
fn holds(names: &Vec<Vec<char>>, name: &Vec<char>) -> (b: bool)
    ensures
        b == rows(names@).contains(name@),
{
    let mut k: usize = 0;
    while k < names.len()
        invariant
            k <= names.len(),
            forall|j: int| 0 <= j < k ==> rows(names@)[j] != name@,
        decreases names.len() - k,
    {
        assert(rows(names@)[k as int] == names@[k as int]@);
        if same_chars(&names[k], name) {
            return true;
        }
        k += 1;
    }
    false
}

/// The names that a naming line gives.
pub fn names_in(line: &Vec<char>) -> (names: Vec<Vec<char>>)
    ensures
        rows(names@) == names_of(line@),
{
    let pieces = split_chars(line, ',', '/');
    let mut names: Vec<Vec<char>> = Vec::new();
    let mut k: usize = 0;
    assert(rows(pieces@).take(0) =~= Seq::<Seq<char>>::empty());
    assert(rows(names@) =~= gather(rows(pieces@).take(0)));
    while k < pieces.len()
        invariant
            k <= pieces.len(),
            rows(names@) == gather(rows(pieces@).take(k as int)),
        decreases pieces.len() - k,
    {
        let piece = &pieces[k];
        let (from, to) = trim_bounds(piece);
        let mut name: Vec<char> = Vec::new();
        append_range(&mut name, piece, from, to);
        proof {
            let next = rows(pieces@).take(k + 1);
            assert(next.drop_last() =~= rows(pieces@).take(k as int));
            assert(next.last() == piece@);
            assert(name@ =~= trim(piece@));
        }
        if name.len() > 0 && !holds(&names, &name) {
            let ghost before = rows(names@);
            names.push(name);
            assert(rows(names@) =~= before.push(name@));
        }
        k += 1;
    }
    assert(rows(pieces@).take(pieces.len() as int) =~= rows(pieces@));
    names
}

/// A scan under way: the records made, and the entry that is open.
struct Scanner {
    out: Vec<Documentation>,
    names: Vec<Vec<char>>,
    body: Vec<char>,
    mode: Mode,
}

impl View for Scanner {
    type V = Scan;

    closed spec fn view(&self) -> Scan {
        Scan {
            records: entries(self.out@),
            names: rows(self.names@),
            body: self.body@,
            mode: self.mode,
        }
    }
}

impl Scanner {
    fn new() -> (scanner: Scanner)
        ensures
            scanner@ == Scan::start(),
    {
        let scanner = Scanner {
            out: Vec::new(),
            names: Vec::new(),
            body: Vec::new(),
            mode: Mode::Idle,
        };
        assert(scanner@.records =~= Scan::start().records);
        assert(scanner@.names =~= Scan::start().names);
        scanner
    }

    /// Closes the open entry: one record for each of its names.
    fn flush(&mut self, section: SysctlSection)
        ensures
            final(self)@.records == old(self)@.flushed(section),
            final(self)@.names == old(self)@.names,
            final(self)@.body == old(self)@.body,
            final(self)@.mode == old(self)@.mode,
    {
        let description = string_from_chars(&self.body);
        let ghost added = produced(old(self)@.names, old(self)@.body, section);
        let mut k: usize = 0;
        assert(self@.records =~= old(self)@.records + added.take(0));
        while k < self.names.len()
            invariant
                k <= self.names.len(),
                self.names == old(self).names,
                self.body == old(self).body,
                self.mode == old(self).mode,
                description@ == self.body@,
                added == produced(old(self)@.names, old(self)@.body, section),
                self@.records == old(self)@.records + added.take(k as int),
            decreases self.names.len() - k,
        {
            let name = string_from_chars(&self.names[k]);
            let ghost before = self@.records;
            self.out.push(Documentation::new(name, description.clone(), section));
            assert(self@.records =~= before.push(added[k as int]));
            assert(added.take(k + 1) =~= added.take(k as int).push(added[k as int]));
            k += 1;
        }
        assert(added.take(self.names.len() as int) =~= added);
    }

    /// Takes the text of `line` into the description, after `gap` where one
    /// is given.
    fn write(&mut self, gap: Option<char>, line: &Vec<char>)
        ensures
            final(self)@.records == old(self)@.records,
            final(self)@.names == old(self)@.names,
            final(self)@.mode == old(self)@.mode,
            final(self)@.body == match gap {
                Some(c) => old(self)@.body.push(c) + trim(line@),
                None => trim(line@),
            },
    {
        let (from, to) = trim_bounds(line);
        match gap {
            Some(c) => {
                self.body.push(c);
            },
            None => {
                self.body = Vec::new();
                assert(self.body@ + trim(line@) =~= trim(line@));
            },
        }
        append_range(&mut self.body, line, from, to);
    }

    /// Reads one more line.
    fn advance(&mut self, kind: LineKind, line: &Vec<char>, section: SysctlSection)
        ensures
            final(self)@ == old(self)@.step(kind, line@, section),
    {
        match kind {
            LineKind::Underline | LineKind::Title | LineKind::Directive => {},
            LineKind::Blank => match self.mode {
                Mode::Idle | Mode::Gap | Mode::Break => {},
                Mode::Heading => {
                    self.mode = Mode::Gap;
                },
                Mode::Open | Mode::Text => {
                    self.mode = Mode::Break;
                },
            },
            LineKind::Indented => match self.mode {
                Mode::Idle => {},
                Mode::Heading | Mode::Gap => {
                    self.write(None, line);
                    self.mode = Mode::Text;
                },
                Mode::Open => {
                    self.write(Some(' '), line);
                },
                Mode::Text => {
                    self.write(Some(' '), line);
                },
                Mode::Break => {
                    self.write(Some('\n'), line);
                    self.mode = Mode::Text;
                },
            },
            LineKind::Margin => match self.mode {
                Mode::Gap => {
                    self.write(None, line);
                    self.mode = Mode::Open;
                },
                Mode::Open => {
                    self.write(Some(' '), line);
                },
                Mode::Idle | Mode::Heading | Mode::Text | Mode::Break => {
                    self.flush(section);
                    self.names = names_in(line);
                    self.body = Vec::new();
                    self.mode = if self.names.len() == 0 {
                        Mode::Idle
                    } else {
                        Mode::Heading
                    };
                    assert(self@.body =~= Seq::<char>::empty());
                },
            },
        }
    }
}

/// Extracts the records of the parameters that the documentation `text` of
/// `section` describes, in the order of the text.
///
/// Every text gives records, if only none: there is no text that is
/// refused. Each record has the given section, whatever its name says, and a
/// name that is not empty and stands on one line. There are no records
/// exactly when no line of the text names an entry.
pub fn extract(text: &str, section: SysctlSection) -> (docs: Vec<Documentation>)
    ensures
        entries(docs@) == extract_spec(text@, section),
        forall|i: int| 0 <= i < docs.len() ==> (#[trigger] docs[i]).section == section,
        forall|i: int| 0 <= i < docs.len() ==> (#[trigger] docs[i])@.well_formed(),
        docs.len() == 0 <==> has_no_entry(text@),
{
    let chars = to_chars(text);
    let lines = split_chars(&chars, '\n', '\n');
    let mut scanner = Scanner::new();
    let mut i: usize = 0;
    while i < lines.len()
        invariant
            i <= lines.len(),
            rows(lines@) == lines_of(text@),
            scanner@ == scan(rows(lines@), i as nat, section),
        decreases lines.len() - i,
    {
        let kind = classify(&lines, i);
        assert(rows(lines@)[i as int] == lines@[i as int]@);
        scanner.advance(kind, &lines[i], section);
        i += 1;
    }
    scanner.flush(section);
    let docs = scanner.out;
    proof {
        lemma_records_are_sound(text@, section);
        lemma_no_entry_no_record(text@, section);
        assert forall|i: int| 0 <= i < docs.len() implies (#[trigger] docs[i]).section == section
            && docs[i]@.well_formed() by {
            assert(entries(docs@)[i] == docs[i]@);
        }
    }
    docs
}

} // verus!
