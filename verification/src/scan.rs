//! The scan that reads a documentation text line by line, as a state
//! machine over plain sequences of characters, and what holds of it.
//!
//! A line at the left margin opens an entry and names its parameters; the
//! lines after it make up the description that all of those parameters
//! share. Titles with their underlines and directive lines are left out.

use crate::docs::Entry;
use crate::section::SysctlSection;
use crate::text::{
    is_blank, is_space, lemma_split_pieces, lemma_trim_is_tight, split, trim, trim_end,
};
use vstd::prelude::*;

verus! {

/// What a line is, by its own text and that of its neighbours.
#[derive(Clone, Copy, Debug, PartialEq, Eq, Structural)]
pub enum LineKind {
    /// A rule of `=` or of `-` drawn under the line before it.
    Underline,
    /// A line with such a rule under it.
    Title,
    /// A line that starts with the marker of comments and directives.
    Directive,
    /// A line of whitespace, or an empty one.
    Blank,
    /// A line with text that starts with whitespace.
    Indented,
    /// A line with text that starts at the left margin.
    Margin,
}

/// Where the scan stands between two lines.
#[derive(Clone, Copy, Debug, PartialEq, Eq, Structural)]
pub enum Mode {
    /// No entry is open.
    Idle,
    /// The line that named the entry was the last one of account.
    Heading,
    /// Only blank lines have followed the naming line.
    Gap,
    /// The description goes on at the left margin, in a paragraph that
    /// started there.
    Open,
    /// The description goes on in a paragraph that started indented.
    Text,
    /// The description has text, and a blank line has followed it.
    Break,
}

/// The state of a scan: the records of the entries closed so far, and the
/// names and the description of the entry that is open.
pub ghost struct Scan {
    /// The records of the closed entries, in the order of the text.
    pub records: Seq<Entry>,
    /// The names of the open entry.
    pub names: Seq<Seq<char>>,
    /// The description of the open entry, as far as it has been read.
    pub body: Seq<char>,
    /// Where the scan stands.
    pub mode: Mode,
}

/// A rule is a line of nothing but `=`, or of nothing but `-`, trailing
/// whitespace aside.
pub open spec fn is_rule(line: Seq<char>) -> bool {
    let t = trim_end(line);
    t.len() > 0 && ((forall|i: int| 0 <= i < t.len() ==> #[trigger] t[i] == '=') || (forall|i: int|
        0 <= i < t.len() ==> #[trigger] t[i] == '-'))
}

/// Line `i` underlines the line before it: it is a rule, the line before it
/// has text, and the rule is at least as long as that line.
pub open spec fn is_underline(lines: Seq<Seq<char>>, i: int) -> bool {
    &&& 0 < i < lines.len()
    &&& is_rule(lines[i])
    &&& !is_blank(lines[i - 1])
    &&& trim_end(lines[i]).len() >= trim_end(lines[i - 1]).len()
}

/// A directive or comment line starts with two dots.
pub open spec fn is_directive(line: Seq<char>) -> bool {
    line.len() >= 2 && line[0] == '.' && line[1] == '.'
}

/// The kind of line `i`.
pub open spec fn kind_at(lines: Seq<Seq<char>>, i: int) -> LineKind
    recommends
        0 <= i < lines.len(),
{
    if is_underline(lines, i) {
        LineKind::Underline
    } else if is_underline(lines, i + 1) {
        LineKind::Title
    } else if is_directive(lines[i]) {
        LineKind::Directive
    } else if is_blank(lines[i]) {
        LineKind::Blank
    } else if is_space(lines[i][0]) {
        LineKind::Indented
    } else {
        LineKind::Margin
    }
}

/// The names among `pieces`: each piece trimmed, the empty ones left out,
/// and of equal ones only the first kept.
pub open spec fn gather(pieces: Seq<Seq<char>>) -> Seq<Seq<char>>
    decreases pieces.len(),
{
    if pieces.len() == 0 {
        Seq::<Seq<char>>::empty()
    } else {
        let earlier = gather(pieces.drop_last());
        let name = trim(pieces.last());
        if name.len() == 0 || earlier.contains(name) {
            earlier
        } else {
            earlier.push(name)
        }
    }
}

/// The names that a naming line gives: what stands between its commas and
/// slashes.
pub open spec fn names_of(line: Seq<char>) -> Seq<Seq<char>> {
    gather(split(line, ',', '/'))
}

/// One record for each of `names`, all with the description `body`.
pub open spec fn produced(names: Seq<Seq<char>>, body: Seq<char>, section: SysctlSection) -> Seq<
    Entry,
> {
    Seq::new(names.len(), |i: int| Entry { name: names[i], description: body, section })
}

impl Scan {
    /// The scan before the first line.
    pub open spec fn start() -> Scan {
        Scan {
            records: Seq::<Entry>::empty(),
            names: Seq::<Seq<char>>::empty(),
            body: Seq::<char>::empty(),
            mode: Mode::Idle,
        }
    }

    /// The records once the open entry is closed.
    pub open spec fn flushed(self, section: SysctlSection) -> Seq<Entry> {
        self.records + produced(self.names, self.body, section)
    }

    /// The open entry is closed, and `line` names the next one.
    pub open spec fn renamed(self, line: Seq<char>, section: SysctlSection) -> Scan {
        Scan {
            records: self.flushed(section),
            names: names_of(line),
            body: Seq::<char>::empty(),
            mode: if names_of(line).len() == 0 {
                Mode::Idle
            } else {
                Mode::Heading
            },
        }
    }

    /// The text of `line` starts the description.
    pub open spec fn begun(self, line: Seq<char>, mode: Mode) -> Scan {
        Scan { records: self.records, names: self.names, body: trim(line), mode }
    }

    /// The text of `line` goes on with the description, after `gap`.
    pub open spec fn grown(self, gap: char, line: Seq<char>, mode: Mode) -> Scan {
        Scan {
            records: self.records,
            names: self.names,
            body: self.body.push(gap) + trim(line),
            mode,
        }
    }

    /// The scan stands elsewhere, with nothing added.
    pub open spec fn moved(self, mode: Mode) -> Scan {
        Scan { records: self.records, names: self.names, body: self.body, mode }
    }

    /// The scan after one more line, of the given kind.
    ///
    /// Titles, underlines and directive lines change nothing. A blank line
    /// adds nothing, but what follows it starts a new paragraph. An indented
    /// line belongs to the open entry. A line at the left margin belongs to
    /// it only as the first line of text after a gap, or within the paragraph
    /// which such a line started; any other line at the margin closes the open
    /// entry and names the next one.
    pub open spec fn step(self, kind: LineKind, line: Seq<char>, section: SysctlSection) -> Scan {
        match kind {
            LineKind::Underline | LineKind::Title | LineKind::Directive => self,
            LineKind::Blank => match self.mode {
                Mode::Idle | Mode::Gap | Mode::Break => self,
                Mode::Heading => self.moved(Mode::Gap),
                Mode::Open | Mode::Text => self.moved(Mode::Break),
            },
            LineKind::Indented => match self.mode {
                Mode::Idle => self,
                Mode::Heading | Mode::Gap => self.begun(line, Mode::Text),
                Mode::Open => self.grown(' ', line, Mode::Open),
                Mode::Text => self.grown(' ', line, Mode::Text),
                Mode::Break => self.grown('\n', line, Mode::Text),
            },
            LineKind::Margin => match self.mode {
                Mode::Gap => self.begun(line, Mode::Open),
                Mode::Open => self.grown(' ', line, Mode::Open),
                Mode::Idle | Mode::Heading | Mode::Text | Mode::Break => self.renamed(
                    line,
                    section,
                ),
            },
        }
    }
}

/// The scan after the first `n` of `lines`.
pub open spec fn scan(lines: Seq<Seq<char>>, n: nat, section: SysctlSection) -> Scan
    decreases n,
{
    if n == 0 {
        Scan::start()
    } else {
        let i = (n - 1) as nat;
        scan(lines, i, section).step(kind_at(lines, i as int), lines[i as int], section)
    }
}

/// The lines of a text: what stands between its line breaks.
pub open spec fn lines_of(text: Seq<char>) -> Seq<Seq<char>> {
    split(text, '\n', '\n')
}

/// The records that the documentation `text` of `section` gives.
pub open spec fn extract_spec(text: Seq<char>, section: SysctlSection) -> Seq<Entry> {
    let lines = lines_of(text);
    scan(lines, lines.len(), section).flushed(section)
}

/// Line `i` names an entry wherever the scan stands idle: it has text at
/// the left margin, is no title, underline or directive, and holds a name.
pub open spec fn names_entry(lines: Seq<Seq<char>>, i: int) -> bool {
    kind_at(lines, i) == LineKind::Margin && names_of(lines[i]).len() > 0
}

/// No line of the text names an entry.
pub open spec fn has_no_entry(text: Seq<char>) -> bool {
    forall|i: int| 0 <= i < lines_of(text).len() ==> !names_entry(lines_of(text), i)
}

/// A name as a naming line gives it: it is not empty, neither begins nor
/// ends with whitespace, and holds no separator and no line break.
pub open spec fn is_name(name: Seq<char>) -> bool {
    &&& name.len() > 0
    &&& !is_space(name.first())
    &&& !is_space(name.last())
    &&& forall|j: int| 0 <= j < name.len() ==> {
        &&& #[trigger] name[j] != ','
        &&& name[j] != '/'
        &&& name[j] != '\n'
    }
}

/// A text that is empty, or that neither begins nor ends with whitespace.
pub open spec fn is_tidy(text: Seq<char>) -> bool {
    text.len() > 0 ==> !is_space(text.first()) && !is_space(text.last())
}

/// The records with `section` in place of their own.
pub open spec fn retagged(records: Seq<Entry>, section: SysctlSection) -> Seq<Entry> {
    Seq::new(
        records.len(),
        |i: int| Entry { name: records[i].name, description: records[i].description, section },
    )
}

/// Some line before line `n` names an entry.
pub open spec fn entry_before(lines: Seq<Seq<char>>, n: int) -> bool {
    exists|i: int| 0 <= i < n && names_entry(lines, i)
}

impl Scan {
    /// What holds of the scan after any number of lines: an entry is open
    /// exactly when there are names; the description has text exactly in
    /// the modes that say so, and is tidy; the names are names; and every
    /// record has a name, a tidy description and the section of the scan.
    pub open spec fn sound(self, section: SysctlSection) -> bool {
        &&& self.mode == Mode::Idle <==> self.names.len() == 0
        &&& self.body.len() > 0 <==> (self.mode == Mode::Open || self.mode == Mode::Text
            || self.mode == Mode::Break)
        &&& is_tidy(self.body)
        &&& forall|i: int| 0 <= i < self.names.len() ==> is_name(#[trigger] self.names[i])
        &&& forall|i: int|
            0 <= i < self.records.len() ==> {
                &&& is_name((#[trigger] self.records[i]).name)
                &&& is_tidy(self.records[i].description)
                &&& self.records[i].section == section
            }
    }
}

/// The names that a line without a line break gives are names, and no two
/// of them are equal.
pub proof fn lemma_names_of(line: Seq<char>)
    requires
        !line.contains('\n'),
    ensures
        forall|i: int| 0 <= i < names_of(line).len() ==> is_name(#[trigger] names_of(line)[i]),
        forall|i: int, j: int|
            0 <= i < j < names_of(line).len() ==> names_of(line)[i] != names_of(line)[j],
{
    let pieces = split(line, ',', '/');
    lemma_split_pieces(line, ',', '/');
    assert forall|k: int| 0 <= k < pieces.len() implies is_piece(#[trigger] pieces[k]) by {
        assert forall|j: int| 0 <= j < pieces[k].len() implies {
            &&& #[trigger] pieces[k][j] != ','
            &&& pieces[k][j] != '/'
            &&& pieces[k][j] != '\n'
        } by {
            assert(line.contains(pieces[k][j]));
        }
    }
    lemma_gather(pieces);
}

/// A piece of a naming line: it holds no separator and no line break.
pub open spec fn is_piece(piece: Seq<char>) -> bool {
    forall|j: int| 0 <= j < piece.len() ==> {
        &&& #[trigger] piece[j] != ','
        &&& piece[j] != '/'
        &&& piece[j] != '\n'
    }
}

proof fn lemma_gather(pieces: Seq<Seq<char>>)
    requires
        forall|k: int| 0 <= k < pieces.len() ==> is_piece(#[trigger] pieces[k]),
    ensures
        forall|i: int| 0 <= i < gather(pieces).len() ==> is_name(#[trigger] gather(pieces)[i]),
        forall|i: int, j: int|
            0 <= i < j < gather(pieces).len() ==> gather(pieces)[i] != gather(pieces)[j],
    decreases pieces.len(),
{
    if pieces.len() > 0 {
        let init = pieces.drop_last();
        assert forall|k: int| 0 <= k < init.len() implies is_piece(#[trigger] init[k]) by {
            assert(init[k] == pieces[k]);
        }
        lemma_gather(init);
        let name = trim(pieces.last());
        lemma_trim_is_tight(pieces.last());
        if name.len() > 0 && !gather(init).contains(name) {
            assert(is_piece(pieces[pieces.len() - 1]));
            assert forall|j: int| 0 <= j < name.len() implies {
                &&& #[trigger] name[j] != ','
                &&& name[j] != '/'
                &&& name[j] != '\n'
            } by {
                assert(name.contains(name[j]));
                let c = name[j];
                assert(pieces.last().contains(c));
                let m = choose|m: int| 0 <= m < pieces.last().len() && pieces.last()[m] == c;
                assert(pieces.last()[m] != ',');
            }
            assert(is_name(name));
            let all = gather(pieces);
            assert(all == gather(init).push(name));
            assert forall|i: int, j: int| 0 <= i < j < all.len() implies all[i] != all[j] by {
                if j == all.len() - 1 {
                    assert(gather(init)[i] == all[i]);
                    assert(gather(init).contains(all[i]));
                }
            }
        }
    }
}

/// One more line keeps a sound scan sound.
pub proof fn lemma_step_keeps_sound(
    st: Scan,
    kind: LineKind,
    line: Seq<char>,
    section: SysctlSection,
)
    requires
        st.sound(section),
        !line.contains('\n'),
        kind == LineKind::Indented || kind == LineKind::Margin ==> !is_blank(line),
    ensures
        st.step(kind, line, section).sound(section),
{
    let next = st.step(kind, line, section);
    lemma_trim_is_tight(line);
    lemma_names_of(line);
    if next.records != st.records {
        assert(next.records == st.flushed(section));
        assert forall|i: int| 0 <= i < next.records.len() implies {
            &&& is_name((#[trigger] next.records[i]).name)
            &&& is_tidy(next.records[i].description)
            &&& next.records[i].section == section
        } by {
            if i < st.records.len() {
                assert(next.records[i] == st.records[i]);
            } else {
                let k = i - st.records.len();
                assert(next.records[i] == produced(st.names, st.body, section)[k]);
                assert(is_name(st.names[k]));
            }
        }
    }
    if next.body != st.body && next.body.len() > 0 {
        if st.body.len() > 0 && next.body != trim(line) {
            let gap = if st.mode == Mode::Break {
                '\n'
            } else {
                ' '
            };
            assert(next.body == st.body.push(gap) + trim(line));
            assert(next.body.first() == st.body.first());
            assert(next.body.last() == trim(line).last());
        }
    }
}

/// The scan is sound after any number of the lines of a text.
pub proof fn lemma_scan_is_sound(text: Seq<char>, n: nat, section: SysctlSection)
    requires
        n <= lines_of(text).len(),
    ensures
        scan(lines_of(text), n, section).sound(section),
    decreases n,
{
    if n > 0 {
        let lines = lines_of(text);
        let i = (n - 1) as nat;
        lemma_scan_is_sound(text, i, section);
        lemma_split_pieces(text, '\n', '\n');
        assert(!lines[i as int].contains('\n')) by {
            if lines[i as int].contains('\n') {
                let j = choose|j: int| 0 <= j < lines[i as int].len() && lines[i as int][j] == '\n';
                assert(lines[i as int][j] != '\n');
            }
        }
        lemma_step_keeps_sound(
            scan(lines, i, section),
            kind_at(lines, i as int),
            lines[i as int],
            section,
        );
    }
}

/// Every record that a text gives has the section that was asked for, a name
/// that is not empty and holds no line break, no separator and no whitespace
/// at its ends, and a description without whitespace at its ends.
pub proof fn lemma_records_are_sound(text: Seq<char>, section: SysctlSection)
    ensures
        forall|i: int|
            0 <= i < extract_spec(text, section).len() ==> {
                &&& (#[trigger] extract_spec(text, section)[i]).section == section
                &&& extract_spec(text, section)[i].well_formed()
                &&& is_name(extract_spec(text, section)[i].name)
                &&& is_tidy(extract_spec(text, section)[i].description)
            },
{
    let lines = lines_of(text);
    let last = scan(lines, lines.len(), section);
    lemma_scan_is_sound(text, lines.len(), section);
    let all = extract_spec(text, section);
    assert forall|i: int| 0 <= i < all.len() implies {
        &&& (#[trigger] all[i]).section == section
        &&& all[i].well_formed()
        &&& is_name(all[i].name)
        &&& is_tidy(all[i].description)
    } by {
        if i < last.records.len() {
            assert(all[i] == last.records[i]);
        } else {
            let k = i - last.records.len();
            assert(all[i] == produced(last.names, last.body, section)[k]);
            assert(is_name(last.names[k]));
        }
        let name = all[i].name;
        if name.contains('\n') {
            let j = choose|j: int| 0 <= j < name.len() && name[j] == '\n';
            assert(name[j] != '\n');
        }
    }
}

/// The scan holds records or names exactly when a line that it has read
/// names an entry.
pub proof fn lemma_scan_counts(text: Seq<char>, n: nat, section: SysctlSection)
    requires
        n <= lines_of(text).len(),
    ensures
        scan(lines_of(text), n, section).records.len() + scan(lines_of(text), n, section).names.len()
            > 0 <==> entry_before(lines_of(text), n as int),
    decreases n,
{
    let lines = lines_of(text);
    if n > 0 {
        let i = (n - 1) as nat;
        let before = scan(lines, i, section);
        let after = scan(lines, n, section);
        lemma_scan_counts(text, i, section);
        lemma_scan_is_sound(text, i, section);
        if entry_before(lines, i as int) {
            let k = choose|k: int| 0 <= k < i && names_entry(lines, k);
            assert(0 <= k < n && names_entry(lines, k));
        }
        if names_entry(lines, i as int) {
            assert(entry_before(lines, n as int));
        }
        if entry_before(lines, n as int) && !entry_before(lines, i as int) {
            let k = choose|k: int| 0 <= k < n && names_entry(lines, k);
            assert(k == i);
        }
    }
}

/// A text gives no record exactly when none of its lines names an entry:
/// what a line at the margin names is never dropped, and nothing else ever
/// makes a record.
pub proof fn lemma_no_entry_no_record(text: Seq<char>, section: SysctlSection)
    ensures
        extract_spec(text, section).len() == 0 <==> has_no_entry(text),
{
    let lines = lines_of(text);
    lemma_scan_counts(text, lines.len(), section);
    if entry_before(lines, lines.len() as int) {
        let k = choose|k: int| 0 <= k < lines.len() && names_entry(lines, k);
        assert(!has_no_entry(text));
    }
    if !has_no_entry(text) {
        let k = choose|k: int| 0 <= k < lines.len() && names_entry(lines, k);
        assert(entry_before(lines, lines.len() as int));
    }
}

/// The section that is asked for tags the records and decides nothing else:
/// under another section the same text gives the same names and descriptions,
/// in the same order.
pub proof fn lemma_section_only_tags(text: Seq<char>, one: SysctlSection, other: SysctlSection)
    ensures
        extract_spec(text, other) == retagged(extract_spec(text, one), other),
{
    let lines = lines_of(text);
    lemma_scan_retagged(lines, lines.len(), one, other);
    let a = scan(lines, lines.len(), one);
    let b = scan(lines, lines.len(), other);
    assert(b.flushed(other) =~= retagged(a.flushed(one), other));
}

proof fn lemma_scan_retagged(
    lines: Seq<Seq<char>>,
    n: nat,
    one: SysctlSection,
    other: SysctlSection,
)
    requires
        n <= lines.len(),
    ensures
        scan(lines, n, other).records == retagged(scan(lines, n, one).records, other),
        scan(lines, n, other).names == scan(lines, n, one).names,
        scan(lines, n, other).body == scan(lines, n, one).body,
        scan(lines, n, other).mode == scan(lines, n, one).mode,
    decreases n,
{
    if n == 0 {
        assert(Scan::start().records =~= retagged(Scan::start().records, other));
    } else {
        let i = (n - 1) as nat;
        lemma_scan_retagged(lines, i, one, other);
        let a = scan(lines, i, one);
        let b = scan(lines, i, other);
        assert(b.flushed(other) =~= retagged(a.flushed(one), other));
    }
}

/// Line `i` closes what was open and names an entry of its own: it has
/// text at the left margin, is no title, underline or directive, and does
/// not go on with a description.
pub open spec fn opens_entry(lines: Seq<Seq<char>>, i: int, section: SysctlSection) -> bool {
    &&& 0 <= i < lines.len()
    &&& kind_at(lines, i) == LineKind::Margin
    &&& scan(lines, i as nat, section).mode != Mode::Gap
    &&& scan(lines, i as nat, section).mode != Mode::Open
}

/// From position `at` on, `records` holds one record for each of `names`,
/// in their order, and all of them with one description.
pub open spec fn holds_entry(
    records: Seq<Entry>,
    at: int,
    names: Seq<Seq<char>>,
    section: SysctlSection,
) -> bool {
    exists|body: Seq<char>|
        {
            &&& 0 <= at
            &&& at + names.len() <= records.len()
            &&& #[trigger] produced(names, body, section) == records.subrange(
                at,
                at + names.len(),
            )
        }
}

/// The names of one line share one description: where a line names an entry,
/// the text gives, from the records of the entries before it on, exactly one
/// record for each name of the line, in the order of the line, and all of
/// these records have the same description. The names are not merged into
/// one record.
pub proof fn lemma_aliases_share_description(text: Seq<char>, section: SysctlSection, i: int)
    requires
        opens_entry(lines_of(text), i, section),
    ensures
        holds_entry(
            extract_spec(text, section),
            scan(lines_of(text), i as nat, section).flushed(section).len() as int,
            names_of(lines_of(text)[i]),
            section,
        ),
{
    let lines = lines_of(text);
    let names = names_of(lines[i]);
    let before = scan(lines, i as nat, section).flushed(section);
    let at = before.len() as int;
    let last = scan(lines, lines.len(), section);
    let all = extract_spec(text, section);
    lemma_entry_stays(lines, i as nat, lines.len(), section);
    if last.names == names && last.records == before {
        assert(produced(names, last.body, section) =~= all.subrange(at, at + names.len()));
    } else {
        let body = choose|body: Seq<char>|
            at + names.len() <= last.records.len() && #[trigger] produced(names, body, section)
                == last.records.subrange(at, at + names.len());
        assert(produced(names, body, section) =~= all.subrange(at, at + names.len()));
    }
}

proof fn lemma_entry_stays(lines: Seq<Seq<char>>, i: nat, n: nat, section: SysctlSection)
    requires
        opens_entry(lines, i as int, section),
        i < n <= lines.len(),
    ensures
        ({
            let before = scan(lines, i, section).flushed(section);
            let names = names_of(lines[i as int]);
            let st = scan(lines, n, section);
            (st.names == names && st.records == before) || holds_entry(
                st.records,
                before.len() as int,
                names,
                section,
            )
        }),
    decreases n,
{
    let before = scan(lines, i, section).flushed(section);
    let names = names_of(lines[i as int]);
    let at = before.len() as int;
    let st = scan(lines, n, section);
    if n > i + 1 {
        let m = (n - 1) as nat;
        let prev = scan(lines, m, section);
        lemma_entry_stays(lines, i, m, section);
        if prev.names == names && prev.records == before {
            if st.records != prev.records {
                assert(st.records == prev.flushed(section));
                assert(produced(names, prev.body, section) =~= st.records.subrange(
                    at,
                    at + names.len(),
                ));
            }
        } else {
            let body = choose|body: Seq<char>|
                at + names.len() <= prev.records.len() && #[trigger] produced(
                    names,
                    body,
                    section,
                ) == prev.records.subrange(at, at + names.len());
            if st.records != prev.records {
                assert(st.records == prev.flushed(section));
            }
            assert(produced(names, body, section) =~= st.records.subrange(
                at,
                at + names.len(),
            ));
        }
    }
}

/// Two extractions from one text under one section are the same sequence of
/// records: the records depend on nothing but the text and the section.
pub proof fn lemma_extraction_is_stable(
    first: Seq<Entry>,
    second: Seq<Entry>,
    text: Seq<char>,
    section: SysctlSection,
)
    requires
        first == extract_spec(text, section),
        second == extract_spec(text, section),
    ensures
        first == second,
{
}

} // verus!
