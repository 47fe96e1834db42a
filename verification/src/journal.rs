//! The commit journal: what a file swap is about to do, written before the
//! first rename so that an interrupted swap can be finished or undone by the
//! next run.
//!
//! The text form is line based: a version line, `hash\t<algorithm>`, an
//! optional `archive\t<digest>`, then one line per unit (`file`, `copy`,
//! `del`, `dir`), the files of a `dir` unit following its line. Fields are
//! tab separated and `-` stands for an absent hash.

use vstd::prelude::*;
use crate::text::{
    lower, lowercase,
    chars_eq, chars_of, has_prefix, join_nl, lacks, lemma_split_join, lemma_split_lacking,
    lemma_split_sep, lemma_trim_lacking, opt_view, split_chars, split_on, starts_with_chars,
    string_of, trim_end_char, trim_end_char_exec, trim_end_ws, trim_end_ws_exec,
};
use vstd::string::StringExecFns;
use crate::lookup::{TextMap, TextSet};

verus! {

/// First line of every journal this version writes and accepts.
pub const JOURNAL_VERSION: &'static str = "kachina-journal 1";

/// One file of a swap.
#[derive(Clone, Debug, PartialEq, Eq)]
pub struct FileEntry {
    /// Relative path with `/` separators.
    pub rel: String,
    /// Hash of the file the target held before the swap; `None` when it did
    /// not exist or is unknown.
    pub old: Option<String>,
    pub new: String,
}

/// The granularity of the swap.
#[derive(Clone, Debug, PartialEq, Eq)]
pub enum Unit {
    File(FileEntry),
    /// Whole subtree swap; `rel` empty means the install directory itself.
    Dir { rel: String, files: Vec<FileEntry> },
    Del { rel: String, old: Option<String> },
    Copy(FileEntry),
}

/// A planned swap.
#[derive(Clone, Debug, PartialEq, Eq)]
pub struct Journal {
    pub hash_algorithm: String,
    /// Archive digest of an archive-based commit; `None` otherwise.
    pub archive: Option<String>,
    pub units: Vec<Unit>,
}

/// A file entry as plain character sequences.
pub struct EntryView {
    pub rel: Seq<char>,
    pub old: Option<Seq<char>>,
    pub new: Seq<char>,
}

/// A unit as plain character sequences.
pub enum UnitView {
    File(EntryView),
    Dir { rel: Seq<char>, files: Seq<EntryView> },
    Del { rel: Seq<char>, old: Option<Seq<char>> },
    Copy(EntryView),
}

/// A journal as plain character sequences.
pub struct JournalView {
    pub hash_algorithm: Seq<char>,
    pub archive: Option<Seq<char>>,
    pub units: Seq<UnitView>,
}

impl View for FileEntry {
    type V = EntryView;

    open spec fn view(&self) -> EntryView {
        EntryView { rel: self.rel@, old: opt_view(self.old), new: self.new@ }
    }
}

pub open spec fn entries_view(files: Seq<FileEntry>) -> Seq<EntryView> {
    files.map_values(|f: FileEntry| f@)
}

impl View for Unit {
    type V = UnitView;

    open spec fn view(&self) -> UnitView {
        match self {
            Unit::File(f) => UnitView::File(f@),
            Unit::Dir { rel, files } => UnitView::Dir { rel: rel@, files: entries_view(files@) },
            Unit::Del { rel, old } => UnitView::Del { rel: rel@, old: opt_view(*old) },
            Unit::Copy(f) => UnitView::Copy(f@),
        }
    }
}

pub open spec fn units_view(units: Seq<Unit>) -> Seq<UnitView> {
    units.map_values(|u: Unit| u@)
}

impl View for Journal {
    type V = JournalView;

    open spec fn view(&self) -> JournalView {
        JournalView {
            hash_algorithm: self.hash_algorithm@,
            archive: opt_view(self.archive),
            units: units_view(self.units@),
        }
    }
}

/// The relative path a unit is about.
pub open spec fn unit_rel(u: UnitView) -> Seq<char> {
    match u {
        UnitView::File(f) => f.rel,
        UnitView::Dir { rel, .. } => rel,
        UnitView::Del { rel, .. } => rel,
        UnitView::Copy(f) => f.rel,
    }
}

impl Unit {
    /// The relative path this unit is about.
    pub fn rel(&self) -> (r: &str)
        ensures
            r@ == unit_rel(self@),
    {
        match self {
            Unit::File(f) => f.rel.as_str(),
            Unit::Copy(f) => f.rel.as_str(),
            Unit::Dir { rel, .. } => rel.as_str(),
            Unit::Del { rel, .. } => rel.as_str(),
        }
    }
}

pub open spec fn version_line() -> Seq<char> {
    seq!['k', 'a', 'c', 'h', 'i', 'n', 'a', '-', 'j', 'o', 'u', 'r', 'n', 'a', 'l', ' ', '1']
}

pub open spec fn tag_hash() -> Seq<char> {
    seq!['h', 'a', 's', 'h']
}

pub open spec fn tag_archive() -> Seq<char> {
    seq!['a', 'r', 'c', 'h', 'i', 'v', 'e']
}

pub open spec fn tag_file() -> Seq<char> {
    seq!['f', 'i', 'l', 'e']
}

pub open spec fn tag_copy() -> Seq<char> {
    seq!['c', 'o', 'p', 'y']
}

pub open spec fn tag_del() -> Seq<char> {
    seq!['d', 'e', 'l']
}

pub open spec fn tag_dir() -> Seq<char> {
    seq!['d', 'i', 'r']
}

/// The text standing for an optional hash: the hash, or `-` for none.
pub open spec fn opt_text(o: Option<Seq<char>>) -> Seq<char> {
    match o {
        Some(s) => s,
        None => seq!['-'],
    }
}

/// The optional hash a field stands for: none for `-`.
pub open spec fn opt_of_text(s: Seq<char>) -> Option<Seq<char>> {
    if s == seq!['-'] {
        None
    } else {
        Some(s)
    }
}

/// Fields joined by tabs.
pub open spec fn tabbed(fields: Seq<Seq<char>>) -> Seq<char>
    decreases fields.len(),
{
    if fields.len() == 0 {
        Seq::<char>::empty()
    } else if fields.len() == 1 {
        fields[0]
    } else {
        tabbed(fields.drop_last()) + seq!['\t'] + fields.last()
    }
}

pub open spec fn entry_line(tag: Seq<char>, e: EntryView) -> Seq<char> {
    tabbed(seq![tag, e.rel, opt_text(e.old), e.new])
}

pub open spec fn files_lines(files: Seq<EntryView>) -> Seq<Seq<char>>
    decreases files.len(),
{
    if files.len() == 0 {
        Seq::<Seq<char>>::empty()
    } else {
        files_lines(files.drop_last()).push(entry_line(tag_file(), files.last()))
    }
}

/// The lines a unit is written as.
pub open spec fn unit_lines(u: UnitView) -> Seq<Seq<char>> {
    match u {
        UnitView::File(f) => seq![entry_line(tag_file(), f)],
        UnitView::Copy(f) => seq![entry_line(tag_copy(), f)],
        UnitView::Del { rel, old } => seq![tabbed(seq![tag_del(), rel, opt_text(old)])],
        UnitView::Dir { rel, files } => seq![tabbed(seq![tag_dir(), rel])] + files_lines(files),
    }
}

pub open spec fn units_lines(units: Seq<UnitView>) -> Seq<Seq<char>>
    decreases units.len(),
{
    if units.len() == 0 {
        Seq::<Seq<char>>::empty()
    } else {
        units_lines(units.drop_last()) + unit_lines(units.last())
    }
}

/// The lines a journal is written as.
pub open spec fn journal_lines(j: JournalView) -> Seq<Seq<char>> {
    seq![version_line(), tabbed(seq![tag_hash(), j.hash_algorithm])] + match j.archive {
        Some(a) => seq![tabbed(seq![tag_archive(), a])],
        None => Seq::<Seq<char>>::empty(),
    } + units_lines(j.units)
}

/// The text of a journal: its lines, each ending in a newline.
pub open spec fn journal_text(j: JournalView) -> Seq<char> {
    join_nl(journal_lines(j))
}

/// What has been read of a journal after some of its lines.
pub struct ParseState {
    pub hash: Option<Seq<char>>,
    pub archive: Option<Seq<char>>,
    pub units: Seq<UnitView>,
    /// The last unit is a `dir` unit that further `file` lines under it
    /// join.
    pub open: bool,
}

pub open spec fn initial_state() -> ParseState {
    ParseState { hash: None, archive: None, units: Seq::empty(), open: false }
}

/// `rel` lies inside directory `dir` (every path lies inside the root, `""`).
pub open spec fn rel_under_spec(rel: Seq<char>, dir: Seq<char>) -> bool {
    dir.len() == 0 || has_prefix(rel, dir.push('/'))
}

/// `u` with `e` added to its files when it is a `dir` unit.
pub open spec fn attach(u: UnitView, e: EntryView) -> UnitView {
    match u {
        UnitView::Dir { rel, files } => UnitView::Dir { rel, files: files.push(e) },
        other => other,
    }
}

/// Reading one line after the version line; `None` when it is malformed.
pub open spec fn step(st: ParseState, raw: Seq<char>) -> Option<ParseState> {
    let line = trim_end_char(raw, '\r');
    let p = split_on(line, '\t');
    if line.len() == 0 {
        Some(st)
    } else if p.len() == 2 && p[0] == tag_hash() {
        Some(ParseState { hash: Some(p[1]), archive: st.archive, units: st.units, open: st.open })
    } else if p.len() == 2 && p[0] == tag_archive() {
        Some(ParseState { hash: st.hash, archive: Some(p[1]), units: st.units, open: st.open })
    } else if p.len() == 2 && p[0] == tag_dir() {
        Some(
            ParseState {
                hash: st.hash,
                archive: st.archive,
                units: st.units.push(UnitView::Dir { rel: p[1], files: Seq::empty() }),
                open: true,
            },
        )
    } else if p.len() == 4 && p[0] == tag_file() {
        let e = EntryView { rel: p[1], old: opt_of_text(p[2]), new: p[3] };
        if st.open && rel_under_spec(e.rel, unit_rel(st.units.last())) {
            Some(
                ParseState {
                    hash: st.hash,
                    archive: st.archive,
                    units: st.units.update(st.units.len() - 1, attach(st.units.last(), e)),
                    open: true,
                },
            )
        } else {
            Some(
                ParseState {
                    hash: st.hash,
                    archive: st.archive,
                    units: st.units.push(UnitView::File(e)),
                    open: false,
                },
            )
        }
    } else if p.len() == 4 && p[0] == tag_copy() {
        let e = EntryView { rel: p[1], old: opt_of_text(p[2]), new: p[3] };
        Some(
            ParseState {
                hash: st.hash,
                archive: st.archive,
                units: st.units.push(UnitView::Copy(e)),
                open: false,
            },
        )
    } else if p.len() == 3 && p[0] == tag_del() {
        Some(
            ParseState {
                hash: st.hash,
                archive: st.archive,
                units: st.units.push(UnitView::Del { rel: p[1], old: opt_of_text(p[2]) }),
                open: false,
            },
        )
    } else {
        None
    }
}

/// Reading lines in order; a malformed line ends the reading.
pub open spec fn run_lines(st: Option<ParseState>, lines: Seq<Seq<char>>) -> Option<ParseState>
    decreases lines.len(),
{
    if lines.len() == 0 {
        st
    } else {
        match run_lines(st, lines.drop_last()) {
            Some(s) => step(s, lines.last()),
            None => None,
        }
    }
}

/// What a text reads as: `None` when the first line is not the version
/// line, a later line is malformed, or no `hash` line was read.
pub open spec fn parse_spec(text: Seq<char>) -> Option<JournalView> {
    let pieces = split_on(text, '\n');
    if trim_end_ws(pieces[0]) != version_line() {
        None
    } else {
        match run_lines(Some(initial_state()), pieces.skip(1)) {
            Some(st) => match st.hash {
                Some(h) => Some(JournalView { hash_algorithm: h, archive: st.archive, units: st.units }),
                None => None,
            },
            None => None,
        }
    }
}

/// Reading stops for good at a malformed line.
pub proof fn lemma_run_failed(lines: Seq<Seq<char>>)
    ensures
        run_lines(None, lines) == None::<ParseState>,
    decreases lines.len(),
{
    if lines.len() > 0 {
        lemma_run_failed(lines.drop_last());
    }
}

/// Reading two runs of lines reads the first, then the second.
pub proof fn lemma_run_concat(st: Option<ParseState>, a: Seq<Seq<char>>, b: Seq<Seq<char>>)
    ensures
        run_lines(st, a + b) == run_lines(run_lines(st, a), b),
    decreases b.len(),
{
    if b.len() == 0 {
        assert(a + b == a);
    } else {
        lemma_run_concat(st, a, b.drop_last());
        assert((a + b).drop_last() == a + b.drop_last());
        assert((a + b).last() == b.last());
    }
}

/// A field the text form can carry unchanged: no tab, newline or carriage
/// return in it.
pub open spec fn field_ok(s: Seq<char>) -> bool {
    lacks(s, '\t') && lacks(s, '\n') && lacks(s, '\r')
}

/// An optional hash the text form can carry: `-` stands for none, so a
/// present hash is never `-` itself.
pub open spec fn opt_ok(o: Option<Seq<char>>) -> bool {
    match o {
        Some(h) => field_ok(h) && h != seq!['-'],
        None => true,
    }
}

pub open spec fn entry_ok(e: EntryView) -> bool {
    field_ok(e.rel) && field_ok(e.new) && opt_ok(e.old)
}

pub open spec fn unit_ok(u: UnitView) -> bool {
    match u {
        UnitView::File(e) => entry_ok(e),
        UnitView::Copy(e) => entry_ok(e),
        UnitView::Del { rel, old } => field_ok(rel) && opt_ok(old),
        UnitView::Dir { rel, files } => field_ok(rel) && forall|i: int|
            0 <= i < files.len() ==> entry_ok(#[trigger] files[i]) && rel_under_spec(
                files[i].rel,
                rel,
            ),
    }
}

/// The units survive being written and read back: each is well formed, and
/// no `file` unit right after a `dir` unit lies inside that directory (it
/// would be read back as one of the directory's files).
pub open spec fn units_ok(units: Seq<UnitView>) -> bool {
    &&& forall|i: int| 0 <= i < units.len() ==> unit_ok(#[trigger] units[i])
    &&& forall|i: int|
        1 <= i < units.len() && #[trigger] units[i] is File && units[i - 1] is Dir
            ==> !rel_under_spec(unit_rel(units[i]), unit_rel(units[i - 1]))
}

/// A journal whose text reads back as the same journal.
pub open spec fn journal_ok(j: JournalView) -> bool {
    &&& field_ok(j.hash_algorithm)
    &&& match j.archive {
        Some(a) => field_ok(a),
        None => true,
    }
    &&& units_ok(j.units)
}

proof fn lemma_tabbed_split(fs: Seq<Seq<char>>)
    requires
        fs.len() >= 1,
        forall|i: int| 0 <= i < fs.len() ==> lacks(#[trigger] fs[i], '\t'),
    ensures
        split_on(tabbed(fs), '\t') == fs,
    decreases fs.len(),
{
    if fs.len() == 1 {
        lemma_split_lacking(fs[0], '\t');
        assert(seq![fs[0]] =~= fs);
    } else {
        let init = fs.drop_last();
        assert forall|i: int| 0 <= i < init.len() implies lacks(#[trigger] init[i], '\t') by {
            assert(init[i] == fs[i]);
        }
        lemma_tabbed_split(init);
        lemma_split_sep(tabbed(init), fs.last(), '\t');
        assert(lacks(fs.last(), '\t')) by {
            assert(fs.last() == fs[fs.len() - 1]);
        }
        lemma_split_lacking(fs.last(), '\t');
        assert(init + seq![fs.last()] =~= fs);
    }
}

proof fn lemma_tabbed_lacks(fs: Seq<Seq<char>>, c: char)
    requires
        c != '\t',
        forall|i: int| 0 <= i < fs.len() ==> lacks(#[trigger] fs[i], c),
    ensures
        lacks(tabbed(fs), c),
    decreases fs.len(),
{
    if fs.len() == 1 {
        assert(fs[0] == fs[0]);
    } else if fs.len() > 1 {
        let init = fs.drop_last();
        assert forall|i: int| 0 <= i < init.len() implies lacks(#[trigger] init[i], c) by {
            assert(init[i] == fs[i]);
        }
        lemma_tabbed_lacks(init, c);
        assert(fs.last() == fs[fs.len() - 1]);
        let t = tabbed(fs);
        assert(t == tabbed(init) + seq!['\t'] + fs.last());
        assert forall|i: int| 0 <= i < t.len() implies t[i] != c by {
            if i < tabbed(init).len() {
                assert(t[i] == tabbed(init)[i]);
            } else if i > tabbed(init).len() {
                assert(t[i] == fs.last()[i - tabbed(init).len() - 1]);
            }
        }
    }
}

/// A line of fields as the reader sees it: the fields back, and no
/// trailing carriage return to trim.
proof fn lemma_line_reads(fs: Seq<Seq<char>>)
    requires
        fs.len() >= 1,
        fs[0].len() > 0,
        forall|i: int| 0 <= i < fs.len() ==> field_ok(#[trigger] fs[i]),
    ensures
        split_on(trim_end_char(tabbed(fs), '\r'), '\t') == fs,
        trim_end_char(tabbed(fs), '\r').len() > 0,
        lacks(tabbed(fs), '\n'),
{
    assert forall|i: int| 0 <= i < fs.len() implies lacks(#[trigger] fs[i], '\t') by {
        assert(field_ok(fs[i]));
    }
    assert forall|i: int| 0 <= i < fs.len() implies lacks(#[trigger] fs[i], '\r') by {
        assert(field_ok(fs[i]));
    }
    assert forall|i: int| 0 <= i < fs.len() implies lacks(#[trigger] fs[i], '\n') by {
        assert(field_ok(fs[i]));
    }
    lemma_tabbed_lacks(fs, '\r');
    lemma_tabbed_lacks(fs, '\n');
    lemma_trim_lacking(tabbed(fs), '\r');
    lemma_tabbed_split(fs);
    lemma_tabbed_nonempty(fs);
}

proof fn lemma_tabbed_nonempty(fs: Seq<Seq<char>>)
    requires
        fs.len() >= 1,
        fs[0].len() > 0,
    ensures
        tabbed(fs).len() > 0,
    decreases fs.len(),
{
    if fs.len() > 1 {
        lemma_tabbed_nonempty(fs.drop_last());
    }
}

proof fn lemma_tags_differ()
    ensures
        tag_file() != tag_copy(),
        tag_dir() != tag_del(),
        tag_hash() != tag_file(),
        tag_hash() != tag_copy(),
        tag_hash() != tag_dir(),
        tag_hash() != tag_archive(),
        tag_archive() != tag_dir(),
{
    assert(tag_file()[0] != tag_copy()[0]);
    assert(tag_dir()[1] != tag_del()[1]);
    assert(tag_hash()[0] != tag_file()[0]);
    assert(tag_hash()[0] != tag_copy()[0]);
}

proof fn lemma_opt_back(o: Option<Seq<char>>)
    requires
        opt_ok(o),
    ensures
        opt_of_text(opt_text(o)) == o,
        field_ok(opt_text(o)),
{
    if o is None {
        assert(field_ok(seq!['-'])) by {
            assert(lacks(seq!['-'], '\t'));
        }
    }
}

/// Reading back the lines of a directory's files attaches each file to it.
proof fn lemma_files_read(
    hash: Option<Seq<char>>,
    archive: Option<Seq<char>>,
    base: Seq<UnitView>,
    rel: Seq<char>,
    files: Seq<EntryView>,
)
    requires
        forall|i: int|
            0 <= i < files.len() ==> entry_ok(#[trigger] files[i]) && rel_under_spec(files[i].rel, rel),
    ensures
        run_lines(
            Some(
                ParseState {
                    hash,
                    archive,
                    units: base.push(UnitView::Dir { rel, files: Seq::empty() }),
                    open: true,
                },
            ),
            files_lines(files),
        ) == Some(
            ParseState {
                hash,
                archive,
                units: base.push(UnitView::Dir { rel, files }),
                open: true,
            },
        ),
    decreases files.len(),
{
    if files.len() == 0 {
        assert(files == Seq::<EntryView>::empty());
    } else {
        let init = files.drop_last();
        let f = files.last();
        assert forall|i: int| 0 <= i < init.len() implies entry_ok(#[trigger] init[i])
            && rel_under_spec(init[i].rel, rel) by {
            assert(init[i] == files[i]);
        }
        lemma_files_read(hash, archive, base, rel, init);
        assert(f == files[files.len() - 1]);
        assert(files_lines(files).drop_last() == files_lines(init));
        assert(files_lines(files).last() == entry_line(tag_file(), f));
        let fs = seq![tag_file(), f.rel, opt_text(f.old), f.new];
        lemma_opt_back(f.old);
        lemma_line_reads(fs);
        lemma_tags_differ();
        let st = ParseState {
            hash,
            archive,
            units: base.push(UnitView::Dir { rel, files: init }),
            open: true,
        };
        assert(unit_rel(st.units.last()) == rel);
        assert(init.push(f) == files);
        assert(st.units.update(st.units.len() - 1, attach(st.units.last(), f)) =~= base.push(
            UnitView::Dir { rel, files },
        ));
    }
}

/// The last unit is a directory, which later `file` lines may join.
pub open spec fn ends_open(units: Seq<UnitView>) -> bool {
    units.len() > 0 && units.last() is Dir
}

proof fn lemma_run_one(st: Option<ParseState>, l: Seq<char>)
    ensures
        run_lines(st, seq![l]) == match st {
            Some(s) => step(s, l),
            None => None,
        },
{
    assert(seq![l].drop_last() == Seq::<Seq<char>>::empty());
    assert(run_lines(st, Seq::<Seq<char>>::empty()) == st);
    assert(seq![l].last() == l);
}

/// Reading back the lines of units gives the units.
proof fn lemma_units_read(hash: Option<Seq<char>>, archive: Option<Seq<char>>, us: Seq<UnitView>)
    requires
        units_ok(us),
    ensures
        run_lines(
            Some(ParseState { hash, archive, units: Seq::empty(), open: false }),
            units_lines(us),
        ) == Some(ParseState { hash, archive, units: us, open: ends_open(us) }),
    decreases us.len(),
{
    let st0 = ParseState { hash, archive, units: Seq::empty(), open: false };
    if us.len() == 0 {
        assert(us == Seq::<UnitView>::empty());
    } else {
        let init = us.drop_last();
        let u = us.last();
        assert(u == us[us.len() - 1]);
        assert(unit_ok(u));
        assert(units_ok(init)) by {
            assert forall|i: int| 0 <= i < init.len() implies unit_ok(#[trigger] init[i]) by {
                assert(init[i] == us[i]);
            }
            assert forall|i: int|
                1 <= i < init.len() && #[trigger] init[i] is File && init[i - 1] is Dir implies !rel_under_spec(
                unit_rel(init[i]),
                unit_rel(init[i - 1]),
            ) by {
                assert(init[i] == us[i]);
                assert(init[i - 1] == us[i - 1]);
            }
        }
        lemma_units_read(hash, archive, init);
        lemma_run_concat(Some(st0), units_lines(init), unit_lines(u));
        let s1 = ParseState { hash, archive, units: init, open: ends_open(init) };
        lemma_tags_differ();
        match u {
            UnitView::File(e) => {
                let fs = seq![tag_file(), e.rel, opt_text(e.old), e.new];
                lemma_opt_back(e.old);
                lemma_line_reads(fs);
                lemma_run_one(Some(s1), entry_line(tag_file(), e));
                if ends_open(init) {
                    assert(us[us.len() - 1] is File);
                    assert(us[us.len() - 2] == init.last());
                }
                assert(init.push(u) == us);
            },
            UnitView::Copy(e) => {
                let fs = seq![tag_copy(), e.rel, opt_text(e.old), e.new];
                lemma_opt_back(e.old);
                lemma_line_reads(fs);
                lemma_run_one(Some(s1), entry_line(tag_copy(), e));
                assert(init.push(u) == us);
            },
            UnitView::Del { rel, old } => {
                let fs = seq![tag_del(), rel, opt_text(old)];
                lemma_opt_back(old);
                lemma_line_reads(fs);
                lemma_run_one(Some(s1), tabbed(fs));
                assert(init.push(u) == us);
            },
            UnitView::Dir { rel, files } => {
                let fs = seq![tag_dir(), rel];
                lemma_line_reads(fs);
                let dl = tabbed(fs);
                assert(unit_lines(u) == seq![dl] + files_lines(files));
                lemma_run_concat(Some(s1), seq![dl], files_lines(files));
                lemma_run_one(Some(s1), dl);
                lemma_files_read(hash, archive, init, rel, files);
                assert(init.push(u) == us);
            },
        }
    }
}

proof fn lemma_files_lines_lack(files: Seq<EntryView>)
    requires
        forall|i: int| 0 <= i < files.len() ==> entry_ok(#[trigger] files[i]),
    ensures
        forall|k: int| 0 <= k < files_lines(files).len() ==> lacks(#[trigger] files_lines(files)[k], '\n'),
        files_lines(files).len() == files.len(),
    decreases files.len(),
{
    if files.len() > 0 {
        let init = files.drop_last();
        assert forall|i: int| 0 <= i < init.len() implies entry_ok(#[trigger] init[i]) by {
            assert(init[i] == files[i]);
        }
        lemma_files_lines_lack(init);
        let f = files.last();
        assert(f == files[files.len() - 1]);
        lemma_opt_back(f.old);
        lemma_line_reads(seq![tag_file(), f.rel, opt_text(f.old), f.new]);
        assert forall|k: int| 0 <= k < files_lines(files).len() implies lacks(
            #[trigger] files_lines(files)[k],
            '\n',
        ) by {
            if k < init.len() {
                assert(files_lines(files)[k] == files_lines(init)[k]);
            }
        }
    }
}

proof fn lemma_units_lines_lack(us: Seq<UnitView>)
    requires
        forall|i: int| 0 <= i < us.len() ==> unit_ok(#[trigger] us[i]),
    ensures
        forall|k: int| 0 <= k < units_lines(us).len() ==> lacks(#[trigger] units_lines(us)[k], '\n'),
    decreases us.len(),
{
    if us.len() > 0 {
        let init = us.drop_last();
        assert forall|i: int| 0 <= i < init.len() implies unit_ok(#[trigger] init[i]) by {
            assert(init[i] == us[i]);
        }
        lemma_units_lines_lack(init);
        let u = us.last();
        assert(u == us[us.len() - 1]);
        let ul = unit_lines(u);
        assert forall|k: int| 0 <= k < ul.len() implies lacks(#[trigger] ul[k], '\n') by {
            match u {
                UnitView::File(e) => {
                    lemma_opt_back(e.old);
                    lemma_line_reads(seq![tag_file(), e.rel, opt_text(e.old), e.new]);
                },
                UnitView::Copy(e) => {
                    lemma_opt_back(e.old);
                    lemma_line_reads(seq![tag_copy(), e.rel, opt_text(e.old), e.new]);
                },
                UnitView::Del { rel, old } => {
                    lemma_opt_back(old);
                    lemma_line_reads(seq![tag_del(), rel, opt_text(old)]);
                },
                UnitView::Dir { rel, files } => {
                    lemma_line_reads(seq![tag_dir(), rel]);
                    lemma_files_lines_lack(files);
                    if k > 0 {
                        assert(ul[k] == files_lines(files)[k - 1]);
                    }
                },
            }
        }
        let all = units_lines(us);
        assert(all == units_lines(init) + ul);
        assert forall|k: int| 0 <= k < all.len() implies lacks(#[trigger] all[k], '\n') by {
            if k < units_lines(init).len() {
                assert(all[k] == units_lines(init)[k]);
            } else {
                assert(all[k] == ul[k - units_lines(init).len()]);
            }
        }
    }
}

/// Writing a journal and reading the text back gives the same journal,
/// for every journal whose fields the text form can carry (see
/// `journal_ok`).
pub proof fn lemma_journal_roundtrip(j: JournalView)
    requires
        journal_ok(j),
    ensures
        parse_spec(journal_text(j)) == Some(j),
{
    let lines = journal_lines(j);
    let arch = match j.archive {
        Some(a) => seq![tabbed(seq![tag_archive(), a])],
        None => Seq::<Seq<char>>::empty(),
    };
    let hl = tabbed(seq![tag_hash(), j.hash_algorithm]);
    let ul = units_lines(j.units);
    assert(lines == seq![version_line(), hl] + arch + ul);
    lemma_line_reads(seq![tag_hash(), j.hash_algorithm]);
    if let Some(a) = j.archive {
        lemma_line_reads(seq![tag_archive(), a]);
    }
    lemma_units_lines_lack(j.units);
    assert forall|k: int| 0 <= k < lines.len() implies lacks(#[trigger] lines[k], '\n') by {
        if k == 0 {
            assert(lines[0] == version_line());
        } else if k == 1 {
            assert(lines[1] == hl);
        } else if k < 2 + arch.len() {
            assert(lines[k] == arch[k - 2]);
        } else {
            assert(lines[k] == ul[k - 2 - arch.len()]);
        }
    }
    lemma_split_join(lines);
    let pieces = split_on(journal_text(j), '\n');
    assert(pieces[0] == version_line());
    assert(trim_end_ws(version_line()) == version_line());
    let body = pieces.skip(1);
    assert(body =~= seq![hl] + arch + ul + seq![Seq::<char>::empty()]);
    lemma_tags_differ();
    let s_hash = ParseState { hash: Some(j.hash_algorithm), archive: None, units: Seq::empty(), open: false };
    lemma_run_one(Some(initial_state()), hl);
    assert(run_lines(Some(initial_state()), seq![hl]) == Some(s_hash));
    let s_head = ParseState { hash: Some(j.hash_algorithm), archive: j.archive, units: Seq::empty(), open: false };
    lemma_run_concat(Some(initial_state()), seq![hl], arch);
    if let Some(a) = j.archive {
        lemma_run_one(Some(s_hash), tabbed(seq![tag_archive(), a]));
    }
    assert(run_lines(Some(initial_state()), seq![hl] + arch) == Some(s_head));
    lemma_run_concat(Some(initial_state()), seq![hl] + arch, ul);
    lemma_units_read(Some(j.hash_algorithm), j.archive, j.units);
    let s_end = ParseState { hash: Some(j.hash_algorithm), archive: j.archive, units: j.units, open: ends_open(j.units) };
    lemma_run_concat(Some(initial_state()), seq![hl] + arch + ul, seq![Seq::<char>::empty()]);
    lemma_run_one(Some(s_end), Seq::<char>::empty());
}

/// A file of the journal is still wanted: it is an installer-generated file,
/// or the wanted hash for its path (lowercased) is the journal's new hash.
pub open spec fn entry_wanted(
    f: EntryView,
    wanted: Map<Seq<char>, Seq<char>>,
    self_images: Set<Seq<char>>,
) -> bool {
    let rel = lowercase(f.rel);
    self_images.contains(rel) || (wanted.contains_key(rel) && wanted[rel] == f.new)
}

pub open spec fn unit_wanted(
    u: UnitView,
    wanted: Map<Seq<char>, Seq<char>>,
    deletes: Set<Seq<char>>,
    self_images: Set<Seq<char>>,
) -> bool {
    match u {
        UnitView::File(f) => entry_wanted(f, wanted, self_images),
        UnitView::Copy(f) => entry_wanted(f, wanted, self_images),
        UnitView::Dir { files, .. } => forall|i: int|
            0 <= i < files.len() ==> entry_wanted(#[trigger] files[i], wanted, self_images),
        UnitView::Del { rel, .. } => deletes.contains(lowercase(rel)),
    }
}

/// The journal still describes what is wanted: same hash algorithm and
/// archive digest, and, without an archive, every unit still wanted.
pub open spec fn journal_matches_spec(
    j: JournalView,
    hash_algorithm: Seq<char>,
    wanted: Map<Seq<char>, Seq<char>>,
    deletes: Set<Seq<char>>,
    archive: Option<Seq<char>>,
    self_images: Set<Seq<char>>,
) -> bool {
    &&& j.hash_algorithm == hash_algorithm
    &&& j.archive == archive
    &&& (j.archive is Some || forall|i: int|
        0 <= i < j.units.len() ==> unit_wanted(#[trigger] j.units[i], wanted, deletes, self_images))
}

pub open spec fn opt_str_view(o: Option<&str>) -> Option<Seq<char>> {
    match o {
        Some(s) => Some(s@),
        None => None,
    }
}

fn file_wanted(f: &FileEntry, wanted: &TextMap, self_images: &TextSet) -> (r: bool)
    ensures
        r == entry_wanted(f@, wanted@, self_images@),
{
    let rel = lower(f.rel.as_str());
    if self_images.contains(rel.as_str()) {
        return true;
    }
    match wanted.get(rel.as_str()) {
        Some(v) => *v == f.new,
        None => false,
    }
}

/// Whether the journal still describes what this session wants to install:
/// every file unit's new hash equals the wanted hash for its path, every
/// delete is still wanted, and the archive digest matches. `self_images`
/// are installer-generated files, which pass on their own hash.
pub fn journal_matches_target(
    journal: &Journal,
    hash_algorithm: &str,
    wanted: &TextMap,
    deletes: &TextSet,
    archive: Option<&str>,
    self_images: &TextSet,
) -> (r: bool)
    ensures
        r == journal_matches_spec(
            journal@,
            hash_algorithm@,
            wanted@,
            deletes@,
            opt_str_view(archive),
            self_images@,
        ),
{
    let algo = String::from_str(hash_algorithm);
    if journal.hash_algorithm != algo {
        return false;
    }
    match (&journal.archive, archive) {
        (Some(a), Some(b)) => {
            let b = String::from_str(b);
            return *a == b;
        },
        (None, None) => {},
        _ => {
            return false;
        },
    }
    let mut i: usize = 0;
    while i < journal.units.len()
        invariant
            i <= journal.units.len(),
            journal@.archive is None,
            forall|k: int|
                0 <= k < i ==> unit_wanted(
                    #[trigger] units_view(journal.units@)[k],
                    wanted@,
                    deletes@,
                    self_images@,
                ),
        decreases journal.units.len() - i,
    {
        let ghost uv = journal.units@[i as int]@;
        assert(units_view(journal.units@)[i as int] == uv);
        match &journal.units[i] {
            Unit::File(f) => {
                if !file_wanted(f, wanted, self_images) {
                    assert(uv == UnitView::File(f@));
                    assert(!unit_wanted(uv, wanted@, deletes@, self_images@));
                    assert(!unit_wanted(journal@.units[i as int], wanted@, deletes@, self_images@));
                    return false;
                }
            },
            Unit::Copy(f) => {
                if !file_wanted(f, wanted, self_images) {
                    assert(uv == UnitView::Copy(f@));
                    assert(!unit_wanted(journal@.units[i as int], wanted@, deletes@, self_images@));
                    return false;
                }
            },
            Unit::Dir { files, .. } => {
                let mut k: usize = 0;
                while k < files.len()
                    invariant
                        k <= files.len(),
                        i < journal.units.len(),
                        journal@.archive is None,
                        uv == journal.units@[i as int]@,
                        uv is Dir,
                        uv->Dir_files == entries_view(files@),
                        forall|m: int|
                            0 <= m < k ==> entry_wanted(
                                #[trigger] entries_view(files@)[m],
                                wanted@,
                                self_images@,
                            ),
                    decreases files.len() - k,
                {
                    assert(entries_view(files@)[k as int] == files@[k as int]@);
                    if !file_wanted(&files[k], wanted, self_images) {
                        assert(uv->Dir_files[k as int] == entries_view(files@)[k as int]);
                        assert(!unit_wanted(uv, wanted@, deletes@, self_images@));
                        assert(!unit_wanted(journal@.units[i as int], wanted@, deletes@, self_images@));
                        return false;
                    }
                    k += 1;
                }
                assert(unit_wanted(uv, wanted@, deletes@, self_images@));
            },
            Unit::Del { rel, .. } => {
                let r = lower(rel.as_str());
                if !deletes.contains(r.as_str()) {
                    assert(!unit_wanted(journal@.units[i as int], wanted@, deletes@, self_images@));
                    return false;
                }
            },
        }
        i += 1;
    }
    true
}

/// Appends `line` and a newline.
fn append_line(out: &mut String, line: &str)
    ensures
        final(out)@ == old(out)@ + line@ + seq!['\n'],
{
    out.append(line);
    out.push('\n');
}

/// The text of an optional hash.
fn opt(h: &Option<String>) -> (r: &str)
    ensures
        r@ == opt_text(opt_view(*h)),
{
    match h {
        Some(s) => s.as_str(),
        None => {
            let dash = "-";
            proof {
                reveal_strlit("-");
            }
            dash
        },
    }
}

/// Fields joined by tabs, built from two to four fields.
fn tabbed_exec(a: &str, b: &str, c: Option<&str>, d: Option<&str>) -> (r: String)
    requires
        d.is_some() ==> c.is_some(),
    ensures
        r@ == tabbed(
            match (c, d) {
                (Some(c), Some(d)) => seq![a@, b@, c@, d@],
                (Some(c), None) => seq![a@, b@, c@],
                _ => seq![a@, b@],
            },
        ),
{
    let mut out = String::from_str(a);
    out.push('\t');
    out.append(b);
    let ghost two = seq![a@, b@];
    assert(two.drop_last() == seq![a@]);
    assert(tabbed(seq![a@]) == a@);
    assert(out@ =~= a@ + seq!['\t'] + b@);
    assert(out@ == tabbed(two));
    match c {
        Some(c) => {
            out.push('\t');
            out.append(c);
            let ghost three = seq![a@, b@, c@];
            assert(three.drop_last() == two);
            assert(out@ =~= tabbed(two) + seq!['\t'] + c@);
            assert(out@ == tabbed(three));
            match d {
                Some(d) => {
                    out.push('\t');
                    out.append(d);
                    let ghost four = seq![a@, b@, c@, d@];
                    assert(four.drop_last() == three);
                    assert(out@ =~= tabbed(three) + seq!['\t'] + d@);
                    assert(out@ == tabbed(four));
                },
                None => {},
            }
        },
        None => {},
    }
    out
}

fn entry_line_exec(tag: &str, e: &FileEntry) -> (r: String)
    ensures
        r@ == entry_line(tag@, e@),
{
    tabbed_exec(tag, e.rel.as_str(), Some(opt(&e.old)), Some(e.new.as_str()))
}

proof fn lemma_join_push(lines: Seq<Seq<char>>, l: Seq<char>)
    ensures
        join_nl(lines.push(l)) == join_nl(lines) + l + seq!['\n'],
{
    assert(lines.push(l).drop_last() == lines);
}

/// The optional hash a field stands for: none for `-`.
fn parse_opt(s: &[char]) -> (r: Option<String>)
    ensures
        opt_view(r) == opt_of_text(s@),
{
    if s.len() == 1 && s[0] == '-' {
        assert(s@ =~= seq!['-']);
        None
    } else {
        Some(string_of(s))
    }
}

/// Whether `rel` lies inside directory `dir`; every path lies inside the
/// root, `""`.
fn rel_under(rel: &str, dir: &str) -> (r: bool)
    ensures
        r == rel_under_spec(rel@, dir@),
{
    let mut prefix = chars_of(dir);
    if prefix.len() == 0 {
        return true;
    }
    prefix.push('/');
    starts_with_chars(&chars_of(rel), &prefix)
}

/// Whether the last unit is a directory that `rel` lies inside.
fn last_dir_takes(units: &Vec<Unit>, rel: &str) -> (r: bool)
    requires
        units.len() > 0,
    ensures
        units@.last()@ is Dir ==> r == rel_under_spec(rel@, unit_rel(units@.last()@)),
{
    match &units[units.len() - 1] {
        Unit::Dir { rel: dir, .. } => rel_under(rel, dir.as_str()),
        _ => false,
    }
}

proof fn lemma_entries_push(files: Seq<FileEntry>, e: FileEntry)
    ensures
        entries_view(files.push(e)) == entries_view(files).push(e@),
{
    assert(entries_view(files.push(e)) =~= entries_view(files).push(e@));
}

proof fn lemma_units_push(units: Seq<Unit>, u: Unit)
    ensures
        units_view(units.push(u)) == units_view(units).push(u@),
{
    assert(units_view(units.push(u)) =~= units_view(units).push(u@));
}

impl Journal {
    /// Reads a journal from its text. `None` when the version line does not
    /// match, a line is malformed, or there is no `hash` line.
    pub fn parse(text: &str) -> (r: Option<Journal>)
        ensures
            match r {
                Some(j) => parse_spec(text@) == Some(j@),
                None => parse_spec(text@) is None,
            },
    {
        proof {
            reveal_strlit("kachina-journal 1");
            reveal_strlit("hash");
            reveal_strlit("archive");
            reveal_strlit("file");
            reveal_strlit("copy");
            reveal_strlit("del");
            reveal_strlit("dir");
            assert("kachina-journal 1"@ =~= version_line());
            assert("hash"@ =~= tag_hash());
            assert("archive"@ =~= tag_archive());
            assert("file"@ =~= tag_file());
            assert("copy"@ =~= tag_copy());
            assert("del"@ =~= tag_del());
            assert("dir"@ =~= tag_dir());
        }
        let cs = chars_of(text);
        let pieces = split_chars(&cs, '\n');
        let ghost pv = split_on(text@, '\n');
        proof {
            crate::text::lemma_split_nonempty(text@, '\n');
        }
        let first = trim_end_ws_exec(&pieces[0]);
        let version = chars_of(JOURNAL_VERSION);
        if !chars_eq(&first, &version) {
            return None;
        }
        let t_hash = chars_of("hash");
        let t_archive = chars_of("archive");
        let t_dir = chars_of("dir");
        let t_file = chars_of("file");
        let t_copy = chars_of("copy");
        let t_del = chars_of("del");
        let mut hash: Option<String> = None;
        let mut archive: Option<String> = None;
        let mut units: Vec<Unit> = Vec::new();
        let mut open = false;
        assert(pv.skip(1).take(0) == Seq::<Seq<char>>::empty());
        assert(units_view(units@) == Seq::<UnitView>::empty());
        let mut i: usize = 1;
        while i < pieces.len()
            invariant
                1 <= i <= pieces.len(),
                pv == split_on(text@, '\n'),
                trim_end_ws(pv[0]) == version_line(),
                pieces@.len() == pv.len(),
                forall|k: int| 0 <= k < pv.len() ==> #[trigger] pieces@[k]@ == pv[k],
                t_hash@ == tag_hash(),
                t_archive@ == tag_archive(),
                t_dir@ == tag_dir(),
                t_file@ == tag_file(),
                t_copy@ == tag_copy(),
                t_del@ == tag_del(),
                run_lines(Some(initial_state()), pv.skip(1).take(i - 1)) == Some(
                    ParseState {
                        hash: opt_view(hash),
                        archive: opt_view(archive),
                        units: units_view(units@),
                        open,
                    },
                ),
                open ==> units@.len() > 0 && units@.last()@ is Dir,
            decreases pieces.len() - i,
        {
            let ghost st = ParseState {
                hash: opt_view(hash),
                archive: opt_view(archive),
                units: units_view(units@),
                open,
            };
            let ghost done = pv.skip(1).take(i - 1);
            assert(pv.skip(1).take(i as int) == done.push(pv[i as int]));
            assert(pv.skip(1).take(i as int).drop_last() == done);
            let ghost raw = pv[i as int];
            let line = trim_end_char_exec(&pieces[i], '\r');
            if line.len() == 0 {
                assert(step(st, raw) == Some(st));
            } else {
                let parts = split_chars(&line, '\t');
                let ghost pp = split_on(line@, '\t');
                if parts.len() == 2 && chars_eq(&parts[0], &t_hash) {
                    hash = Some(string_of(&parts[1]));
                } else if parts.len() == 2 && chars_eq(&parts[0], &t_archive) {
                    archive = Some(string_of(&parts[1]));
                } else if parts.len() == 2 && chars_eq(&parts[0], &t_dir) {
                    let u = Unit::Dir { rel: string_of(&parts[1]), files: Vec::new() };
                    proof {
                        lemma_units_push(units@, u);
                        assert(entries_view(Seq::<FileEntry>::empty()) =~= Seq::<EntryView>::empty());
                    }
                    units.push(u);
                    open = true;
                } else if parts.len() == 4 && chars_eq(&parts[0], &t_file) {
                    let entry = FileEntry {
                        rel: string_of(&parts[1]),
                        old: parse_opt(&parts[2]),
                        new: string_of(&parts[3]),
                    };
                    if open && last_dir_takes(&units, entry.rel.as_str()) {
                        let ghost prev = units@;
                        let last = units.pop();
                        match last {
                            Some(Unit::Dir { rel, files }) => {
                                let ghost old_files = files@;
                                let mut files = files;
                                files.push(entry);
                                let u = Unit::Dir { rel, files };
                                proof {
                                    lemma_entries_push(old_files, entry);
                                    lemma_units_push(units@, u);
                                    assert(prev == units@.push(prev.last()));
                                    lemma_units_push(units@, prev.last());
                                    assert(units_view(units@.push(u)) =~= units_view(prev).update(
                                        prev.len() - 1,
                                        attach(units_view(prev).last(), entry@),
                                    ));
                                }
                                units.push(u);
                            },
                            _ => {
                                assert(false);
                                return None;
                            },
                        }
                    } else {
                        proof {
                            lemma_units_push(units@, Unit::File(entry));
                        }
                        units.push(Unit::File(entry));
                        open = false;
                    }
                } else if parts.len() == 4 && chars_eq(&parts[0], &t_copy) {
                    let entry = FileEntry {
                        rel: string_of(&parts[1]),
                        old: parse_opt(&parts[2]),
                        new: string_of(&parts[3]),
                    };
                    proof {
                        lemma_units_push(units@, Unit::Copy(entry));
                    }
                    units.push(Unit::Copy(entry));
                    open = false;
                } else if parts.len() == 3 && chars_eq(&parts[0], &t_del) {
                    let u = Unit::Del { rel: string_of(&parts[1]), old: parse_opt(&parts[2]) };
                    proof {
                        lemma_units_push(units@, u);
                    }
                    units.push(u);
                    open = false;
                } else {
                    proof {
                        assert(step(st, raw) is None);
                        assert(run_lines(Some(initial_state()), pv.skip(1).take(i as int)) is None);
                        assert(pv.skip(1) == pv.skip(1).take(i as int) + pv.skip(1).skip(i as int));
                        lemma_run_concat(Some(initial_state()), pv.skip(1).take(i as int), pv.skip(1).skip(i as int));
                        lemma_run_failed(pv.skip(1).skip(i as int));
                    }
                    return None;
                }
            }
            i += 1;
        }
        assert(pv.skip(1).take(pieces.len() - 1) == pv.skip(1));
        match hash {
            Some(h) => Some(Journal { hash_algorithm: h, archive, units }),
            None => None,
        }
    }

    /// The journal as text, one line per record.
    pub fn to_text(&self) -> (r: String)
        ensures
            r@ == journal_text(self@),
    {
        let mut out = String::new();
        proof {
            reveal_strlit("kachina-journal 1");
            reveal_strlit("hash");
            reveal_strlit("archive");
            reveal_strlit("file");
            reveal_strlit("copy");
            reveal_strlit("del");
            reveal_strlit("dir");
            assert("kachina-journal 1"@ =~= version_line());
            assert("hash"@ =~= tag_hash());
            assert("archive"@ =~= tag_archive());
            assert("file"@ =~= tag_file());
            assert("copy"@ =~= tag_copy());
            assert("del"@ =~= tag_del());
            assert("dir"@ =~= tag_dir());
        }
        let ghost mut lines: Seq<Seq<char>> = Seq::empty();
        append_line(&mut out, JOURNAL_VERSION);
        proof {
            lemma_join_push(lines, version_line());
            lines = lines.push(version_line());
        }
        let h = tabbed_exec("hash", self.hash_algorithm.as_str(), None, None);
        append_line(&mut out, h.as_str());
        proof {
            lemma_join_push(lines, h@);
            lines = lines.push(h@);
        }
        if let Some(a) = &self.archive {
            let al = tabbed_exec("archive", a.as_str(), None, None);
            append_line(&mut out, al.as_str());
            proof {
                lemma_join_push(lines, al@);
                lines = lines.push(al@);
            }
        }
        let ghost head = lines;
        assert(head + units_lines(units_view(self.units@).take(0)) == head);
        let mut i: usize = 0;
        while i < self.units.len()
            invariant
                i <= self.units.len(),
                lines == head + units_lines(units_view(self.units@).take(i as int)),
                out@ == join_nl(lines),
                "file"@ == tag_file(),
                "copy"@ == tag_copy(),
                "del"@ == tag_del(),
                "dir"@ == tag_dir(),
            decreases self.units.len() - i,
        {
            let ghost before = lines;
            let ghost uv = units_view(self.units@).take(i as int + 1);
            assert(uv.drop_last() == units_view(self.units@).take(i as int));
            assert(uv.last() == self.units@[i as int]@);
            match &self.units[i] {
                Unit::File(f) => {
                    let l = entry_line_exec("file", f);
                    append_line(&mut out, l.as_str());
                    proof {
                        lemma_join_push(lines, l@);
                        lines = lines.push(l@);
                    }
                },
                Unit::Copy(f) => {
                    let l = entry_line_exec("copy", f);
                    append_line(&mut out, l.as_str());
                    proof {
                        lemma_join_push(lines, l@);
                        lines = lines.push(l@);
                    }
                },
                Unit::Del { rel, old } => {
                    let l = tabbed_exec("del", rel.as_str(), Some(opt(old)), None);
                    append_line(&mut out, l.as_str());
                    proof {
                        lemma_join_push(lines, l@);
                        lines = lines.push(l@);
                    }
                },
                Unit::Dir { rel, files } => {
                    let l = tabbed_exec("dir", rel.as_str(), None, None);
                    append_line(&mut out, l.as_str());
                    proof {
                        lemma_join_push(lines, l@);
                        lines = lines.push(l@);
                    }
                    let ghost dir_head = lines;
                    assert(files_lines(entries_view(files@).take(0)) == Seq::<Seq<char>>::empty());
                    let mut k: usize = 0;
                    while k < files.len()
                        invariant
                            k <= files.len(),
                            lines == dir_head + files_lines(entries_view(files@).take(k as int)),
                            out@ == join_nl(lines),
                        decreases files.len() - k,
                    {
                        let fl = entry_line_exec("file", &files[k]);
                        append_line(&mut out, fl.as_str());
                        proof {
                            reveal_strlit("file");
                            assert("file"@ =~= tag_file());
                            lemma_join_push(lines, fl@);
                            let fv = entries_view(files@).take(k as int + 1);
                            assert(fv.drop_last() == entries_view(files@).take(k as int));
                            assert(fv.last() == files@[k as int]@);
                            assert(files_lines(fv) == files_lines(fv.drop_last()).push(
                                entry_line(tag_file(), fv.last()),
                            ));
                            assert(fl@ == entry_line(tag_file(), fv.last()));
                            assert((dir_head + files_lines(fv.drop_last())).push(fl@) =~= dir_head
                                + files_lines(fv));
                            lines = lines.push(fl@);
                        }
                        k += 1;
                    }
                    assert(entries_view(files@).take(files.len() as int) == entries_view(files@));
                },
            }
            assert(lines =~= before + unit_lines(uv.last()));
            assert(units_lines(uv) == units_lines(uv.drop_last()) + unit_lines(uv.last()));
            assert(lines =~= head + units_lines(uv));
            i += 1;
        }
        assert(units_view(self.units@).take(self.units.len() as int) == units_view(self.units@));
        assert(lines =~= journal_lines(self@));
        out
    }
}


/// Without an archive, a journal whose directory unit holds a file that is
/// not installer-generated and whose wanted hash (for its lowercased path)
/// is missing or differs from the file's new hash does not match what is
/// wanted.
pub proof fn lemma_dir_file_unwanted_breaks_match(
    j: JournalView,
    hash_algorithm: Seq<char>,
    wanted: Map<Seq<char>, Seq<char>>,
    deletes: Set<Seq<char>>,
    archive: Option<Seq<char>>,
    self_images: Set<Seq<char>>,
    i: int,
    k: int,
)
    requires
        j.archive is None,
        0 <= i < j.units.len(),
        j.units[i] is Dir,
        0 <= k < j.units[i]->Dir_files.len(),
        !self_images.contains(lowercase(j.units[i]->Dir_files[k].rel)),
        !wanted.contains_key(lowercase(j.units[i]->Dir_files[k].rel))
            || wanted[lowercase(j.units[i]->Dir_files[k].rel)] != j.units[i]->Dir_files[k].new,
    ensures
        !journal_matches_spec(j, hash_algorithm, wanted, deletes, archive, self_images),
{
    let files = j.units[i]->Dir_files;
    assert(!entry_wanted(files[k], wanted, self_images));
    assert(!unit_wanted(j.units[i], wanted, deletes, self_images));
}

} // verus!
