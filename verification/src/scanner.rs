//! The section parsers and the snapshot they assemble: one parser per
//! invocation of the status tool (process/session table, share table,
//! lock table), each tolerant of missing separators and short rows, and
//! a structural merge of the three partial results.

use vstd::prelude::*;
use vstd::string::*;
use crate::text::{
    spec_lines, spec_fields, spec_sep_idx, spec_trim, spec_parse_i32, last_colon_seg, starts_with,
    is_blank, split_lines, split_fields, find_sep_idx, trim, parse_i32, last_colon_segment,
    str_starts_with, line_is_blank,
};
use crate::tally::{
    names_set, names_unique, assoc_map, keys_unique, bump, sat_inc64, insert_name, bump_count,
};
use crate::timeparse::{spec_samba_time, parse_samba_time};

verus! {

/// What the process/session table contributes to a snapshot.
pub struct ProcessSection {
    /// Reported server version, `"unknown"` until discovered.
    pub version: String,
    /// Process ids in table order, duplicates kept.
    pub pids: Vec<i32>,
    /// Connected user names, each held once.
    pub users: Vec<String>,
    /// Occurrences of each protocol version.
    pub protocols: Vec<(String, i64)>,
    /// Occurrences of each encryption method.
    pub encryption: Vec<(String, i64)>,
    /// Occurrences of each signing method.
    pub signing: Vec<(String, i64)>,
}

/// The mathematical content of a [`ProcessSection`].
#[verifier::ext_equal]
pub struct ProcessSectionView {
    pub version: Seq<char>,
    pub pids: Seq<i32>,
    pub users: Set<Seq<char>>,
    pub protocols: Map<Seq<char>, int>,
    pub encryption: Map<Seq<char>, int>,
    pub signing: Map<Seq<char>, int>,
}

impl View for ProcessSection {
    type V = ProcessSectionView;

    open spec fn view(&self) -> ProcessSectionView {
        ProcessSectionView {
            version: self.version@,
            pids: self.pids@,
            users: names_set(self.users@),
            protocols: assoc_map(self.protocols@),
            encryption: assoc_map(self.encryption@),
            signing: assoc_map(self.signing@),
        }
    }
}

impl ProcessSection {
    /// The name lists behind the sets and counts hold no key twice.
    pub open spec fn wf(&self) -> bool {
        names_unique(self.users@) && keys_unique(self.protocols@) && keys_unique(
            self.encryption@) && keys_unique(self.signing@)
    }

    /// The zero-value partial result: nothing contributed yet.
    pub fn empty() -> (r: ProcessSection)
        ensures
            r.wf(),
            r@ == empty_proc_view(),
    {
        let r = ProcessSection {
            version: String::from_str("unknown"),
            pids: Vec::new(),
            users: Vec::new(),
            protocols: Vec::new(),
            encryption: Vec::new(),
            signing: Vec::new(),
        };
        proof {
            assert(r@ =~= empty_proc_view());
        }
        r
    }
}

/// The zero-value process partial: version `"unknown"`, nothing counted.
pub open spec fn empty_proc_view() -> ProcessSectionView {
    ProcessSectionView {
        version: "unknown"@,
        pids: Seq::empty(),
        users: Set::empty(),
        protocols: Map::empty(),
        encryption: Map::empty(),
        signing: Map::empty(),
    }
}

/// The marker two lines above the separator that carries the version.
pub open spec fn version_marker() -> Seq<char> {
    "Samba version"@
}

/// One data row's contribution to the process partial. A row with
/// fewer than seven fields contributes nothing. Otherwise the first
/// field's last colon-delimited segment, when it reads as a decimal
/// process id, is appended; the second field names a user; fields
/// five through seven count protocol, encryption and signing.
pub open spec fn proc_row_step(m: ProcessSectionView, row: Seq<char>) -> ProcessSectionView {
    let fs = spec_fields(row);
    if fs.len() < 7 {
        m
    } else {
        let pids = match spec_parse_i32(last_colon_seg(fs[0])) {
            Some(p) => m.pids.push(p),
            None => m.pids,
        };
        ProcessSectionView {
            version: m.version,
            pids: pids,
            users: m.users.insert(fs[1]),
            protocols: bump(m.protocols, fs[4]),
            encryption: bump(m.encryption, fs[5]),
            signing: bump(m.signing, fs[6]),
        }
    }
}

/// The rows' contributions folded over the partial, top row first.
pub open spec fn proc_fold(m: ProcessSectionView, rows: Seq<Seq<char>>) -> ProcessSectionView
    decreases rows.len(),
{
    if rows.len() == 0 {
        m
    } else {
        proc_fold(proc_row_step(m, rows[0]), rows.skip(1))
    }
}

/// The process partial that a whole invocation's text denotes: without
/// a separator line the zero value; with one, the version read from
/// the marker line two above it when present, then every row below it
/// folded in.
pub open spec fn spec_process_section(t: Seq<char>) -> ProcessSectionView {
    let lines = spec_lines(t);
    match spec_sep_idx(lines) {
        None => empty_proc_view(),
        Some(i) => {
            let base = if i >= 2 && starts_with(lines[i - 2], version_marker()) {
                ProcessSectionView {
                    version: spec_trim(lines[i - 2].skip(version_marker().len() as int)),
                    pids: Seq::empty(),
                    users: Set::empty(),
                    protocols: Map::empty(),
                    encryption: Map::empty(),
                    signing: Map::empty(),
                }
            } else {
                empty_proc_view()
            };
            proc_fold(base, lines.skip(i + 1))
        },
    }
}

/// Folds one row of the process table into the partial result.
fn process_row(sec: &mut ProcessSection, row: &str)
    requires
        old(sec).wf(),
    ensures
        final(sec).wf(),
        final(sec)@ == proc_row_step(old(sec)@, row@),
{
    let fields: Vec<String> = split_fields(row);
    let ghost fs: Seq<Seq<char>> = spec_fields(row@);
    if fields.len() < 7 {
        return ;
    }
    let pid_str: String = last_colon_segment(fields[0].as_str());
    let pid: Option<i32> = parse_i32(pid_str.as_str());
    match pid {
        Some(p) => {
            sec.pids.push(p);
        },
        None => {},
    }
    insert_name(&mut sec.users, fields[1].clone());
    bump_count(&mut sec.protocols, fields[4].clone());
    bump_count(&mut sec.encryption, fields[5].clone());
    bump_count(&mut sec.signing, fields[6].clone());
    proof {
        assert(fields@.map_values(|f: String| f@)[0] == fs[0]);
        assert(fields@.map_values(|f: String| f@)[1] == fs[1]);
        assert(fields@.map_values(|f: String| f@)[4] == fs[4]);
        assert(fields@.map_values(|f: String| f@)[5] == fs[5]);
        assert(fields@.map_values(|f: String| f@)[6] == fs[6]);
        assert(final(sec)@ =~= proc_row_step(old(sec)@, row@));
    }
}

/// Parses the process/session invocation's raw text.
pub fn parse_process_section(text: &str) -> (r: ProcessSection)
    ensures
        r.wf(),
        r@ == spec_process_section(text@),
{
    let lines: Vec<String> = split_lines(text);
    let ghost lv: Seq<Seq<char>> = lines@.map_values(|l: String| l@);
    let mut out: ProcessSection = ProcessSection::empty();
    let sep: Option<usize> = find_sep_idx(&lines);
    match sep {
        None => out,
        Some(idx) => {
            if idx >= 2 && str_starts_with(lines[idx - 2].as_str(), "Samba version") {
                let marker_line: &String = &lines[idx - 2];
                let n: usize = marker_line.as_str().unicode_len();
                proof {
                    reveal_strlit("Samba version");
                    assert(version_marker().len() == 13);
                    assert(marker_line@.len() >= 13);
                }
                let rest: &str = marker_line.as_str().substring_char(13, n);
                out.version = trim(rest);
                proof {
                    assert(rest@ =~= lv[idx - 2].skip(13));
                }
            }
            let ghost base: ProcessSectionView = out@;
            proof {
                assert(spec_process_section(text@) == proc_fold(base, lv.skip(idx + 1)));
            }
            let nlines: usize = lines.len();
            let mut i: usize = idx + 1;
            while i < lines.len()
                invariant
                    idx < i <= lines@.len(),
                    lv == lines@.map_values(|l: String| l@),
                    out.wf(),
                    spec_process_section(text@) == proc_fold(out@, lv.skip(i as int)),
                decreases lines@.len() - i,
            {
                let ghost rows: Seq<Seq<char>> = lv.skip(i as int);
                process_row(&mut out, lines[i].as_str());
                proof {
                    assert(rows[0] == lv[i as int]);
                    assert(rows.skip(1) =~= lv.skip(i + 1));
                }
                i = i + 1;
            }
            proof {
                assert(lv.skip(lines@.len() as int) =~= Seq::<Seq<char>>::empty());
            }
            out
        },
    }
}

/// What the share table contributes to a snapshot.
pub struct ShareSection {
    /// Share names seen, each held once.
    pub shares: Vec<String>,
    /// Earliest connection time found, as a Unix timestamp.
    pub oldest_connection_unix: Option<i64>,
}

/// The mathematical content of a [`ShareSection`].
#[verifier::ext_equal]
pub struct ShareSectionView {
    pub shares: Set<Seq<char>>,
    pub oldest: Option<i64>,
}

impl View for ShareSection {
    type V = ShareSectionView;

    open spec fn view(&self) -> ShareSectionView {
        ShareSectionView { shares: names_set(self.shares@), oldest: self.oldest_connection_unix }
    }
}

impl ShareSection {
    /// The share-name list holds no name twice.
    pub open spec fn wf(&self) -> bool {
        names_unique(self.shares@)
    }

    /// The zero-value partial result.
    pub fn empty() -> (r: ShareSection)
        ensures
            r.wf(),
            r@ == empty_share_view(),
    {
        let r = ShareSection { shares: Vec::new(), oldest_connection_unix: None };
        proof {
            assert(r@ =~= empty_share_view());
        }
        r
    }
}

/// The zero-value share partial: no shares, no timestamp.
pub open spec fn empty_share_view() -> ShareSectionView {
    ShareSectionView { shares: Set::empty(), oldest: None }
}

/// The earlier of the running earliest time and a row's time, either
/// of which may be missing.
pub open spec fn merge_min(cur: Option<i64>, new: Option<i64>) -> Option<i64> {
    match new {
        None => cur,
        Some(t) => match cur {
            None => Some(t),
            Some(o) => if t < o {
                Some(t)
            } else {
                Some(o)
            },
        },
    }
}

/// The connection time one share row reports: fields four through
/// eight read as a date, present only on rows of at least eight fields.
pub open spec fn row_conn_time(row: Seq<char>) -> Option<i64> {
    let fs = spec_fields(row);
    if fs.len() >= 8 {
        spec_samba_time(fs.subrange(3, 8))
    } else {
        None
    }
}

/// One data row's contribution to the share partial: a blank row adds
/// nothing; otherwise the first field names a share, and the row's
/// connection time, when readable, lowers the earliest time seen.
pub open spec fn share_row_step(m: ShareSectionView, row: Seq<char>) -> ShareSectionView {
    let fs = spec_fields(row);
    if fs.len() == 0 {
        m
    } else {
        ShareSectionView {
            shares: m.shares.insert(fs[0]),
            oldest: merge_min(m.oldest, row_conn_time(row)),
        }
    }
}

/// The rows' contributions folded over the partial, top row first.
pub open spec fn share_fold(m: ShareSectionView, rows: Seq<Seq<char>>) -> ShareSectionView
    decreases rows.len(),
{
    if rows.len() == 0 {
        m
    } else {
        share_fold(share_row_step(m, rows[0]), rows.skip(1))
    }
}

/// The share partial that a whole invocation's text denotes.
pub open spec fn spec_share_section(t: Seq<char>) -> ShareSectionView {
    let lines = spec_lines(t);
    match spec_sep_idx(lines) {
        None => empty_share_view(),
        Some(i) => share_fold(empty_share_view(), lines.skip(i + 1)),
    }
}

/// Clones the fields from `a` up to `b` into a list of their own.
fn clone_range(v: &Vec<String>, a: usize, b: usize) -> (r: Vec<String>)
    requires
        a <= b <= v@.len(),
    ensures
        r@.map_values(|p: String| p@) == v@.map_values(|p: String| p@).subrange(
            a as int,
            b as int,
        ),
{
    let mut r: Vec<String> = Vec::new();
    let mut i: usize = a;
    while i < b
        invariant
            a <= i <= b <= v@.len(),
            r@.len() == i - a,
            forall|k: int| 0 <= k < r@.len() ==> r@[k]@ == v@[a + k]@,
        decreases b - i,
    {
        r.push(v[i].clone());
        i = i + 1;
    }
    proof {
        assert(r@.map_values(|p: String| p@) =~= v@.map_values(|p: String| p@).subrange(
            a as int,
            b as int,
        ));
    }
    r
}

/// Folds one row of the share table into the partial result.
fn share_row(sec: &mut ShareSection, row: &str)
    requires
        old(sec).wf(),
    ensures
        final(sec).wf(),
        final(sec)@ == share_row_step(old(sec)@, row@),
{
    let fields: Vec<String> = split_fields(row);
    let ghost fs: Seq<Seq<char>> = spec_fields(row@);
    if fields.len() == 0 {
        return ;
    }
    insert_name(&mut sec.shares, fields[0].clone());
    proof {
        assert(fields@.map_values(|f: String| f@)[0] == fs[0]);
    }
    if fields.len() >= 8 {
        let stamp_fields: Vec<String> = clone_range(&fields, 3, 8);
        let ts: Option<i64> = parse_samba_time(&stamp_fields);
        proof {
            assert(stamp_fields@.map_values(|p: String| p@) == fs.subrange(3, 8));
        }
        match ts {
            Some(t) => {
                let cur: Option<i64> = sec.oldest_connection_unix;
                match cur {
                    None => {
                        sec.oldest_connection_unix = Some(t);
                    },
                    Some(o) => {
                        if t < o {
                            sec.oldest_connection_unix = Some(t);
                        }
                    },
                }
            },
            None => {},
        }
    }
    proof {
        assert(final(sec)@ =~= share_row_step(old(sec)@, row@));
    }
}

/// Parses the share invocation's raw text.
pub fn parse_share_section(text: &str) -> (r: ShareSection)
    ensures
        r.wf(),
        r@ == spec_share_section(text@),
{
    let lines: Vec<String> = split_lines(text);
    let ghost lv: Seq<Seq<char>> = lines@.map_values(|l: String| l@);
    let mut out: ShareSection = ShareSection::empty();
    let sep: Option<usize> = find_sep_idx(&lines);
    match sep {
        None => out,
        Some(idx) => {
            let nlines: usize = lines.len();
            let mut i: usize = idx + 1;
            while i < nlines
                invariant
                    idx < i <= nlines,
                    nlines == lines@.len(),
                    lv == lines@.map_values(|l: String| l@),
                    out.wf(),
                    spec_share_section(text@) == share_fold(out@, lv.skip(i as int)),
                decreases nlines - i,
            {
                let ghost rows: Seq<Seq<char>> = lv.skip(i as int);
                share_row(&mut out, lines[i].as_str());
                proof {
                    assert(rows[0] == lv[i as int]);
                    assert(rows.skip(1) =~= lv.skip(i + 1));
                }
                i = i + 1;
            }
            proof {
                assert(lv.skip(nlines as int) =~= Seq::<Seq<char>>::empty());
            }
            out
        },
    }
}

/// Non-blank rows counted with a saturating step, top row first.
pub open spec fn lock_fold(c: int, rows: Seq<Seq<char>>) -> int
    decreases rows.len(),
{
    if rows.len() == 0 {
        c
    } else {
        lock_fold(
            if is_blank(rows[0]) {
                c
            } else {
                sat_inc64(c)
            },
            rows.skip(1),
        )
    }
}

/// The lock count a whole invocation's text denotes: the number of
/// non-blank lines below the separator, zero without a separator.
pub open spec fn spec_lock_count(t: Seq<char>) -> int {
    let lines = spec_lines(t);
    match spec_sep_idx(lines) {
        None => 0,
        Some(i) => lock_fold(0, lines.skip(i + 1)),
    }
}

/// Parses the lock invocation's raw text into a lock count.
pub fn parse_lock_section(text: &str) -> (r: i64)
    ensures
        r as int == spec_lock_count(text@),
{
    let lines: Vec<String> = split_lines(text);
    let ghost lv: Seq<Seq<char>> = lines@.map_values(|l: String| l@);
    let sep: Option<usize> = find_sep_idx(&lines);
    match sep {
        None => 0,
        Some(idx) => {
            let nlines: usize = lines.len();
            let mut count: i64 = 0;
            let mut i: usize = idx + 1;
            while i < nlines
                invariant
                    idx < i <= nlines,
                    nlines == lines@.len(),
                    lv == lines@.map_values(|l: String| l@),
                    count >= 0,
                    spec_lock_count(text@) == lock_fold(count as int, lv.skip(i as int)),
                decreases nlines - i,
            {
                let ghost rows: Seq<Seq<char>> = lv.skip(i as int);
                if !line_is_blank(lines[i].as_str()) {
                    if count < i64::MAX {
                        count = count + 1;
                    }
                }
                proof {
                    assert(rows[0] == lv[i as int]);
                    assert(rows.skip(1) =~= lv.skip(i + 1));
                }
                i = i + 1;
            }
            proof {
                assert(lv.skip(nlines as int) =~= Seq::<Seq<char>>::empty());
            }
            count
        },
    }
}

/// One scrape's assembled snapshot: everything the three tables told us.
pub struct ParsedSamba {
    /// Reported server version, `"unknown"` if undiscoverable.
    pub version: String,
    /// Process ids in table order, duplicates kept.
    pub pids: Vec<i32>,
    /// Connected user names, each held once.
    pub users: Vec<String>,
    /// Occurrences of each protocol version.
    pub protocols: Vec<(String, i64)>,
    /// Occurrences of each encryption method.
    pub encryption: Vec<(String, i64)>,
    /// Occurrences of each signing method.
    pub signing: Vec<(String, i64)>,
    /// Share names, each held once.
    pub shares: Vec<String>,
    /// Non-blank rows of the lock table.
    pub lock_count: i64,
    /// Earliest connection time, absent when no row's date was readable.
    pub oldest_connection_unix: Option<i64>,
}

/// The mathematical content of a [`ParsedSamba`].
#[verifier::ext_equal]
pub struct ParsedSambaView {
    pub version: Seq<char>,
    pub pids: Seq<i32>,
    pub users: Set<Seq<char>>,
    pub protocols: Map<Seq<char>, int>,
    pub encryption: Map<Seq<char>, int>,
    pub signing: Map<Seq<char>, int>,
    pub shares: Set<Seq<char>>,
    pub lock_count: int,
    pub oldest: Option<i64>,
}

impl View for ParsedSamba {
    type V = ParsedSambaView;

    open spec fn view(&self) -> ParsedSambaView {
        ParsedSambaView {
            version: self.version@,
            pids: self.pids@,
            users: names_set(self.users@),
            protocols: assoc_map(self.protocols@),
            encryption: assoc_map(self.encryption@),
            signing: assoc_map(self.signing@),
            shares: names_set(self.shares@),
            lock_count: self.lock_count as int,
            oldest: self.oldest_connection_unix,
        }
    }
}

impl ParsedSamba {
    /// The name lists behind the sets and counts hold no key twice.
    pub open spec fn wf(&self) -> bool {
        names_unique(self.users@) && keys_unique(self.protocols@) && keys_unique(
            self.encryption@) && keys_unique(self.signing@) && names_unique(self.shares@)
    }
}

/// The snapshot the three partial results merge into: a structural
/// merge, each partial writing its own fields, so the same three
/// inputs always yield the same snapshot.
pub open spec fn spec_assemble(
    p: ProcessSectionView,
    s: ShareSectionView,
    locks: int,
) -> ParsedSambaView {
    ParsedSambaView {
        version: p.version,
        pids: p.pids,
        users: p.users,
        protocols: p.protocols,
        encryption: p.encryption,
        signing: p.signing,
        shares: s.shares,
        lock_count: locks,
        oldest: s.oldest,
    }
}

/// Merges the three partial results into one snapshot.
pub fn assemble_snapshot(proc_part: ProcessSection, share_part: ShareSection, lock_count: i64) -> (
    r: ParsedSamba)
    requires
        proc_part.wf(),
        share_part.wf(),
    ensures
        r.wf(),
        r@ == spec_assemble(proc_part@, share_part@, lock_count as int),
{
    let r = ParsedSamba {
        version: proc_part.version,
        pids: proc_part.pids,
        users: proc_part.users,
        protocols: proc_part.protocols,
        encryption: proc_part.encryption,
        signing: proc_part.signing,
        shares: share_part.shares,
        lock_count: lock_count,
        oldest_connection_unix: share_part.oldest_connection_unix,
    };
    proof {
        assert(r@ =~= spec_assemble(proc_part@, share_part@, lock_count as int));
    }
    r
}

/// The process partial for one invocation's outcome: a failed
/// invocation (no captured output) contributes the zero value.
pub open spec fn spec_proc_outcome(o: Option<&str>) -> ProcessSectionView {
    match o {
        Some(t) => spec_process_section(t@),
        None => empty_proc_view(),
    }
}

/// The share partial for one invocation's outcome.
pub open spec fn spec_share_outcome(o: Option<&str>) -> ShareSectionView {
    match o {
        Some(t) => spec_share_section(t@),
        None => empty_share_view(),
    }
}

/// The lock count for one invocation's outcome.
pub open spec fn spec_lock_outcome(o: Option<&str>) -> int {
    match o {
        Some(t) => spec_lock_count(t@),
        None => 0,
    }
}

/// Builds the snapshot for one scrape from the three invocations'
/// captured outputs; an invocation that failed passes `None` and
/// contributes only its zero-value partial, so a scrape never fails
/// as a whole.
pub fn get_metrics(process_out: Option<&str>, share_out: Option<&str>, lock_out: Option<&str>) -> (
    r: ParsedSamba)
    ensures
        r.wf(),
        r@ == spec_assemble(
            spec_proc_outcome(process_out),
            spec_share_outcome(share_out),
            spec_lock_outcome(lock_out),
        ),
{
    let proc_part: ProcessSection = match process_out {
        Some(t) => parse_process_section(t),
        None => ProcessSection::empty(),
    };
    let share_part: ShareSection = match share_out {
        Some(t) => parse_share_section(t),
        None => ShareSection::empty(),
    };
    let locks: i64 = match lock_out {
        Some(t) => parse_lock_section(t),
        None => 0,
    };
    assemble_snapshot(proc_part, share_part, locks)
}

/// Without a separator line the process table contributes its zero
/// value: empty sequences, sets and counts, version `"unknown"`.
pub proof fn lemma_no_separator_process(t: Seq<char>)
    requires
        spec_sep_idx(spec_lines(t)) is None,
    ensures
        spec_process_section(t) == empty_proc_view(),
{
}

/// Without a separator line the share table contributes its zero
/// value: no shares, no connection time.
pub proof fn lemma_no_separator_share(t: Seq<char>)
    requires
        spec_sep_idx(spec_lines(t)) is None,
    ensures
        spec_share_section(t) == empty_share_view(),
{
}

/// Without a separator line the lock table contributes a zero count.
pub proof fn lemma_no_separator_lock(t: Seq<char>)
    requires
        spec_sep_idx(spec_lines(t)) is None,
    ensures
        spec_lock_count(t) == 0,
{
}

/// A process-table row with fewer than seven fields contributes
/// nothing at all: no id, user, protocol, encryption or signing.
pub proof fn lemma_short_row_contributes_nothing(m: ProcessSectionView, row: Seq<char>)
    requires
        spec_fields(row).len() < 7,
    ensures
        proc_row_step(m, row) == m,
{
}

/// Two share rows reporting connection times fold to the smaller time
/// whichever row comes first: the earliest-connection result does not
/// depend on row order.
pub proof fn lemma_earliest_order_independent(
    m: ShareSectionView,
    r1: Seq<char>,
    r2: Seq<char>,
    t1: i64,
    t2: i64,
)
    requires
        row_conn_time(r1) == Some(t1),
        row_conn_time(r2) == Some(t2),
        t1 < t2,
        m.oldest is None,
    ensures
        share_fold(m, seq![r1, r2]).oldest == Some(t1),
        share_fold(m, seq![r2, r1]).oldest == Some(t1),
{
    let s12 = seq![r1, r2];
    let s21 = seq![r2, r1];
    assert(s12[0] == r1 && s21[0] == r2);
    assert(s12.skip(1) =~= seq![r2]);
    assert(s21.skip(1) =~= seq![r1]);
    assert(seq![r2][0] == r2 && seq![r1][0] == r1);
    assert(seq![r2].skip(1) =~= Seq::<Seq<char>>::empty());
    assert(seq![r1].skip(1) =~= Seq::<Seq<char>>::empty());
    assert(spec_fields(r1).len() >= 8);
    assert(spec_fields(r2).len() >= 8);
    let a1 = share_row_step(m, r1);
    let a2 = share_row_step(m, r2);
    let b12 = share_row_step(a1, r2);
    let b21 = share_row_step(a2, r1);
    assert(share_fold(m, s12) == share_fold(a1, s12.skip(1)));
    assert(share_fold(a1, seq![r2]) == share_fold(b12, seq![r2].skip(1)));
    assert(share_fold(b12, Seq::<Seq<char>>::empty()) == b12);
    assert(share_fold(m, s21) == share_fold(a2, s21.skip(1)));
    assert(share_fold(a2, seq![r1]) == share_fold(b21, seq![r1].skip(1)));
    assert(share_fold(b21, Seq::<Seq<char>>::empty()) == b21);
    assert(a1.oldest == Some(t1));
    assert(a2.oldest == Some(t2));
    assert(b12.oldest == Some(t1));
    assert(b21.oldest == Some(t1));
}

} // verus!
