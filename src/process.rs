//! Process listing and per-process detail.
//!
//! The operating system is read elsewhere; this module takes what was read
//! as plain values and applies the rules: the per-process memory fallback,
//! the ranking by resident footprint, the working directories reported by
//! the descriptor lister, and the assembly of one process's detail record.
use vstd::prelude::*;
use vstd::string::{StrSliceExecFns, StringExecFns};
use crate::text::{
    chars_of, copy_span, decimal_ok, decimal_value, line_spans, lines_of, parse_decimal, spans_eq, spans_within,
    trim_of, trim_span,
};

verus! {

/// One entry of the process listing.
pub struct ProcessSummary {
    pub pid: u32,
    pub name: String,
    /// Last segment of the working directory, when known.
    pub cwd: Option<String>,
    /// Resident footprint.
    pub memory_bytes: u64,
    pub virtual_bytes: u64,
}

/// The mathematical value of a [`ProcessSummary`].
pub ghost struct SummaryView {
    pub pid: u32,
    pub name: Seq<char>,
    pub cwd: Option<Seq<char>>,
    pub memory_bytes: u64,
    pub virtual_bytes: u64,
}

pub open spec fn text_opt(o: Option<String>) -> Option<Seq<char>> {
    match o {
        Some(s) => Some(s@),
        None => None,
    }
}

impl View for ProcessSummary {
    type V = SummaryView;

    open spec fn view(&self) -> SummaryView {
        SummaryView {
            pid: self.pid,
            name: self.name@,
            cwd: text_opt(self.cwd),
            memory_bytes: self.memory_bytes,
            virtual_bytes: self.virtual_bytes,
        }
    }
}

pub open spec fn views(v: Seq<ProcessSummary>) -> Seq<SummaryView> {
    v.map_values(|p: ProcessSummary| p@)
}

/// What was read of one process for the listing.
pub struct ProcessSample {
    pub pid: u32,
    pub name: String,
    /// Last segment of the working directory, when the generic library
    /// reported one.
    pub cwd: Option<String>,
    /// Resident set size as the generic library reports it.
    pub resident_bytes: u64,
    pub virtual_bytes: u64,
    /// Physical footprint from the kernel's per-process usage query, when
    /// that query succeeded.
    pub footprint_bytes: Option<u64>,
}

/// The footprint of a sampled process: the kernel figure where there is one,
/// else the library's resident size.
pub open spec fn footprint_of(s: ProcessSample) -> u64 {
    match s.footprint_bytes {
        Some(f) => f,
        None => s.resident_bytes,
    }
}

pub open spec fn summary_of(s: ProcessSample) -> SummaryView {
    SummaryView {
        pid: s.pid,
        name: s.name@,
        cwd: text_opt(s.cwd),
        memory_bytes: footprint_of(s),
        virtual_bytes: s.virtual_bytes,
    }
}

/// `x` placed into `s` before the first entry whose footprint is not larger:
/// after every larger one, before every equal one.
pub open spec fn insert_ranked(x: SummaryView, s: Seq<SummaryView>) -> Seq<SummaryView>
    decreases s.len(),
{
    if s.len() == 0 {
        seq![x]
    } else if s[0].memory_bytes <= x.memory_bytes {
        seq![x] + s
    } else {
        seq![s[0]] + insert_ranked(x, s.drop_first())
    }
}

/// `s` ordered by footprint, largest first; entries of equal footprint keep
/// their order in `s`.
pub open spec fn ranked(s: Seq<SummaryView>) -> Seq<SummaryView>
    decreases s.len(),
{
    if s.len() == 0 {
        seq![]
    } else {
        insert_ranked(s[0], ranked(s.drop_first()))
    }
}

pub open spec fn sorted_by_memory(s: Seq<SummaryView>) -> bool {
    forall|i: int, j: int|
        0 <= i < j < s.len() ==> (#[trigger] s[i]).memory_bytes >= (#[trigger] s[j]).memory_bytes
}

pub open spec fn min_len(a: int, b: int) -> int {
    if a < b {
        a
    } else {
        b
    }
}

proof fn lemma_insert_at(x: SummaryView, s: Seq<SummaryView>, p: int)
    requires
        0 <= p <= s.len(),
        forall|k: int| 0 <= k < p ==> (#[trigger] s[k]).memory_bytes > x.memory_bytes,
        p < s.len() ==> s[p].memory_bytes <= x.memory_bytes,
    ensures
        insert_ranked(x, s) == s.take(p).push(x) + s.skip(p),
    decreases s.len(),
{
    if s.len() == 0 {
        assert(s.take(p).push(x) + s.skip(p) =~= seq![x]);
    } else if p == 0 {
        assert(s.take(p).push(x) + s.skip(p) =~= seq![x] + s);
    } else {
        let t = s.drop_first();
        assert forall|k: int| 0 <= k < p - 1 implies (#[trigger] t[k]).memory_bytes
            > x.memory_bytes by {
            assert(t[k] == s[k + 1]);
        }
        lemma_insert_at(x, t, p - 1);
        assert(seq![s[0]] + (t.take(p - 1).push(x) + t.skip(p - 1)) =~= s.take(p).push(x)
            + s.skip(p));
    }
}

proof fn lemma_insert_bounded(x: SummaryView, s: Seq<SummaryView>, b: u64)
    requires
        x.memory_bytes <= b,
        forall|k: int| 0 <= k < s.len() ==> (#[trigger] s[k]).memory_bytes <= b,
    ensures
        insert_ranked(x, s).len() == s.len() + 1,
        forall|k: int|
            0 <= k < insert_ranked(x, s).len() ==> (#[trigger] insert_ranked(x, s)[k]).memory_bytes
                <= b,
    decreases s.len(),
{
    if s.len() > 0 && s[0].memory_bytes > x.memory_bytes {
        let t = s.drop_first();
        lemma_insert_bounded(x, t, b);
        let r = insert_ranked(x, s);
        assert forall|k: int| 0 <= k < r.len() implies (#[trigger] r[k]).memory_bytes <= b by {
            if k > 0 {
                assert(r[k] == insert_ranked(x, t)[k - 1]);
            }
        }
    }
}

proof fn lemma_insert_sorted(x: SummaryView, s: Seq<SummaryView>)
    requires
        sorted_by_memory(s),
    ensures
        sorted_by_memory(insert_ranked(x, s)),
        insert_ranked(x, s).len() == s.len() + 1,
    decreases s.len(),
{
    if s.len() == 0 {
    } else if s[0].memory_bytes <= x.memory_bytes {
        let r = insert_ranked(x, s);
        assert forall|i: int, j: int| 0 <= i < j < r.len() implies (#[trigger] r[i]).memory_bytes
            >= (#[trigger] r[j]).memory_bytes by {
            if i > 0 {
                assert(r[i] == s[i - 1]);
            }
            assert(r[j] == s[j - 1]);
        }
    } else {
        let t = s.drop_first();
        lemma_insert_sorted(x, t);
        lemma_insert_bounded(x, t, s[0].memory_bytes);
        let r = insert_ranked(x, s);
        let rt = insert_ranked(x, t);
        assert forall|i: int, j: int| 0 <= i < j < r.len() implies (#[trigger] r[i]).memory_bytes
            >= (#[trigger] r[j]).memory_bytes by {
            assert(r[j] == rt[j - 1]);
            if i > 0 {
                assert(r[i] == rt[i - 1]);
            }
        }
    }
}

/// The ranking keeps every entry and orders them by footprint.
pub proof fn lemma_ranked_sorted(s: Seq<SummaryView>)
    ensures
        sorted_by_memory(ranked(s)),
        ranked(s).len() == s.len(),
    decreases s.len(),
{
    if s.len() > 0 {
        lemma_ranked_sorted(s.drop_first());
        lemma_insert_sorted(s[0], ranked(s.drop_first()));
    }
}

proof fn lemma_insert_multiset(x: SummaryView, s: Seq<SummaryView>)
    ensures
        insert_ranked(x, s).to_multiset() =~= s.to_multiset().insert(x),
    decreases s.len(),
{
    broadcast use vstd::seq_lib::to_multiset_insert;

    if s.len() == 0 {
        assert(seq![x] =~= s.insert(0, x));
    } else if s[0].memory_bytes <= x.memory_bytes {
        assert(seq![x] + s =~= s.insert(0, x));
    } else {
        let t = s.drop_first();
        lemma_insert_multiset(x, t);
        let r = insert_ranked(x, t);
        assert(seq![s[0]] + r =~= r.insert(0, s[0]));
        assert(s =~= t.insert(0, s[0]));
    }
}

/// The ranking holds exactly the entries it was given.
pub proof fn lemma_ranked_permutation(s: Seq<SummaryView>)
    ensures
        ranked(s).to_multiset() =~= s.to_multiset(),
    decreases s.len(),
{
    broadcast use vstd::seq_lib::to_multiset_insert;

    if s.len() > 0 {
        let t = s.drop_first();
        lemma_ranked_permutation(t);
        lemma_insert_multiset(s[0], ranked(t));
        assert(s =~= t.insert(0, s[0]));
        assert(t.insert(0, s[0]).to_multiset() == t.to_multiset().insert(s[0]));
    } else {
        assert(s =~= Seq::<SummaryView>::empty());
        assert(ranked(s) =~= Seq::<SummaryView>::empty());
    }
}

/// The entries of `summaries` ordered by footprint, largest first, ties in
/// their given order, cut to the first `limit`.
pub fn rank_processes(summaries: Vec<ProcessSummary>, limit: usize) -> (r: Vec<ProcessSummary>)
    ensures
        views(r@) == ranked(views(summaries@)).take(min_len(limit as int, summaries@.len() as int)),
        r@.len() == min_len(limit as int, summaries@.len() as int),
        sorted_by_memory(views(r@)),
        limit >= summaries@.len() ==> views(r@).to_multiset() =~= views(summaries@).to_multiset(),
{
    let ghost orig = views(summaries@);
    let ghost n = summaries@.len() as int;
    let mut rest = summaries;
    let mut out: Vec<ProcessSummary> = Vec::new();
    while rest.len() > 0
        invariant
            views(rest@) == orig.take(rest@.len() as int),
            rest@.len() <= n == orig.len(),
            views(out@) == ranked(orig.subrange(rest@.len() as int, n)),
        decreases rest@.len(),
    {
        let ghost k = rest@.len() as int;
        let ghost prev = rest@;
        let x = rest.pop().unwrap();
        proof {
            assert(views(rest@) =~= orig.take(k - 1));
            assert(views(prev)[k - 1] == x@);
        }
        let mut p: usize = 0;
        while p < out.len() && out[p].memory_bytes > x.memory_bytes
            invariant
                p <= out@.len(),
                forall|j: int| 0 <= j < p ==> (#[trigger] out@[j]).memory_bytes > x.memory_bytes,
            decreases out@.len() - p,
        {
            p = p + 1;
        }
        let ghost before = views(out@);
        proof {
            lemma_insert_at(x@, before, p as int);
            let sub = orig.subrange(k - 1, n);
            assert(sub.drop_first() =~= orig.subrange(k, n));
            assert(sub[0] == orig[k - 1]);
        }
        out.insert(p, x);
        proof {
            assert(views(out@) =~= before.take(p as int).push(x@) + before.skip(p as int));
        }
    }
    proof {
        assert(orig.subrange(0, n) =~= orig);
        lemma_ranked_sorted(orig);
        lemma_ranked_permutation(orig);
    }
    out.truncate(limit);
    proof {
        let m = min_len(limit as int, n);
        assert(views(out@) =~= ranked(orig).take(m));
        if limit >= n {
            assert(ranked(orig).take(m) =~= ranked(orig));
        }
        assert forall|i: int, j: int| 0 <= i < j < views(out@).len() implies (#[trigger] views(
            out@,
        )[i]).memory_bytes >= (#[trigger] views(out@)[j]).memory_bytes by {
            assert(views(out@)[i] == ranked(orig)[i]);
            assert(views(out@)[j] == ranked(orig)[j]);
        }
    }
    out
}

pub open spec fn summaries_of(samples: Seq<ProcessSample>) -> Seq<SummaryView> {
    samples.map_values(|s: ProcessSample| summary_of(s))
}

/// The listing entry of one sampled process.
pub fn summarize(sample: ProcessSample) -> (r: ProcessSummary)
    ensures
        r@ == summary_of(sample),
{
    let memory_bytes = match sample.footprint_bytes {
        Some(f) => f,
        None => sample.resident_bytes,
    };
    ProcessSummary {
        pid: sample.pid,
        name: sample.name,
        cwd: sample.cwd,
        memory_bytes,
        virtual_bytes: sample.virtual_bytes,
    }
}

/// The `limit` processes with the largest footprint, largest first; a
/// process whose kernel footprint is missing counts with its resident size.
pub fn top_processes(samples: Vec<ProcessSample>, limit: usize) -> (r: Vec<ProcessSummary>)
    ensures
        views(r@) == ranked(summaries_of(samples@)).take(
            min_len(limit as int, samples@.len() as int),
        ),
        r@.len() == min_len(limit as int, samples@.len() as int),
        sorted_by_memory(views(r@)),
        limit >= samples@.len() ==> views(r@).to_multiset() =~= summaries_of(
            samples@,
        ).to_multiset(),
        limit == 0 ==> r@.len() == 0,
{
    let ghost orig = samples@;
    let mut rest = samples;
    let mut rev: Vec<ProcessSummary> = Vec::new();
    while rest.len() > 0
        invariant
            rest@ == orig.take(rest@.len() as int),
            rest@.len() + rev@.len() == orig.len(),
            forall|j: int|
                0 <= j < rev@.len() ==> (#[trigger] rev@[j])@ == summary_of(
                    orig[orig.len() - 1 - j],
                ),
        decreases rest@.len(),
    {
        let x = rest.pop().unwrap();
        proof {
            assert(rest@ =~= orig.take(rest@.len() as int));
        }
        rev.push(summarize(x));
    }
    let mut out: Vec<ProcessSummary> = Vec::new();
    while rev.len() > 0
        invariant
            rev@.len() + out@.len() == orig.len(),
            forall|j: int|
                0 <= j < rev@.len() ==> (#[trigger] rev@[j])@ == summary_of(
                    orig[orig.len() - 1 - j],
                ),
            views(out@) == summaries_of(orig).take(out@.len() as int),
        decreases rev@.len(),
    {
        let ghost m = out@.len() as int;
        let x = rev.pop().unwrap();
        proof {
            assert(x@ == summary_of(orig[m]));
        }
        out.push(x);
        proof {
            assert(views(out@) =~= summaries_of(orig).take(out@.len() as int));
        }
    }
    proof {
        assert(views(out@) =~= summaries_of(orig));
    }
    rank_processes(out, limit)
}

/// Scans a path backwards: the component being read is `t[i..end]`.  The
/// last component that is neither empty nor `.` is the leaf, unless it is
/// `..`.
pub open spec fn leaf_scan(t: Seq<char>, end: int, i: int) -> Option<(int, int)>
    decreases i,
{
    if i > 0 && t[i - 1] != '/' {
        leaf_scan(t, end, i - 1)
    } else {
        let comp = t.subrange(i, end);
        if comp.len() == 0 || comp == seq!['.'] {
            if i <= 0 {
                None
            } else {
                leaf_scan(t, i - 1, i - 1)
            }
        } else if comp == seq!['.', '.'] {
            None
        } else {
            Some((i, end))
        }
    }
}

/// The final segment of a `/`-separated path, as `Path::file_name` gives it:
/// empty and `.` segments do not count, and a path that ends in `..` has
/// none.
pub open spec fn path_leaf(t: Seq<char>) -> Option<Seq<char>> {
    match leaf_scan(t, t.len() as int, t.len() as int) {
        Some(span) => Some(t.subrange(span.0, span.1)),
        None => None,
    }
}

/// Where the final segment of the path `t` stands in it.
pub fn leaf_span(t: &Vec<char>) -> (r: Option<(usize, usize)>)
    ensures
        match leaf_scan(t@, t@.len() as int, t@.len() as int) {
            Some(span) => r matches Some(q) && q.0 == span.0 && q.1 == span.1 && q.0 <= q.1 <= t@.len(),
            None => r is None,
        },
{
    let n = t.len();
    let mut end: usize = n;
    let mut i: usize = n;
    loop
        invariant
            i <= end <= n == t@.len(),
            leaf_scan(t@, end as int, i as int) == leaf_scan(t@, n as int, n as int),
        decreases i,
    {
        if i > 0 && t[i - 1] != '/' {
            i = i - 1;
        } else {
            let ghost comp = t@.subrange(i as int, end as int);
            let len = end - i;
            let is_dot = len == 1 && t[i] == '.';
            let is_dots = len == 2 && t[i] == '.' && t[i + 1] == '.';
            proof {
                if is_dot {
                    assert(comp =~= seq!['.']);
                }
                if comp == seq!['.'] {
                    assert(comp[0] == '.');
                }
                if is_dots {
                    assert(comp =~= seq!['.', '.']);
                }
                if comp == seq!['.', '.'] {
                    assert(comp[0] == '.' && comp[1] == '.');
                }
            }
            if len == 0 || is_dot {
                if i == 0 {
                    return None;
                }
                end = i - 1;
                i = i - 1;
            } else if is_dots {
                return None;
            } else {
                assert(comp.len() == len);
                assert(leaf_scan(t@, end as int, i as int) == Some((i as int, end as int)));
                return Some((i, end));
            }
        }
    }
}

/// The final segment of `path`, if it has one.
pub fn path_file_name(path: &str) -> (r: Option<String>)
    ensures
        text_opt(r) == path_leaf(path@),
{
    let cs = chars_of(path);
    match leaf_span(&cs) {
        Some((a, b)) => Some(String::from_str(path.substring_char(a, b))),
        None => None,
    }
}

/// The process id written in `s[lo..hi]`, if it is a decimal that fits.
pub open spec fn pid_in(s: Seq<char>, lo: int, hi: int) -> Option<u32> {
    if decimal_ok(s, lo, hi, u32::MAX as int) {
        Some(decimal_value(s, lo, hi) as u32)
    } else {
        None
    }
}

/// The position of the first entry of `v[k..]` with process id `pid`, or
/// `v.len()`.
pub open spec fn first_with_pid(v: Seq<SummaryView>, pid: u32, k: int) -> int
    decreases v.len() - k,
{
    if k >= v.len() {
        v.len() as int
    } else if v[k].pid == pid {
        k
    } else {
        first_with_pid(v, pid, k + 1)
    }
}

/// `v` with the working directory of the first entry of process `cur` set
/// to `leaf`.
pub open spec fn set_cwd(v: Seq<SummaryView>, cur: Option<u32>, leaf: Option<Seq<char>>) -> Seq<
    SummaryView,
> {
    match cur {
        Some(p) => {
            let i = first_with_pid(v, p, 0);
            if i < v.len() {
                v.update(i, SummaryView { cwd: leaf, ..v[i] })
            } else {
                v
            }
        },
        None => v,
    }
}

/// Applies the report lines `lines[k..]` of `s` to `v`, the last process
/// line having named `cur`.  A `p` line names a process; an `n` line gives
/// the path of the one named last.
pub open spec fn report_from(
    v: Seq<SummaryView>,
    s: Seq<char>,
    lines: Seq<(int, int)>,
    k: int,
    cur: Option<u32>,
) -> Seq<SummaryView>
    decreases lines.len() - k,
{
    if k >= lines.len() || k < 0 {
        v
    } else {
        let a = lines[k].0;
        let b = lines[k].1;
        if a < b && s[a] == 'p' {
            report_from(v, s, lines, k + 1, pid_in(s, a + 1, b))
        } else if a < b && s[a] == 'n' {
            report_from(
                set_cwd(v, cur, path_leaf(s.subrange(a + 1, b))),
                s,
                lines,
                k + 1,
                cur,
            )
        } else {
            report_from(v, s, lines, k + 1, cur)
        }
    }
}

/// `v` with the working directories that a descriptor-lister report `s`
/// gives, each cut to its final segment.
pub open spec fn with_cwd_report(v: Seq<SummaryView>, s: Seq<char>) -> Seq<SummaryView> {
    report_from(v, s, lines_of(s), 0, None)
}

fn find_pid(procs: &Vec<ProcessSummary>, pid: u32) -> (r: usize)
    ensures
        r == first_with_pid(views(procs@), pid, 0),
        r <= procs@.len(),
{
    let mut k: usize = 0;
    while k < procs.len()
        invariant
            k <= procs@.len(),
            first_with_pid(views(procs@), pid, k as int) == first_with_pid(views(procs@), pid, 0),
        decreases procs@.len() - k,
    {
        if procs[k].pid == pid {
            return k;
        }
        k = k + 1;
    }
    k
}

/// Sets the working directory of the listed processes from the report of
/// the descriptor lister: lines `p<pid>` name a process, lines `n<path>`
/// give its working directory, of which only the final segment is kept.
pub fn apply_cwd_report(procs: &mut Vec<ProcessSummary>, report: &str)
    ensures
        views(final(procs)@) == with_cwd_report(views(old(procs)@), report@),
{
    let cs = chars_of(report);
    let lines = line_spans(&cs);
    let ghost s = report@;
    let ghost ls = lines_of(s);
    let mut cur: Option<u32> = None;
    let mut k: usize = 0;
    while k < lines.len()
        invariant
            cs@ == s,
            s == report@,
            ls == lines_of(s),
            spans_eq(lines@, ls),
            spans_within(ls, 0, s.len() as int),
            k <= lines@.len(),
            report_from(views(procs@), s, ls, k as int, cur) == with_cwd_report(
                views(old(procs)@),
                s,
            ),
        decreases lines@.len() - k,
    {
        let (a, b) = lines[k];
        assert(a == ls[k as int].0 && b == ls[k as int].1);
        if a < b && cs[a] == 'p' {
            cur = match parse_decimal(&cs, a + 1, b) {
                Some(v) => if v <= 0xffff_ffff {
                    Some(v as u32)
                } else {
                    None
                },
                None => None,
            };
        } else if a < b && cs[a] == 'n' {
            let ghost before = views(procs@);
            let path = copy_span(&cs, a + 1, b);
            let leaf = match leaf_span(&path) {
                Some((x, y)) => {
                    assert(leaf_scan(path@, path@.len() as int, path@.len() as int) is Some);
                    assert(x <= y <= path@.len());
                    proof {
                        assert(s.subrange(a + 1 + x, a + 1 + y) =~= path@.subrange(x as int, y as int));
                    }
                    Some(String::from_str(report.substring_char(a + 1 + x, a + 1 + y)))
                },
                None => None,
            };
            assert(text_opt(leaf) == path_leaf(s.subrange(a + 1, b as int)));
            match cur {
                Some(pid) => {
                    let i = find_pid(procs, pid);
                    if i < procs.len() {
                        let mut e = procs.remove(i);
                        e.cwd = leaf;
                        procs.insert(i, e);
                        proof {
                            assert(views(procs@) =~= set_cwd(before, cur, path_leaf(s.subrange(a + 1, b as int))));
                        }
                    }
                },
                None => {},
            }
        }
        k = k + 1;
    }
}

/// Scheduling state of a process, as reported to callers.
#[derive(Clone, Copy, Debug, PartialEq, Eq, Structural)]
pub enum ProcessState {
    Running,
    Sleeping,
    Stopped,
    Zombie,
    Idle,
    Unknown,
}

/// Scheduling state as the system-information library reports it.
#[derive(Clone, Copy, Debug, PartialEq, Eq, Structural)]
pub enum KernelStatus {
    Idle,
    Run,
    Sleep,
    Stop,
    Zombie,
    Tracing,
    Dead,
    Wakekill,
    Waking,
    Parked,
    LockBlocked,
    UninterruptibleDiskSleep,
    Unknown(u32),
}

pub open spec fn state_of(k: KernelStatus) -> ProcessState {
    match k {
        KernelStatus::Run => ProcessState::Running,
        KernelStatus::Sleep => ProcessState::Sleeping,
        KernelStatus::Stop => ProcessState::Stopped,
        KernelStatus::Zombie => ProcessState::Zombie,
        KernelStatus::Idle => ProcessState::Idle,
        _ => ProcessState::Unknown,
    }
}

/// Maps the library's state onto the six reported states; every other
/// state is `Unknown`.
pub fn map_status(k: KernelStatus) -> (r: ProcessState)
    ensures
        r == state_of(k),
{
    match k {
        KernelStatus::Run => ProcessState::Running,
        KernelStatus::Sleep => ProcessState::Sleeping,
        KernelStatus::Stop => ProcessState::Stopped,
        KernelStatus::Zombie => ProcessState::Zombie,
        KernelStatus::Idle => ProcessState::Idle,
        _ => ProcessState::Unknown,
    }
}

/// What the system-information library reported of one process.
pub struct ProcessFacts {
    pub name: String,
    pub status: KernelStatus,
    pub parent_pid: Option<u32>,
    pub exe_path: Option<String>,
    /// Full working directory.
    pub cwd: Option<String>,
    pub cmd_args: Vec<String>,
    /// Start time, in seconds since the Unix epoch.
    pub start_time: u64,
    pub resident_bytes: u64,
    pub virtual_bytes: u64,
    pub disk_read_bytes: u64,
    pub disk_write_bytes: u64,
}

/// Figures of the kernel's per-process usage query.
#[derive(Clone, Copy, Debug, PartialEq, Eq, Structural)]
pub struct KernelUsage {
    pub footprint_bytes: u64,
    pub disk_read_bytes: u64,
    pub disk_write_bytes: u64,
}

/// The results of the native probes for one process; `None` where a probe
/// was not run or failed.
pub struct NativeProbes {
    pub usage: Option<KernelUsage>,
    /// Output of the process-status tool asked for the owner's name.
    pub owner_report: Option<String>,
    /// Output of the descriptor lister asked for the working directory.
    pub cwd_report: Option<String>,
}

/// The detail record of one process.
pub struct ProcessDetails {
    pub pid: u32,
    pub name: String,
    pub status: ProcessState,
    pub user: Option<String>,
    pub parent_pid: Option<u32>,
    pub exe_path: Option<String>,
    pub cwd: Option<String>,
    pub cmd_args: Vec<String>,
    pub start_time: Option<u64>,
    pub memory_bytes: u64,
    pub virtual_bytes: u64,
    pub disk_read_bytes: u64,
    pub disk_write_bytes: u64,
}

#[derive(Clone, Copy, Debug, PartialEq, Eq, Structural)]
pub enum DetailError {
    /// No process has this id.
    NotFound(u32),
}

/// The owner's name in the process-status tool's output: the output
/// trimmed, if anything is left.
pub open spec fn owner_of(s: Seq<char>) -> Option<Seq<char>> {
    let t = trim_of(s, 0, s.len() as int);
    if t.0 < t.1 {
        Some(s.subrange(t.0, t.1))
    } else {
        None
    }
}

/// The path of the first line of `lines[k..]` that starts with `n`.
pub open spec fn first_named_from(s: Seq<char>, lines: Seq<(int, int)>, k: int) -> Option<
    Seq<char>,
>
    decreases lines.len() - k,
{
    if k >= lines.len() || k < 0 {
        None
    } else if lines[k].0 < lines[k].1 && s[lines[k].0] == 'n' {
        Some(s.subrange(lines[k].0 + 1, lines[k].1))
    } else {
        first_named_from(s, lines, k + 1)
    }
}

/// The first path in a descriptor-lister report.
pub open spec fn first_named(s: Seq<char>) -> Option<Seq<char>> {
    first_named_from(s, lines_of(s), 0)
}

pub open spec fn owner_from(report: Option<String>) -> Option<Seq<char>> {
    match report {
        Some(s) => owner_of(s@),
        None => None,
    }
}

/// The working directory: the reported one, else the library's.
pub open spec fn cwd_from(report: Option<String>, fallback: Option<String>) -> Option<Seq<char>> {
    match report {
        Some(s) => match first_named(s@) {
            Some(p) => Some(p),
            None => text_opt(fallback),
        },
        None => text_opt(fallback),
    }
}

/// The owner's name in the output of the process-status tool.
pub fn owner_name(report: &str) -> (r: Option<String>)
    ensures
        text_opt(r) == owner_of(report@),
{
    let cs = chars_of(report);
    let (a, b) = trim_span(&cs, 0, cs.len());
    if a < b {
        Some(String::from_str(report.substring_char(a, b)))
    } else {
        None
    }
}

/// The first path that a descriptor-lister report gives.
pub fn first_reported_path(report: &str) -> (r: Option<String>)
    ensures
        text_opt(r) == first_named(report@),
{
    let cs = chars_of(report);
    let lines = line_spans(&cs);
    let ghost ls = lines_of(report@);
    let mut k: usize = 0;
    while k < lines.len()
        invariant
            cs@ == report@,
            ls == lines_of(report@),
            spans_eq(lines@, ls),
            spans_within(ls, 0, report@.len() as int),
            k <= lines@.len(),
            first_named_from(report@, ls, k as int) == first_named(report@),
        decreases lines@.len() - k,
    {
        let (a, b) = lines[k];
        assert(a == ls[k as int].0 && b == ls[k as int].1);
        if a < b && cs[a] == 'n' {
            return Some(String::from_str(report.substring_char(a + 1, b)));
        }
        k = k + 1;
    }
    None
}

/// The detail record of process `pid`, from what the library reported of it
/// (`None`: no such process) and the native probes.  The kernel usage
/// figures stand in for the library's memory and disk counters where the
/// query succeeded.
pub fn process_details(pid: u32, facts: Option<ProcessFacts>, probes: NativeProbes) -> (r: Result<
    ProcessDetails,
    DetailError,
>)
    ensures
        facts is None <==> r is Err,
        r is Err ==> r == Err::<ProcessDetails, DetailError>(DetailError::NotFound(pid)),
        facts matches Some(f) ==> r matches Ok(d) && {
            &&& d.pid == pid
            &&& d.name@ == f.name@
            &&& d.status == state_of(f.status)
            &&& text_opt(d.user) == owner_from(probes.owner_report)
            &&& d.parent_pid == f.parent_pid
            &&& text_opt(d.exe_path) == text_opt(f.exe_path)
            &&& text_opt(d.cwd) == cwd_from(probes.cwd_report, f.cwd)
            &&& d.cmd_args@ == f.cmd_args@
            &&& d.start_time == Some(f.start_time)
            &&& d.virtual_bytes == f.virtual_bytes
            &&& match probes.usage {
                Some(u) => {
                    &&& d.memory_bytes == u.footprint_bytes
                    &&& d.disk_read_bytes == u.disk_read_bytes
                    &&& d.disk_write_bytes == u.disk_write_bytes
                },
                None => {
                    &&& d.memory_bytes == f.resident_bytes
                    &&& d.disk_read_bytes == f.disk_read_bytes
                    &&& d.disk_write_bytes == f.disk_write_bytes
                },
            }
        },
{
    let f = match facts {
        Some(f) => f,
        None => {
            return Err(DetailError::NotFound(pid));
        },
    };
    let (memory_bytes, disk_read_bytes, disk_write_bytes) = match probes.usage {
        Some(u) => (u.footprint_bytes, u.disk_read_bytes, u.disk_write_bytes),
        None => (f.resident_bytes, f.disk_read_bytes, f.disk_write_bytes),
    };
    let user = match &probes.owner_report {
        Some(s) => owner_name(s.as_str()),
        None => None,
    };
    let reported = match &probes.cwd_report {
        Some(s) => first_reported_path(s.as_str()),
        None => None,
    };
    let cwd = match reported {
        Some(p) => Some(p),
        None => f.cwd,
    };
    Ok(
        ProcessDetails {
            pid,
            name: f.name,
            status: map_status(f.status),
            user,
            parent_pid: f.parent_pid,
            exe_path: f.exe_path,
            cwd,
            cmd_args: f.cmd_args,
            start_time: Some(f.start_time),
            memory_bytes,
            virtual_bytes: f.virtual_bytes,
            disk_read_bytes,
            disk_write_bytes,
        },
    )
}

} // verus!
