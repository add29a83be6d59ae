//! Following the child's working directory. Three signals are weighed: a
//! directory the shell reports with OSC 7, paths shown on the first rows of
//! the screen, and the directory the operating system reports for the
//! process. Screen paths are debounced so that a deeper directory that
//! scrolls out of sight briefly does not make the choice flicker.
use vstd::prelude::*;
use vstd::string::StrSliceExecFns;
use crate::text::push_char;

verus! {

/// Rows of the screen searched for a path.
pub const SCRAPE_ROWS: usize = 8;

/// Consecutive ticks a shallower screen path must persist before it is
/// adopted.
pub const REVERT_TICKS: u32 = 16;

/// A character that may stand in a path shown on screen.
pub open spec fn path_char(c: char) -> bool {
    let v = c as u32;
    (0x61 <= v <= 0x7A) || (0x41 <= v <= 0x5A) || (0x30 <= v <= 0x39) || c == '/' || c == '.'
        || c == '_' || c == '-' || c == '+' || c == '@'
}

/// The longest run of path characters starting at `i`.
pub open spec fn take_path(t: Seq<char>, i: int) -> Seq<char>
    decreases t.len() - i,
{
    if 0 <= i < t.len() && path_char(t[i]) {
        seq![t[i]] + take_path(t, i + 1)
    } else {
        Seq::empty()
    }
}

/// The text without its trailing slashes.
pub open spec fn trim_end_slashes(t: Seq<char>) -> Seq<char>
    decreases t.len(),
{
    if t.len() > 0 && t.last() == '/' {
        trim_end_slashes(t.drop_last())
    } else {
        t
    }
}

/// The first position at or after `i` where `~/` starts, or the length.
pub open spec fn find_home_mark(t: Seq<char>, i: int) -> int
    decreases t.len() - i,
{
    if i < 0 || i + 1 >= t.len() {
        t.len() as int
    } else if t[i] == '~' && t[i + 1] == '/' {
        i
    } else {
        find_home_mark(t, i + 1)
    }
}

/// The first position at or after `i` holding `/`, or the length.
pub open spec fn find_slash(t: Seq<char>, i: int) -> int
    decreases t.len() - i,
{
    if i < 0 || i >= t.len() {
        t.len() as int
    } else if t[i] == '/' {
        i
    } else {
        find_slash(t, i + 1)
    }
}

/// `p` appended to `base` as a path: an absolute `p` replaces `base`.
pub open spec fn join_path(base: Seq<char>, p: Seq<char>) -> Seq<char> {
    if p.len() > 0 && p[0] == '/' {
        p
    } else if base.len() == 0 {
        p
    } else if base.last() == '/' {
        base + p
    } else {
        base + seq!['/'] + p
    }
}

/// The directory a line of screen text points at, if any: what follows the
/// first `~/`, taken from `home`, or else the text from the first `/`.
pub open spec fn candidate(t: Seq<char>, home: Seq<char>) -> Option<Seq<char>> {
    let k = find_home_mark(t, 0);
    if k < t.len() {
        let part = take_path(t, k + 2);
        if part.len() == 0 {
            None
        } else {
            Some(join_path(home, trim_end_slashes(part)))
        }
    } else {
        let j = find_slash(t, 0);
        let part = take_path(t, j);
        if j < t.len() && part.len() > 1 {
            Some(trim_end_slashes(part))
        } else {
            None
        }
    }
}

/// A segment between slashes that names a directory level.
pub open spec fn counted(seg: Seq<char>) -> nat {
    if seg.len() > 0 && seg != seq!['.'] {
        1
    } else {
        0
    }
}

/// Levels named from position `i` on, `seg` being the segment read so far.
pub open spec fn levels_from(p: Seq<char>, i: int, seg: Seq<char>) -> nat
    decreases p.len() - i,
{
    if i < 0 || i >= p.len() {
        counted(seg)
    } else if p[i] == '/' {
        counted(seg) + levels_from(p, i + 1, Seq::empty())
    } else {
        levels_from(p, i + 1, seg.push(p[i]))
    }
}

/// The number of components of a path: the root, each named level
/// (skipping empty and `.` segments), and a leading `.` of a relative path.
pub open spec fn depth(p: Seq<char>) -> nat {
    let root: nat = if p.len() > 0 && p[0] == '/' {
        1
    } else {
        0
    };
    let cur: nat = if p.len() > 0 && p[0] == '.' && (p.len() == 1 || p[1] == '/') {
        1
    } else {
        0
    };
    root + cur + levels_from(p, 0, Seq::empty())
}

/// The characters of a string.
fn chars_of(s: &str) -> (r: Vec<char>)
    ensures
        r@ == s@,
{
    let n = s.unicode_len();
    let mut v: Vec<char> = Vec::new();
    let mut i: usize = 0;
    while i < n
        invariant
            i <= n,
            n == s@.len(),
            v@ == s@.subrange(0, i as int),
        decreases n - i,
    {
        v.push(s.get_char(i));
        i = i + 1;
        assert(v@ =~= s@.subrange(0, i as int));
    }
    assert(s@.subrange(0, n as int) =~= s@);
    v
}

fn string_of(v: &Vec<char>, from: usize, to: usize) -> (r: String)
    requires
        from <= to <= v@.len(),
    ensures
        r@ == v@.subrange(from as int, to as int),
{
    let mut s = String::new();
    let mut i = from;
    while i < to
        invariant
            from <= i <= to,
            to <= v@.len(),
            s@ == v@.subrange(from as int, i as int),
        decreases to - i,
    {
        push_char(&mut s, v[i]);
        i = i + 1;
        assert(s@ =~= v@.subrange(from as int, i as int));
    }
    s
}

fn is_path_char(c: char) -> (r: bool)
    ensures
        r == path_char(c),
{
    let v = c as u32;
    (0x61 <= v && v <= 0x7A) || (0x41 <= v && v <= 0x5A) || (0x30 <= v && v <= 0x39) || c == '/'
        || c == '.' || c == '_' || c == '-' || c == '+' || c == '@'
}

/// The end of the run of path characters starting at `i`.
fn path_end(t: &Vec<char>, i: usize) -> (e: usize)
    requires
        i <= t@.len(),
    ensures
        i <= e <= t@.len(),
        take_path(t@, i as int) == t@.subrange(i as int, e as int),
{
    let mut e = i;
    while e < t.len() && is_path_char(t[e])
        invariant
            i <= e <= t@.len(),
            take_path(t@, i as int) == t@.subrange(i as int, e as int) + take_path(t@, e as int),
        decreases t@.len() - e,
    {
        assert(t@.subrange(i as int, e + 1) =~= t@.subrange(i as int, e as int) + seq![t@[e as int]]);
        e = e + 1;
    }
    assert(take_path(t@, e as int) == Seq::<char>::empty());
    assert(t@.subrange(i as int, e as int) + Seq::<char>::empty() =~= t@.subrange(i as int, e as int));
    e
}

/// The end of `t[a .. e]` once its trailing slashes are dropped.
fn trimmed_end(t: &Vec<char>, a: usize, e: usize) -> (k: usize)
    requires
        a <= e <= t@.len(),
    ensures
        a <= k <= e,
        trim_end_slashes(t@.subrange(a as int, e as int)) == t@.subrange(a as int, k as int),
{
    let mut k = e;
    while k > a && t[k - 1] == '/'
        invariant
            a <= k <= e <= t@.len(),
            trim_end_slashes(t@.subrange(a as int, e as int)) == trim_end_slashes(t@.subrange(a as int, k as int)),
        decreases k,
    {
        assert(t@.subrange(a as int, k as int).drop_last() =~= t@.subrange(a as int, k - 1));
        k = k - 1;
    }
    k
}

fn join(base: &Vec<char>, p: String) -> (r: String)
    ensures
        r@ == join_path(base@, p@),
{
    let pv = chars_of(p.as_str());
    if pv.len() > 0 && pv[0] == '/' {
        return p;
    }
    if base.len() == 0 {
        return p;
    }
    let mut out = string_of(base, 0, base.len());
    assert(base@.subrange(0, base@.len() as int) =~= base@);
    if base[base.len() - 1] != '/' {
        push_char(&mut out, '/');
    }
    let mut i: usize = 0;
    let ghost start = out@;
    while i < pv.len()
        invariant
            i <= pv@.len(),
            out@ == start + pv@.subrange(0, i as int),
        decreases pv.len() - i,
    {
        push_char(&mut out, pv[i]);
        i = i + 1;
        assert(out@ =~= start + pv@.subrange(0, i as int));
    }
    assert(pv@.subrange(0, pv@.len() as int) =~= pv@);
    assert(base@.last() == base@[base@.len() - 1]);
    out
}

/// The directory that a line of screen text points at, before it is
/// checked to exist: the path after the first `~/`, under `home`, or else
/// the path from the first `/` if it is more than the root.
pub fn scrape_candidate(line: &str, home: &str) -> (r: Option<String>)
    ensures
        match r {
            Some(p) => candidate(line@, home@) == Some(p@),
            None => candidate(line@, home@) is None,
        },
{
    let t = chars_of(line);
    let mut k: usize = 0;
    while k < t.len() && k + 1 < t.len() && !(t[k] == '~' && t[k + 1] == '/')
        invariant
            k <= t@.len(),
            find_home_mark(t@, k as int) == find_home_mark(t@, 0),
        decreases t@.len() - k,
    {
        k = k + 1;
    }
    if k < t.len() && k + 1 < t.len() {
        let e = path_end(&t, k + 2);
        if e == k + 2 {
            return None;
        }
        let end = trimmed_end(&t, k + 2, e);
        let part = string_of(&t, k + 2, end);
        let h = chars_of(home);
        return Some(join(&h, part));
    }
    assert(find_home_mark(t@, 0) == t@.len());
    let mut j: usize = 0;
    while j < t.len() && t[j] != '/'
        invariant
            j <= t@.len(),
            find_slash(t@, j as int) == find_slash(t@, 0),
        decreases t@.len() - j,
    {
        j = j + 1;
    }
    if j == t.len() {
        return None;
    }
    let e = path_end(&t, j);
    if e - j <= 1 {
        return None;
    }
    let end = trimmed_end(&t, j, e);
    Some(string_of(&t, j, end))
}

/// The number of components of the path `p`.
pub fn path_depth(p: &str) -> (r: u128)
    ensures
        r == depth(p@),
{
    let t = chars_of(p);
    let mut n: u128 = 0;
    let mut seg_len: usize = 0;
    let mut seg_dot: bool = false;
    let ghost mut seg: Seq<char> = Seq::empty();
    let mut i: usize = 0;
    assert(seq!['.'].len() == 1);
    while i < t.len()
        invariant
            i <= t@.len(),
            n <= i as u128,
            seg.len() == seg_len,
            seg_len <= i,
            seg_dot == (seg == seq!['.']),
            n + levels_from(t@, i as int, seg) == levels_from(t@, 0, Seq::empty()),
        decreases t@.len() - i,
    {
        if t[i] == '/' {
            if seg_len > 0 && !seg_dot {
                n = n + 1;
            }
            seg_len = 0;
            seg_dot = false;
            proof {
                seg = Seq::empty();
                assert(seq!['.'].len() == 1);
            }
        } else {
            seg_dot = seg_len == 0 && t[i] == '.';
            seg_len = seg_len + 1;
            proof {
                let s2 = seg.push(t@[i as int]);
                if seg.len() == 0 {
                    assert(s2 =~= seq![t@[i as int]]);
                    if t@[i as int] != '.' {
                        assert(s2[0] != seq!['.'][0]);
                    }
                } else {
                    assert(s2 != seq!['.']) by {
                        assert(s2.len() != 1);
                    }
                }
                seg = s2;
            }
        }
        i = i + 1;
    }
    if seg_len > 0 && !seg_dot {
        n = n + 1;
    }
    let root: u128 = if t.len() > 0 && t[0] == '/' {
        1
    } else {
        0
    };
    let cur: u128 = if t.len() > 0 && t[0] == '.' && (t.len() == 1 || t[1] == '/') {
        1
    } else {
        0
    };
    n + root + cur
}


/// The mathematical value of a [`CwdTracker`].
pub struct TrackerView {
    pub cwd: Seq<char>,
    pub revert_count: nat,
}

/// The best-known working directory of the child, with the count of ticks
/// a shallower screen path has persisted.
pub struct CwdTracker {
    cwd: String,
    revert_count: u32,
}

impl View for CwdTracker {
    type V = TrackerView;

    closed spec fn view(&self) -> TrackerView {
        TrackerView { cwd: self.cwd@, revert_count: self.revert_count as nat }
    }
}

pub open spec fn strings_view(v: Seq<String>) -> Seq<Seq<char>> {
    v.map_values(|s: String| s@)
}

/// The index of the first of the deepest paths from `i` on, given the best
/// index `bi` and depth `bd` so far; only a path deeper than `bd` wins.
pub open spec fn best_from(c: Seq<Seq<char>>, i: int, bi: int, bd: nat) -> int
    decreases c.len() - i,
{
    if i < 0 || i >= c.len() {
        bi
    } else if depth(c[i]) > bd {
        best_from(c, i + 1, i, depth(c[i]))
    } else {
        best_from(c, i + 1, bi, bd)
    }
}

/// The index of the first deepest path, or -1 when there is none.
pub open spec fn deepest(c: Seq<Seq<char>>) -> int {
    best_from(c, 0, -1, 0)
}

/// A screen path seen on a tick: the same directory resets the count, a
/// deeper one is taken at once, and a shallower or equally deep one only
/// once it has been seen for the full debounce period.
pub open spec fn debounce(t: TrackerView, p: Seq<char>) -> TrackerView {
    if p == t.cwd {
        TrackerView { revert_count: 0, ..t }
    } else if depth(p) > depth(t.cwd) {
        TrackerView { cwd: p, revert_count: 0 }
    } else if t.revert_count + 1 >= REVERT_TICKS {
        TrackerView { cwd: p, revert_count: 0 }
    } else {
        TrackerView { revert_count: t.revert_count + 1, ..t }
    }
}

/// One tick with the OSC 7 report and the screen paths that exist as
/// directories, in row order. The flag tells whether the tick is settled;
/// if not, the process's own directory is to be consulted.
pub open spec fn observe(t: TrackerView, reported: Option<Seq<char>>, shown: Seq<Seq<char>>) -> (TrackerView, bool) {
    match reported {
        Some(r) if r != t.cwd => (TrackerView { cwd: r, revert_count: 0 }, true),
        _ => {
            let k = deepest(shown);
            if 0 <= k < shown.len() {
                (debounce(t, shown[k]), true)
            } else {
                (t, false)
            }
        },
    }
}

/// The directory the operating system reports for the process.
pub open spec fn observe_process(t: TrackerView, p: Seq<char>) -> TrackerView {
    if p != t.cwd {
        TrackerView { cwd: p, revert_count: 0 }
    } else {
        t
    }
}

pub open spec fn opt_view(o: Option<String>) -> Option<Seq<char>> {
    match o {
        Some(s) => Some(s@),
        None => None,
    }
}

proof fn lemma_best_from_range(c: Seq<Seq<char>>, i: int, bi: int, bd: nat)
    requires
        -1 <= bi < c.len(),
        0 <= i,
    ensures
        -1 <= best_from(c, i, bi, bd) < c.len(),
    decreases c.len() - i,
{
    if i < c.len() {
        if depth(c[i]) > bd {
            lemma_best_from_range(c, i + 1, i, depth(c[i]));
        } else {
            lemma_best_from_range(c, i + 1, bi, bd);
        }
    }
}

/// The index of the first deepest path, if there is one.
pub fn deepest_index(c: &Vec<String>) -> (r: Option<usize>)
    ensures
        match r {
            Some(k) => k == deepest(strings_view(c@)) && k < c@.len(),
            None => deepest(strings_view(c@)) == -1,
        },
{
    let ghost v = strings_view(c@);
    let mut best: Option<usize> = None;
    let mut best_depth: u128 = 0;
    let mut i: usize = 0;
    while i < c.len()
        invariant
            i <= c@.len(),
            v == strings_view(c@),
            best_from(v, i as int, match best {
                Some(k) => k as int,
                None => -1,
            }, best_depth as nat) == deepest(v),
            match best {
                Some(k) => k < i,
                None => true,
            },
        decreases c.len() - i,
    {
        let d = path_depth(c[i].as_str());
        assert(v[i as int] == c@[i as int]@);
        if d > best_depth {
            best = Some(i);
            best_depth = d;
        }
        i = i + 1;
    }
    best
}

impl CwdTracker {
    pub closed spec fn wf(&self) -> bool {
        self.revert_count < REVERT_TICKS
    }

    /// Start from the directory the child was started in.
    pub fn new(cwd: String) -> (r: CwdTracker)
        ensures
            r@ == (TrackerView { cwd: cwd@, revert_count: 0 }),
            r.wf(),
    {
        CwdTracker { cwd, revert_count: 0 }
    }

    /// The best-known working directory.
    pub fn cwd(&self) -> (r: &String)
        ensures
            r@ == self@.cwd,
    {
        &self.cwd
    }

    /// One tick: `reported` is the directory last reported with OSC 7,
    /// `shown` the paths on the first screen rows that name existing
    /// directories, in row order. Returns whether the tick is settled; if
    /// not, [`CwdTracker::observe_process`] may be called next.
    pub fn observe(&mut self, reported: Option<String>, shown: &Vec<String>) -> (settled: bool)
        requires
            old(self).wf(),
        ensures
            (final(self)@, settled) == observe(old(self)@, opt_view(reported), strings_view(shown@)),
            final(self).wf(),
    {
        match reported {
            Some(r) => {
                if r != self.cwd {
                    self.cwd = r;
                    self.revert_count = 0;
                    return true;
                }
            },
            None => {},
        }
        match deepest_index(shown) {
            Some(k) => {
                let p = &shown[k];
                assert(strings_view(shown@)[k as int] == p@);
                if *p == self.cwd {
                    self.revert_count = 0;
                } else if path_depth(p.as_str()) > path_depth(self.cwd.as_str()) {
                    self.cwd = p.clone();
                    self.revert_count = 0;
                } else if self.revert_count + 1 >= REVERT_TICKS {
                    self.cwd = p.clone();
                    self.revert_count = 0;
                } else {
                    self.revert_count = self.revert_count + 1;
                }
                true
            },
            None => {
                proof {
                    lemma_best_from_range(strings_view(shown@), 0, -1, 0);
                }
                false
            },
        }
    }

    /// The directory the operating system reports for the process.
    pub fn observe_process(&mut self, p: String)
        requires
            old(self).wf(),
        ensures
            final(self)@ == observe_process(old(self)@, p@),
            final(self).wf(),
    {
        if p != self.cwd {
            self.cwd = p;
            self.revert_count = 0;
        }
    }
}

} // verus!
