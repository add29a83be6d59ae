//! The file tree shown beside the terminal: the nodes of a directory walk
//! in display order, the rule that orders siblings, and the glyphs drawn
//! in front of each node. The walk itself reads the file system and is
//! done by the caller, which hands over what it found.
use vstd::prelude::*;
use crate::cwd::trim_end_slashes;
use crate::text::push_char;
use vstd::string::{StrSliceExecFns, StringExecFns};
use std::cmp::Ordering;
use crate::style::Color;

verus! {

/// One line of the tree.
pub struct FileNode {
    pub path: String,
    pub name: String,
    pub depth: usize,
    pub is_dir: bool,
}

/// One entry of a directory walk: its path, its depth below the root
/// (the root itself is at 0) and whether it is a directory.
pub struct WalkEntry {
    pub path: String,
    pub depth: usize,
    pub is_dir: bool,
}

/// The mathematical value of a [`FileNode`].
pub struct NodeView {
    pub path: Seq<char>,
    pub name: Seq<char>,
    pub depth: nat,
    pub is_dir: bool,
}

impl View for FileNode {
    type V = NodeView;

    open spec fn view(&self) -> NodeView {
        NodeView { path: self.path@, name: self.name@, depth: self.depth as nat, is_dir: self.is_dir }
    }
}

/// `s` repeated `n` times.
pub open spec fn repeat(s: Seq<char>, n: nat) -> Seq<char>
    decreases n,
{
    if n == 0 {
        Seq::empty()
    } else {
        repeat(s, (n - 1) as nat) + s
    }
}

impl FileNode {
    pub fn new(path: String, name: String, depth: usize, is_dir: bool) -> (r: FileNode)
        ensures
            r@ == (NodeView { path: path@, name: name@, depth: depth as nat, is_dir }),
    {
        FileNode { path, name, depth, is_dir }
    }

    /// The glyph for a collapsed directory or a file.
    pub fn icon(&self) -> (r: &'static str)
        ensures
            r@ == if self.is_dir {
                "▸ "@
            } else {
                "· "@
            },
    {
        if self.is_dir {
            "▸ "
        } else {
            "· "
        }
    }

    /// The glyph for a directory, open or closed, or for a file.
    pub fn expanded_icon(&self, expanded: bool) -> (r: &'static str)
        ensures
            r@ == if self.is_dir {
                if expanded {
                    "▾ "@
                } else {
                    "▸ "@
                }
            } else {
                "· "@
            },
    {
        if self.is_dir {
            if expanded {
                "▾ "
            } else {
                "▸ "
            }
        } else {
            "· "
        }
    }

    /// The connector lines in front of the node: none at the root, else a
    /// vertical bar for each level above the parent and a branch, a corner
    /// for the last child.
    pub fn tree_prefix(&self, is_last: bool) -> (r: String)
        ensures
            r@ == if self.depth == 0 {
                Seq::empty()
            } else {
                repeat("│   "@, (self.depth - 1) as nat) + if is_last {
                    "└── "@
                } else {
                    "├── "@
                }
            },
    {
        let mut prefix = String::new();
        if self.depth == 0 {
            return prefix;
        }
        let mut i: usize = 0;
        while i < self.depth - 1
            invariant
                i <= self.depth - 1,
                prefix@ == repeat("│   "@, i as nat),
            decreases self.depth - 1 - i,
        {
            prefix.append("│   ");
            i = i + 1;
        }
        if is_last {
            prefix.append("└── ");
        } else {
            prefix.append("├── ");
        }
        prefix
    }
}

/// The index just past the last `/` of `t`, or 0 if there is none.
pub open spec fn after_last_slash(t: Seq<char>) -> int
    decreases t.len(),
{
    if t.len() == 0 {
        0
    } else if t.last() == '/' {
        t.len() as int
    } else {
        after_last_slash(t.drop_last())
    }
}

/// The name shown for a path: its last segment, or the whole path where
/// that segment is empty, `.` or `..`.
pub open spec fn display_name(p: Seq<char>) -> Seq<char> {
    let t = trim_end_slashes(p);
    let seg = t.subrange(after_last_slash(t), t.len() as int);
    if seg.len() == 0 || seg == seq!['.'] || seg == seq!['.', '.'] {
        p
    } else {
        seg
    }
}

fn chars_to_string(v: &Vec<char>, from: usize, to: usize) -> (r: String)
    requires
        from <= to <= v@.len(),
    ensures
        r@ == v@.subrange(from as int, to as int),
{
    let mut s = String::new();
    let mut i = from;
    while i < to
        invariant
            from <= i <= to,
            to <= v@.len(),
            s@ == v@.subrange(from as int, i as int),
        decreases to - i,
    {
        push_char(&mut s, v[i]);
        i = i + 1;
        assert(s@ =~= v@.subrange(from as int, i as int));
    }
    s
}

/// The name shown for the path `p`.
pub fn name_of(p: &str) -> (r: String)
    ensures
        r@ == display_name(p@),
{
    let n = p.unicode_len();
    let mut t: Vec<char> = Vec::new();
    let mut i: usize = 0;
    while i < n
        invariant
            i <= n,
            n == p@.len(),
            t@ == p@.subrange(0, i as int),
        decreases n - i,
    {
        t.push(p.get_char(i));
        i = i + 1;
        assert(t@ =~= p@.subrange(0, i as int));
    }
    assert(p@.subrange(0, n as int) =~= p@);
    let mut end = t.len();
    assert(t@.subrange(0, end as int) =~= t@);
    while end > 0 && t[end - 1] == '/'
        invariant
            end <= t@.len(),
            trim_end_slashes(t@) == trim_end_slashes(t@.subrange(0, end as int)),
        decreases end,
    {
        assert(t@.subrange(0, end as int).drop_last() =~= t@.subrange(0, end - 1));
        end = end - 1;
    }
    let ghost tt = t@.subrange(0, end as int);
    assert(trim_end_slashes(tt) == tt);
    let mut start = end;
    while start > 0 && t[start - 1] != '/'
        invariant
            start <= end <= t@.len(),
            tt == t@.subrange(0, end as int),
            after_last_slash(tt) == after_last_slash(t@.subrange(0, start as int)),
        decreases start,
    {
        assert(t@.subrange(0, start as int).drop_last() =~= t@.subrange(0, start - 1));
        start = start - 1;
    }
    assert(after_last_slash(t@.subrange(0, start as int)) == start);
    let seg_len = end - start;
    let is_dot = seg_len == 1 && t[start] == '.';
    let is_dotdot = seg_len == 2 && t[start] == '.' && t[start + 1] == '.';
    let ghost seg = tt.subrange(start as int, end as int);
    assert(seg =~= t@.subrange(start as int, end as int));
    if seg_len == 0 || is_dot || is_dotdot {
        proof {
            if seg_len == 1 && is_dot {
                assert(seg =~= seq!['.']);
            }
            if seg_len == 2 && is_dotdot {
                assert(seg =~= seq!['.', '.']);
            }
        }
        return chars_to_string(&t, 0, t.len());
    }
    proof {
        if seg_len == 1 {
            assert(seg[0] != seq!['.'][0]);
        }
        if seg_len == 2 {
            assert(seg[0] != seq!['.', '.'][0] || seg[1] != seq!['.', '.'][1]);
        }
    }
    chars_to_string(&t, start, end)
}


/// The lower-case form of a text, as str::to_lowercase gives it.
pub uninterp spec fn lower_of(s: Seq<char>) -> Seq<char>;

/// Relies on str::to_lowercase, whose result depends on the text alone.
#[verifier::external_body]
fn lowercase(s: &str) -> (r: String)
    ensures
        r@ == lower_of(s@),
{
    s.to_lowercase()
}

/// Code-point order of two texts, as `Ord` on `str` orders them.
pub open spec fn text_cmp(a: Seq<char>, b: Seq<char>) -> Ordering
    decreases a.len(),
{
    if a.len() == 0 {
        if b.len() == 0 {
            Ordering::Equal
        } else {
            Ordering::Less
        }
    } else if b.len() == 0 {
        Ordering::Greater
    } else if (a[0] as u32) < (b[0] as u32) {
        Ordering::Less
    } else if (a[0] as u32) > (b[0] as u32) {
        Ordering::Greater
    } else {
        text_cmp(a.drop_first(), b.drop_first())
    }
}

/// The order of two siblings: directories before files, then by name
/// without regard to case.
pub open spec fn sibling_cmp(a_dir: bool, a_name: Seq<char>, b_dir: bool, b_name: Seq<char>) -> Ordering {
    if a_dir && !b_dir {
        Ordering::Less
    } else if !a_dir && b_dir {
        Ordering::Greater
    } else {
        text_cmp(lower_of(a_name), lower_of(b_name))
    }
}

fn compare_text(a: &str, b: &str) -> (r: Ordering)
    ensures
        r == text_cmp(a@, b@),
{
    let n = a.unicode_len();
    let m = b.unicode_len();
    let mut i: usize = 0;
    assert(a@.subrange(0, n as int) =~= a@);
    assert(b@.subrange(0, m as int) =~= b@);
    while i < n && i < m && a.get_char(i) == b.get_char(i)
        invariant
            i <= n,
            i <= m,
            n == a@.len(),
            m == b@.len(),
            text_cmp(a@.subrange(i as int, n as int), b@.subrange(i as int, m as int)) == text_cmp(a@, b@),
        decreases n - i,
    {
        let ghost x = a@.subrange(i as int, n as int);
        let ghost y = b@.subrange(i as int, m as int);
        assert(x.drop_first() =~= a@.subrange(i + 1, n as int));
        assert(y.drop_first() =~= b@.subrange(i + 1, m as int));
        i = i + 1;
    }
    let ghost x = a@.subrange(i as int, n as int);
    let ghost y = b@.subrange(i as int, m as int);
    if i == n {
        if i == m {
            Ordering::Equal
        } else {
            Ordering::Less
        }
    } else if i == m {
        Ordering::Greater
    } else {
        let c = a.get_char(i) as u32;
        let d = b.get_char(i) as u32;
        assert(x[0] == a@[i as int] && y[0] == b@[i as int]);
        if c < d {
            Ordering::Less
        } else {
            Ordering::Greater
        }
    }
}

/// The order in which two siblings are listed: directories first, then by
/// lower-case name.
pub fn sibling_order(a_dir: bool, a_name: &str, b_dir: bool, b_name: &str) -> (r: Ordering)
    ensures
        r == sibling_cmp(a_dir, a_name@, b_dir, b_name@),
{
    if a_dir && !b_dir {
        Ordering::Less
    } else if !a_dir && b_dir {
        Ordering::Greater
    } else {
        let la = lowercase(a_name);
        let lb = lowercase(b_name);
        compare_text(la.as_str(), lb.as_str())
    }
}

/// The mathematical value of a [`WalkEntry`].
pub struct EntryView {
    pub path: Seq<char>,
    pub depth: nat,
    pub is_dir: bool,
}

impl View for WalkEntry {
    type V = EntryView;

    open spec fn view(&self) -> EntryView {
        EntryView { path: self.path@, depth: self.depth as nat, is_dir: self.is_dir }
    }
}

pub open spec fn root_node(root: Seq<char>) -> NodeView {
    NodeView { path: root, name: display_name(root), depth: 0, is_dir: true }
}

pub open spec fn entry_node(e: EntryView) -> NodeView {
    NodeView { path: e.path, name: display_name(e.path), depth: e.depth, is_dir: e.is_dir }
}

/// The nodes of a walk: the root, then every entry other than the root
/// itself, in the order of the walk.
pub open spec fn listed(root: Seq<char>, es: Seq<EntryView>) -> Seq<NodeView>
    decreases es.len(),
{
    if es.len() == 0 {
        seq![root_node(root)]
    } else {
        let r = listed(root, es.drop_last());
        if es.last().path == root {
            r
        } else {
            r.push(entry_node(es.last()))
        }
    }
}

pub open spec fn entries_view(es: Seq<WalkEntry>) -> Seq<EntryView> {
    es.map_values(|e: WalkEntry| e@)
}

pub open spec fn nodes_view(ns: Seq<FileNode>) -> Seq<NodeView> {
    ns.map_values(|n: FileNode| n@)
}

/// The mathematical value of a [`FileTree`].
pub struct TreeView {
    pub root: Seq<char>,
    pub nodes: Seq<NodeView>,
    pub show_hidden: bool,
    pub max_depth: nat,
    pub offset: nat,
}

/// A directory tree in display order, with the first line shown.
pub struct FileTree {
    root: String,
    nodes: Vec<FileNode>,
    pub show_hidden: bool,
    max_depth: usize,
    offset: usize,
}

impl View for FileTree {
    type V = TreeView;

    closed spec fn view(&self) -> TreeView {
        TreeView {
            root: self.root@,
            nodes: nodes_view(self.nodes@),
            show_hidden: self.show_hidden,
            max_depth: self.max_depth as nat,
            offset: self.offset as nat,
        }
    }
}

fn build_nodes(root: &String, entries: &Vec<WalkEntry>) -> (r: Vec<FileNode>)
    ensures
        nodes_view(r@) == listed(root@, entries_view(entries@)),
{
    let ghost es = entries_view(entries@);
    let mut out: Vec<FileNode> = Vec::new();
    out.push(FileNode::new(root.clone(), name_of(root.as_str()), 0, true));
    assert(es.subrange(0, 0) =~= Seq::<EntryView>::empty());
    assert(nodes_view(out@) =~= listed(root@, es.subrange(0, 0)));
    let mut i: usize = 0;
    while i < entries.len()
        invariant
            i <= entries@.len(),
            es == entries_view(entries@),
            nodes_view(out@) == listed(root@, es.subrange(0, i as int)),
        decreases entries.len() - i,
    {
        let e = &entries[i];
        let ghost o0 = out@;
        assert(es.subrange(0, i + 1).drop_last() =~= es.subrange(0, i as int));
        assert(es.subrange(0, i + 1).last() == e@);
        if e.path != *root {
            out.push(FileNode::new(e.path.clone(), name_of(e.path.as_str()), e.depth, e.is_dir));
            assert(nodes_view(out@) =~= nodes_view(o0).push(entry_node(e@)));
        }
        i = i + 1;
    }
    assert(es.subrange(0, entries@.len() as int) =~= es);
    out
}

impl FileTree {
    /// The tree of `root` from the entries of a walk of it, listed in the
    /// walk's order; `show_hidden` and `max_depth` record how the walk was
    /// made.
    pub fn new(root: String, show_hidden: bool, max_depth: usize, entries: &Vec<WalkEntry>) -> (r: FileTree)
        ensures
            r@ == (TreeView {
                root: root@,
                nodes: listed(root@, entries_view(entries@)),
                show_hidden,
                max_depth: max_depth as nat,
                offset: 0,
            }),
    {
        let nodes = build_nodes(&root, entries);
        FileTree { root, nodes, show_hidden, max_depth, offset: 0 }
    }

    pub fn root_path(&self) -> (r: &String)
        ensures
            r@ == self@.root,
    {
        &self.root
    }

    pub fn nodes(&self) -> (r: &Vec<FileNode>)
        ensures
            nodes_view(r@) == self@.nodes,
    {
        &self.nodes
    }

    /// How far the listing is scrolled.
    pub fn offset(&self) -> (r: usize)
        ensures
            r == self@.offset,
    {
        self.offset
    }

    pub fn set_offset(&mut self, offset: usize)
        ensures
            final(self)@ == (TreeView { offset: offset as nat, ..old(self)@ }),
    {
        self.offset = offset;
    }

    /// The depth the walk goes to.
    pub fn max_depth(&self) -> (r: usize)
        ensures
            r == self@.max_depth,
    {
        self.max_depth
    }

    /// Rebuild the listing from a fresh walk; the scroll offset is kept.
    pub fn refresh(&mut self, entries: &Vec<WalkEntry>)
        ensures
            final(self)@ == (TreeView { nodes: listed(old(self)@.root, entries_view(entries@)), ..old(self)@ }),
    {
        self.nodes = build_nodes(&self.root, entries);
    }
}


/// The index of the last `.` of `t`, or -1 if there is none.
pub open spec fn last_dot(t: Seq<char>) -> int
    decreases t.len(),
{
    if t.len() == 0 {
        -1
    } else if t.last() == '.' {
        t.len() - 1
    } else {
        last_dot(t.drop_last())
    }
}

/// The extension of a file name: what follows its last `.`, unless that
/// `.` is the first character or there is none.
pub open spec fn extension_of(name: Seq<char>) -> Seq<char> {
    let k = last_dot(name);
    if k <= 0 {
        Seq::empty()
    } else {
        name.subrange(k + 1, name.len() as int)
    }
}

/// The colour for a lower-case file extension.
pub open spec fn extension_colour(e: Seq<char>) -> Color {
    if e == "rs"@ {
        Color::Rgb(255, 150, 50)
    } else if e == "js"@ || e == "mjs"@ || e == "cjs"@ {
        Color::LightYellow
    } else if e == "ts"@ || e == "mts"@ || e == "cts"@ {
        Color::Rgb(50, 150, 255)
    } else if e == "jsx"@ || e == "tsx"@ {
        Color::Rgb(100, 200, 255)
    } else if e == "py"@ || e == "pyw"@ || e == "pyi"@ {
        Color::Rgb(80, 180, 80)
    } else if e == "html"@ || e == "htm"@ {
        Color::Rgb(230, 120, 50)
    } else if e == "css"@ || e == "scss"@ || e == "sass"@ || e == "less"@ {
        Color::Rgb(180, 100, 255)
    } else if e == "vue"@ || e == "svelte"@ {
        Color::LightGreen
    } else if e == "json"@ {
        Color::LightYellow
    } else if e == "yaml"@ || e == "yml"@ || e == "toml"@ {
        Color::Rgb(180, 180, 180)
    } else if e == "xml"@ {
        Color::Rgb(200, 150, 50)
    } else if e == "sql"@ {
        Color::Rgb(200, 200, 50)
    } else if e == "md"@ || e == "markdown"@ {
        Color::Rgb(100, 180, 255)
    } else if e == "txt"@ {
        Color::Rgb(180, 180, 180)
    } else if e == "sh"@ || e == "bash"@ || e == "zsh"@ || e == "fish"@ {
        Color::LightGreen
    } else if e == "go"@ {
        Color::Cyan
    } else if e == "java"@ {
        Color::Rgb(255, 100, 100)
    } else if e == "kt"@ || e == "kts"@ {
        Color::Rgb(200, 120, 255)
    } else if e == "c"@ || e == "h"@ || e == "cpp"@ || e == "cc"@ || e == "cxx"@ || e == "hpp"@ {
        Color::Rgb(100, 150, 255)
    } else if e == "rb"@ {
        Color::LightRed
    } else if e == "lock"@ || e == "env"@ || e == "gitignore"@ || e == "dockerignore"@ {
        Color::DarkGray
    } else if e == "png"@ || e == "jpg"@ || e == "jpeg"@ || e == "gif"@ || e == "svg"@ || e == "ico"@ || e == "webp"@ {
        Color::LightMagenta
    } else {
        Color::Rgb(180, 180, 180)
    }
}

fn same_text(a: &str, b: &str) -> (r: bool)
    ensures
        r == (a@ == b@),
{
    let n = a.unicode_len();
    if n != b.unicode_len() {
        return false;
    }
    let mut i: usize = 0;
    while i < n
        invariant
            i <= n,
            n == a@.len(),
            n == b@.len(),
            a@.subrange(0, i as int) == b@.subrange(0, i as int),
        decreases n - i,
    {
        if a.get_char(i) != b.get_char(i) {
            return false;
        }
        i = i + 1;
        assert(a@.subrange(0, i as int) =~= a@.subrange(0, i - 1).push(a@[i - 1]));
        assert(b@.subrange(0, i as int) =~= b@.subrange(0, i - 1).push(b@[i - 1]));
    }
    assert(a@ =~= a@.subrange(0, n as int));
    assert(b@ =~= b@.subrange(0, n as int));
    true
}

fn colour_for_extension(e: &str) -> (r: Color)
    ensures
        r == extension_colour(e@),
{
    if same_text(e, "rs") {
        Color::Rgb(255, 150, 50)
    } else if same_text(e, "js") || same_text(e, "mjs") || same_text(e, "cjs") {
        Color::LightYellow
    } else if same_text(e, "ts") || same_text(e, "mts") || same_text(e, "cts") {
        Color::Rgb(50, 150, 255)
    } else if same_text(e, "jsx") || same_text(e, "tsx") {
        Color::Rgb(100, 200, 255)
    } else if same_text(e, "py") || same_text(e, "pyw") || same_text(e, "pyi") {
        Color::Rgb(80, 180, 80)
    } else if same_text(e, "html") || same_text(e, "htm") {
        Color::Rgb(230, 120, 50)
    } else if same_text(e, "css") || same_text(e, "scss") || same_text(e, "sass") || same_text(e, "less") {
        Color::Rgb(180, 100, 255)
    } else if same_text(e, "vue") || same_text(e, "svelte") {
        Color::LightGreen
    } else if same_text(e, "json") {
        Color::LightYellow
    } else if same_text(e, "yaml") || same_text(e, "yml") || same_text(e, "toml") {
        Color::Rgb(180, 180, 180)
    } else if same_text(e, "xml") {
        Color::Rgb(200, 150, 50)
    } else if same_text(e, "sql") {
        Color::Rgb(200, 200, 50)
    } else if same_text(e, "md") || same_text(e, "markdown") {
        Color::Rgb(100, 180, 255)
    } else if same_text(e, "txt") {
        Color::Rgb(180, 180, 180)
    } else if same_text(e, "sh") || same_text(e, "bash") || same_text(e, "zsh") || same_text(e, "fish") {
        Color::LightGreen
    } else if same_text(e, "go") {
        Color::Cyan
    } else if same_text(e, "java") {
        Color::Rgb(255, 100, 100)
    } else if same_text(e, "kt") || same_text(e, "kts") {
        Color::Rgb(200, 120, 255)
    } else if same_text(e, "c") || same_text(e, "h") || same_text(e, "cpp") || same_text(e, "cc") || same_text(e, "cxx") || same_text(e, "hpp") {
        Color::Rgb(100, 150, 255)
    } else if same_text(e, "rb") {
        Color::LightRed
    } else if same_text(e, "lock") || same_text(e, "env") || same_text(e, "gitignore") || same_text(e, "dockerignore") {
        Color::DarkGray
    } else if same_text(e, "png") || same_text(e, "jpg") || same_text(e, "jpeg") || same_text(e, "gif") || same_text(e, "svg") || same_text(e, "ico") || same_text(e, "webp") {
        Color::LightMagenta
    } else {
        Color::Rgb(180, 180, 180)
    }
}

/// The extension of the last segment of `path`.
fn extension(path: &str) -> (r: String)
    ensures
        r@ == extension_of(display_name(path@)),
{
    let name = name_of(path);
    let s = name.as_str();
    let n = s.unicode_len();
    let mut k = n;
    assert(s@.subrange(0, n as int) =~= s@);
    while k > 0 && s.get_char(k - 1) != '.'
        invariant
            k <= n,
            n == s@.len(),
            last_dot(s@) == last_dot(s@.subrange(0, k as int)),
        decreases k,
    {
        assert(s@.subrange(0, k as int).drop_last() =~= s@.subrange(0, k - 1));
        k = k - 1;
    }
    if k > 0 {
        assert(s@.subrange(0, k as int).last() == '.');
        assert(last_dot(s@) == k - 1);
    } else {
        assert(s@.subrange(0, 0) =~= Seq::<char>::empty());
    }
    if k <= 1 {
        return String::new();
    }
    let mut out = String::new();
    let mut i = k;
    while i < n
        invariant
            k <= i <= n,
            n == s@.len(),
            out@ == s@.subrange(k as int, i as int),
        decreases n - i,
    {
        push_char(&mut out, s.get_char(i));
        i = i + 1;
        assert(out@ =~= s@.subrange(k as int, i as int));
    }
    out
}

/// The colour a file is listed in, from its lower-case extension.
pub open spec fn file_colour(path: Seq<char>) -> Color {
    extension_colour(lower_of(extension_of(display_name(path))))
}

impl FileNode {
    /// The colour the node is listed in: one for directories, else by the
    /// kind of file its extension names.
    pub fn display_color(&self) -> (r: Color)
        ensures
            r == if self.is_dir {
                Color::Rgb(209, 164, 73)
            } else {
                file_colour(self.path@)
            },
    {
        if self.is_dir {
            Color::Rgb(209, 164, 73)
        } else {
            let e = extension(self.path.as_str());
            let lower = lowercase(e.as_str());
            colour_for_extension(lower.as_str())
        }
    }
}


/// `needle` occurs in `hay`.
pub open spec fn has_part(hay: Seq<char>, needle: Seq<char>) -> bool {
    exists|i: int| 0 <= i <= hay.len() - needle.len() && #[trigger] hay.subrange(i, i + needle.len()) == needle
}

/// Relies on str::contains with a string pattern: true exactly when the
/// pattern occurs in the text.
#[verifier::external_body]
fn text_contains(hay: &str, needle: &str) -> (r: bool)
    ensures
        r == has_part(hay@, needle@),
{
    hay.contains(needle)
}

/// A name matches a query when the query occurs in it, case aside.
pub open spec fn name_matches(name: Seq<char>, query: Seq<char>) -> bool {
    has_part(lower_of(name), lower_of(query))
}

/// The first node in `lo .. hi` whose name matches, or -1.
pub open spec fn first_match(ns: Seq<NodeView>, q: Seq<char>, lo: int, hi: int) -> int
    decreases hi - lo,
{
    if lo >= hi || lo < 0 || hi > ns.len() {
        -1
    } else if name_matches(ns[lo].name, q) {
        lo
    } else {
        first_match(ns, q, lo + 1, hi)
    }
}

/// The last node in `lo .. hi` whose name matches, or -1.
pub open spec fn last_match(ns: Seq<NodeView>, q: Seq<char>, lo: int, hi: int) -> int
    decreases hi - lo,
{
    if lo >= hi || lo < 0 || hi > ns.len() {
        -1
    } else if name_matches(ns[hi - 1].name, q) {
        hi - 1
    } else {
        last_match(ns, q, lo, hi - 1)
    }
}

/// The next node after `from` whose name matches, going round the end, or
/// going backwards the one before it; -1 if no name matches.
pub open spec fn search_from(ns: Seq<NodeView>, q: Seq<char>, from: int, forward: bool) -> int {
    if forward {
        let a = first_match(ns, q, from + 1, ns.len() as int);
        if a >= 0 {
            a
        } else {
            first_match(ns, q, 0, min_int(from + 1, ns.len() as int))
        }
    } else {
        let a = last_match(ns, q, 0, min_int(from, ns.len() as int));
        if a >= 0 {
            a
        } else {
            last_match(ns, q, min_int(from, ns.len() as int), ns.len() as int)
        }
    }
}

pub open spec fn min_int(a: int, b: int) -> int {
    if a < b {
        a
    } else {
        b
    }
}

impl FileTree {
    fn matches_at(&self, i: usize, q: &String) -> (r: bool)
        requires
            i < self@.nodes.len(),
        ensures
            r == name_matches(self@.nodes[i as int].name, q@),
    {
        let name = lowercase(self.nodes[i].name.as_str());
        let lq = lowercase(q.as_str());
        text_contains(name.as_str(), lq.as_str())
    }

    fn first_in(&self, q: &String, lo: usize, hi: usize) -> (r: Option<usize>)
        requires
            lo <= hi <= self@.nodes.len(),
        ensures
            match r {
                Some(k) => k == first_match(self@.nodes, q@, lo as int, hi as int),
                None => first_match(self@.nodes, q@, lo as int, hi as int) == -1,
            },
    {
        let mut i = lo;
        while i < hi
            invariant
                lo <= i <= hi <= self@.nodes.len(),
                first_match(self@.nodes, q@, i as int, hi as int) == first_match(self@.nodes, q@, lo as int, hi as int),
            decreases hi - i,
        {
            if self.matches_at(i, q) {
                return Some(i);
            }
            i = i + 1;
        }
        None
    }

    fn last_in(&self, q: &String, lo: usize, hi: usize) -> (r: Option<usize>)
        requires
            lo <= hi <= self@.nodes.len(),
        ensures
            match r {
                Some(k) => k == last_match(self@.nodes, q@, lo as int, hi as int),
                None => last_match(self@.nodes, q@, lo as int, hi as int) == -1,
            },
    {
        let mut j = hi;
        while j > lo
            invariant
                lo <= j <= hi <= self@.nodes.len(),
                last_match(self@.nodes, q@, lo as int, j as int) == last_match(self@.nodes, q@, lo as int, hi as int),
            decreases j,
        {
            if self.matches_at(j - 1, q) {
                return Some(j - 1);
            }
            j = j - 1;
        }
        None
    }

    /// The node whose name holds `query`, case aside: the next one after
    /// `from`, round the end, or going backwards the one before it.
    pub fn find(&self, query: &String, from: usize, forward: bool) -> (r: Option<usize>)
        ensures
            match r {
                Some(k) => k == search_from(self@.nodes, query@, from as int, forward),
                None => search_from(self@.nodes, query@, from as int, forward) == -1,
            },
    {
        let n = self.nodes.len();
        let cut = if from < n {
            from
        } else {
            n
        };
        if forward {
            let next = if from < n {
                from + 1
            } else {
                n
            };
            match self.first_in(query, next, n) {
                Some(k) => Some(k),
                None => {
                    let wrap = if from < n {
                        from + 1
                    } else {
                        n
                    };
                    self.first_in(query, 0, wrap)
                },
            }
        } else {
            match self.last_in(query, 0, cut) {
                Some(k) => Some(k),
                None => self.last_in(query, cut, n),
            }
        }
    }
}

} // verus!
