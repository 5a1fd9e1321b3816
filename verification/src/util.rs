//! A path type that places absolute paths below a configurable root.
//!
//! Useful for running a service against a mock root directory: an absolute
//! path is resolved below the root, a relative path is kept as it is.
use vstd::prelude::*;
use vstd::string::*;

use crate::text::{chars_of, text_of};

verus! {

/// Whether a path text is absolute.
pub open spec fn is_absolute(s: Seq<char>) -> bool {
    s.len() > 0 && s[0] == '/'
}

/// `s` without leading separators and leading `.` components.
pub open spec fn strip_front(s: Seq<char>) -> Seq<char>
    decreases s.len(),
{
    if s.len() > 0 && (s[0] == '/' || (s[0] == '.' && (s.len() == 1 || s[1] == '/'))) {
        strip_front(s.drop_first())
    } else {
        s
    }
}

/// `s` without trailing separators and trailing `.` components.
pub open spec fn strip_back(s: Seq<char>) -> Seq<char>
    decreases s.len(),
{
    if s.len() > 0 && (s.last() == '/' || (s.last() == '.' && (s.len() == 1 || s[s.len() - 2]
        == '/'))) {
        strip_back(s.drop_last())
    } else {
        s
    }
}

/// The part of an absolute path below the root directory.
pub open spec fn below_root(s: Seq<char>) -> Seq<char> {
    strip_back(strip_front(s))
}

/// `other` resolved against `base`: an absolute `other` replaces `base`, a
/// relative one is appended with exactly one separator where one is needed.
pub open spec fn joined(base: Seq<char>, other: Seq<char>) -> Seq<char> {
    if is_absolute(other) || base.len() == 0 {
        other
    } else if base.last() == '/' {
        base + other
    } else {
        base.push('/') + other
    }
}

/// What [`Path::new`] stores.
pub open spec fn placed(root: Seq<char>, s: Seq<char>) -> Seq<char> {
    if is_absolute(s) {
        joined(root, below_root(s))
    } else {
        s
    }
}

/// Resolve `other` against `base`.
pub(crate) fn join_texts(base: &str, other: &str) -> (r: String)
    ensures
        r@ == joined(base@, other@),
{
    let b = chars_of(base);
    let o = chars_of(other);
    if (o.len() > 0 && o[0] == '/') || b.len() == 0 {
        return other.to_owned();
    }
    let mut out = base.to_owned();
    if b[b.len() - 1] != '/' {
        out.push('/');
    }
    out.append(other);
    out
}

fn below_root_text(s: &str) -> (r: String)
    ensures
        r@ == below_root(s@),
{
    let v = chars_of(s);
    let n: usize = v.len();
    let mut from: usize = 0;
    assert(v@.skip(0) == s@);
    while from < n && (v[from] == '/' || (v[from] == '.' && (from + 1 == n || v[from + 1] == '/')))
        invariant
            n == v@.len(),
            from <= n,
            strip_front(v@.skip(from as int)) == strip_front(s@),
        decreases n - from,
    {
        assert(v@.skip(from as int).drop_first() == v@.skip(from + 1));
        from += 1;
    }
    let mut to: usize = n;
    assert(v@.subrange(from as int, n as int) == v@.skip(from as int));
    while from < to && (v[to - 1] == '/' || (v[to - 1] == '.' && (from + 1 == to || v[to - 2]
        == '/')))
        invariant
            n == v@.len(),
            from <= to <= n,
            strip_back(v@.subrange(from as int, to as int)) == below_root(s@),
        decreases to,
    {
        assert(v@.subrange(from as int, to as int).drop_last() == v@.subrange(
            from as int,
            to - 1,
        ));
        to -= 1;
    }
    text_of(&v, from, to)
}

/// A path, kept as text.
#[derive(Debug)]
pub struct Path {
    text: String,
}

impl View for Path {
    type V = Seq<char>;

    closed spec fn view(&self) -> Seq<char> {
        self.text@
    }
}

impl Path {
    /// Build a path. An absolute `s` is placed below `root`; a relative one is
    /// stored unchanged.
    pub fn new(root: &str, s: &str) -> (r: Self)
        ensures
            r@ == placed(root@, s@),
    {
        let v = chars_of(s);
        if v.len() > 0 && v[0] == '/' {
            let below = below_root_text(s);
            Path { text: join_texts(root, below.as_str()) }
        } else {
            Path { text: s.to_owned() }
        }
    }

    /// The path as text.
    pub fn as_str(&self) -> (r: &str)
        ensures
            r@ == self@,
    {
        self.text.as_str()
    }

    /// Resolve `other` against this path, without placing it below a root.
    pub fn join(&self, other: &str) -> (r: String)
        ensures
            r@ == joined(self@, other@),
    {
        join_texts(self.text.as_str(), other)
    }

    /// The path of `other` resolved against this path, without placing it below
    /// a root.
    pub fn child(&self, other: &str) -> (r: Path)
        ensures
            r@ == joined(self@, other@),
    {
        Path { text: self.join(other) }
    }
}

impl Clone for Path {
    fn clone(&self) -> (r: Self)
        ensures
            r@ == self@,
            r == *self,
    {
        Path { text: self.text.clone() }
    }
}

/// A relative path is stored unchanged, whatever the root.
pub proof fn relative_paths_are_kept(root: Seq<char>, s: Seq<char>)
    requires
        !is_absolute(s),
    ensures
        placed(root, s) == s,
{
}

/// An absolute path stays absolute below an absolute root.
pub proof fn absolute_paths_stay_absolute(root: Seq<char>, s: Seq<char>)
    requires
        is_absolute(root),
        is_absolute(s),
    ensures
        is_absolute(placed(root, s)),
        root.is_prefix_of(placed(root, s)),
{
    lemma_below_root_relative(s);
    let below = below_root(s);
    assert(root.is_prefix_of(joined(root, below)));
}

proof fn lemma_strip_front(s: Seq<char>)
    ensures
        strip_front(s).len() <= s.len(),
        strip_front(strip_front(s)) == strip_front(s),
        !is_absolute(strip_front(s)),
        strip_front(s).len() > 0 && strip_front(s)[0] == '.' ==> strip_front(s).len() > 1
            && strip_front(s)[1] != '/',
    decreases s.len(),
{
    if s.len() > 0 && (s[0] == '/' || (s[0] == '.' && (s.len() == 1 || s[1] == '/'))) {
        lemma_strip_front(s.drop_first());
    }
}

/// Trimming the back of a path whose front is already trimmed keeps its front.
proof fn lemma_strip_back(s: Seq<char>)
    requires
        !is_absolute(s),
        s.len() > 0 && s[0] == '.' ==> s.len() > 1 && s[1] != '/',
    ensures
        strip_back(s).len() <= s.len(),
        strip_front(strip_back(s)) == strip_back(s),
        strip_back(strip_back(s)) == strip_back(s),
        !is_absolute(strip_back(s)),
    decreases s.len(),
{
    if s.len() > 0 && (s.last() == '/' || (s.last() == '.' && (s.len() == 1 || s[s.len() - 2]
        == '/'))) {
        let t = s.drop_last();
        lemma_strip_back(t);
    }
}

proof fn lemma_below_root_relative(s: Seq<char>)
    ensures
        !is_absolute(below_root(s)),
        below_root(below_root(s)) == below_root(s),
{
    lemma_strip_front(s);
    lemma_strip_back(strip_front(s));
}

/// Under the default root `/`, placing a path a second time changes nothing.
pub proof fn placing_below_the_default_root_is_idempotent(s: Seq<char>)
    ensures
        placed(seq!['/'], placed(seq!['/'], s)) == placed(seq!['/'], s),
{
    if is_absolute(s) {
        let below = below_root(s);
        let root = seq!['/'];
        lemma_below_root_relative(s);
        let once = root + below;
        assert(placed(root, s) == once);
        assert(once.drop_first() == below);
        assert(below_root(once) == below_root(below));
    }
}

/// A relative path is put behind its base with one separator, and an absolute one
/// takes its place.
pub proof fn joining_puts_one_separator(base: Seq<char>, other: Seq<char>)
    ensures
        is_absolute(other) ==> joined(base, other) == other,
        !is_absolute(other) && base.len() > 0 && base.last() != '/' ==> joined(base, other)
            == base + seq!['/'] + other,
        !is_absolute(other) && base.len() > 0 && base.last() == '/' ==> joined(base, other)
            == base + other,
        base.len() == 0 ==> joined(base, other) == other,
{
    assert(base.push('/') == base + seq!['/']);
}

/// An absolute path is put behind the root without its own leading separator.
pub proof fn absolute_paths_go_below_the_root(root: Seq<char>, below: Seq<char>)
    requires
        below.len() > 0,
        below[0] != '/' && below[0] != '.',
        below.last() != '/' && below.last() != '.',
    ensures
        placed(root, seq!['/'] + below) == joined(root, below),
{
    let path = seq!['/'] + below;
    assert(path.drop_first() == below);
    assert(strip_front(path) == strip_front(below));
    assert(strip_front(below) == below);
    assert(strip_back(below) == below);
}

/// Separators and `.` components at either end of an absolute path make no
/// difference to where it is placed.
pub proof fn placing_ignores_empty_components(root: Seq<char>, path: Seq<char>)
    requires
        is_absolute(path),
    ensures
        placed(root, seq!['/'] + path) == placed(root, path),
        placed(root, seq!['/', '.'] + path) == placed(root, path),
{
    let one = seq!['/'] + path;
    let dot = seq!['/', '.'] + path;
    assert(one.drop_first() == path);
    assert(dot.drop_first() == seq!['.'] + path);
    assert((seq!['.'] + path).drop_first() == path);
    assert((seq!['.'] + path)[1] == path[0]);
    assert(strip_front(one) == strip_front(path));
    assert(strip_front(seq!['.'] + path) == strip_front(path));
    assert(strip_front(dot) == strip_front(seq!['.'] + path));
}

proof fn lemma_strip_front_push(s: Seq<char>)
    ensures
        strip_front(s.push('/')) == if strip_front(s).len() == 0 {
            Seq::<char>::empty()
        } else {
            strip_front(s).push('/')
        },
    decreases s.len(),
{
    let t = s.push('/');
    if s.len() == 0 {
        assert(t.drop_first() == Seq::<char>::empty());
        assert(strip_front(t.drop_first()) == Seq::<char>::empty());
    } else {
        assert(t[0] == s[0]);
        assert(t.drop_first() == s.drop_first().push('/'));
        if s.len() > 1 {
            assert(t[1] == s[1]);
        }
        lemma_strip_front_push(s.drop_first());
    }
}

/// A separator at the end of an absolute path makes no difference either.
pub proof fn placing_ignores_a_trailing_separator(root: Seq<char>, path: Seq<char>)
    requires
        is_absolute(path),
    ensures
        placed(root, path.push('/')) == placed(root, path),
{
    lemma_strip_front_push(path);
    let front = strip_front(path);
    if front.len() > 0 {
        assert(front.push('/').drop_last() == front);
        assert(strip_back(front.push('/')) == strip_back(front));
    } else {
        assert(front == Seq::<char>::empty());
    }
}

} // verus!
