use vstd::prelude::*;
use vstd::string::StrSliceExecFns;
use vstd::string::StringExecFns;

verus! {

/// The delimiter between the segments of a path in its string form.
pub open spec fn delim() -> char {
    '/'
}

/// A hierarchical identifier: an ordered sequence of string segments.
pub struct SPPath {
    pub path: Vec<String>,
}

impl View for SPPath {
    type V = Seq<Seq<char>>;

    open spec fn view(&self) -> Seq<Seq<char>> {
        self.path@.map_values(|s: String| s@)
    }
}

/// The segments joined by the delimiter.
pub open spec fn join_segments(p: Seq<Seq<char>>) -> Seq<char>
    decreases p.len(),
{
    if p.len() == 0 {
        Seq::empty()
    } else if p.len() == 1 {
        p[0]
    } else {
        join_segments(p.drop_last()) + seq![delim()] + p.last()
    }
}

/// Strict lexicographic order on character sequences, by code point.
pub open spec fn chars_lt(a: Seq<char>, b: Seq<char>) -> bool
    decreases a.len(),
{
    if a.len() == 0 {
        b.len() > 0
    } else if b.len() == 0 {
        false
    } else if a[0] != b[0] {
        (a[0] as int) < (b[0] as int)
    } else {
        chars_lt(a.drop_first(), b.drop_first())
    }
}

/// Strict lexicographic order on paths, segment by segment.
pub open spec fn path_lt(a: Seq<Seq<char>>, b: Seq<Seq<char>>) -> bool
    decreases a.len(),
{
    if a.len() == 0 {
        b.len() > 0
    } else if b.len() == 0 {
        false
    } else if a[0] != b[0] {
        chars_lt(a[0], b[0])
    } else {
        path_lt(a.drop_first(), b.drop_first())
    }
}

pub proof fn lemma_chars_lt_irreflexive(a: Seq<char>)
    ensures
        !chars_lt(a, a),
    decreases a.len(),
{
    if a.len() > 0 {
        lemma_chars_lt_irreflexive(a.drop_first());
    }
}

pub proof fn lemma_chars_lt_transitive(a: Seq<char>, b: Seq<char>, c: Seq<char>)
    requires
        chars_lt(a, b),
        chars_lt(b, c),
    ensures
        chars_lt(a, c),
    decreases a.len(),
{
    if a.len() > 0 && b.len() > 0 && c.len() > 0 && a[0] == b[0] && b[0] == c[0] {
        lemma_chars_lt_transitive(a.drop_first(), b.drop_first(), c.drop_first());
    }
}

pub proof fn lemma_chars_lt_total(a: Seq<char>, b: Seq<char>)
    requires
        a != b,
    ensures
        chars_lt(a, b) || chars_lt(b, a),
    decreases a.len(),
{
    if a.len() > 0 && b.len() > 0 && a[0] == b[0] {
        if a.drop_first() == b.drop_first() {
            assert(a =~= seq![a[0]] + a.drop_first());
            assert(b =~= seq![b[0]] + b.drop_first());
        }
        lemma_chars_lt_total(a.drop_first(), b.drop_first());
    } else if a.len() == 0 && b.len() == 0 {
        assert(a =~= b);
    } else if a.len() > 0 && b.len() > 0 {
        assert((a[0] as int) != (b[0] as int));
    }
}

pub proof fn lemma_path_lt_irreflexive(a: Seq<Seq<char>>)
    ensures
        !path_lt(a, a),
    decreases a.len(),
{
    if a.len() > 0 {
        lemma_path_lt_irreflexive(a.drop_first());
    }
}

pub proof fn lemma_path_lt_transitive(a: Seq<Seq<char>>, b: Seq<Seq<char>>, c: Seq<Seq<char>>)
    requires
        path_lt(a, b),
        path_lt(b, c),
    ensures
        path_lt(a, c),
    decreases a.len(),
{
    if a.len() > 0 && b.len() > 0 && c.len() > 0 {
        if a[0] == b[0] && b[0] == c[0] {
            lemma_path_lt_transitive(a.drop_first(), b.drop_first(), c.drop_first());
        } else if a[0] != b[0] && b[0] != c[0] {
            lemma_chars_lt_transitive(a[0], b[0], c[0]);
            if a[0] == c[0] {
                lemma_chars_lt_irreflexive(a[0]);
            }
        }
    }
}

pub proof fn lemma_path_lt_total(a: Seq<Seq<char>>, b: Seq<Seq<char>>)
    requires
        a != b,
    ensures
        path_lt(a, b) || path_lt(b, a),
    decreases a.len(),
{
    if a.len() > 0 && b.len() > 0 && a[0] == b[0] {
        if a.drop_first() == b.drop_first() {
            assert(a =~= seq![a[0]] + a.drop_first());
            assert(b =~= seq![b[0]] + b.drop_first());
        }
        lemma_path_lt_total(a.drop_first(), b.drop_first());
    } else if a.len() == 0 && b.len() == 0 {
        assert(a =~= b);
    } else if a.len() > 0 && b.len() > 0 {
        lemma_chars_lt_total(a[0], b[0]);
    }
}

/// Splits at each delimiter, as `str::split` does: the result always holds at
/// least one segment, and two adjacent delimiters give an empty segment.
pub open spec fn split_segments(s: Seq<char>) -> Seq<Seq<char>>
    decreases s.len(),
{
    if s.len() == 0 {
        seq![Seq::empty()]
    } else if s.last() == delim() {
        split_segments(s.drop_last()).push(Seq::empty())
    } else {
        let r = split_segments(s.drop_last());
        r.update(r.len() - 1, r.last().push(s.last()))
    }
}

pub proof fn lemma_split_nonempty(s: Seq<char>)
    ensures
        split_segments(s).len() >= 1,
    decreases s.len(),
{
    if s.len() > 0 {
        lemma_split_nonempty(s.drop_last());
    }
}

/// Splitting a string and joining its segments again gives the string back.
pub proof fn lemma_join_split(s: Seq<char>)
    ensures
        join_segments(split_segments(s)) == s,
    decreases s.len(),
{
    if s.len() > 0 {
        let t = s.drop_last();
        let r = split_segments(t);
        lemma_split_nonempty(t);
        lemma_join_split(t);
        if s.last() == delim() {
            let r2 = r.push(Seq::<char>::empty());
            assert(r2.drop_last() =~= r);
            assert(s =~= t + seq![delim()] + Seq::<char>::empty());
        } else {
            let r2 = r.update(r.len() - 1, r.last().push(s.last()));
            if r.len() == 1 {
                assert(s =~= t.push(s.last()));
            } else {
                assert(r2.drop_last() =~= r.drop_last());
                assert(s =~= (join_segments(r.drop_last()) + seq![delim()] + r.last()).push(
                    s.last(),
                ));
            }
        }
    }
}

/// A segment that holds no delimiter.
pub open spec fn plain_segment(t: Seq<char>) -> bool {
    forall|i: int| 0 <= i < t.len() ==> t[i] != delim()
}

proof fn lemma_split_plain(s: Seq<char>, t: Seq<char>)
    requires
        plain_segment(t),
    ensures
        split_segments(t) == seq![t],
        split_segments(s + seq![delim()] + t) == split_segments(s).push(t),
    decreases t.len(),
{
    if t.len() == 0 {
        assert(s + seq![delim()] + t =~= s.push(delim()));
        assert((s + seq![delim()] + t).drop_last() =~= s);
        assert(t =~= Seq::<char>::empty());
    } else {
        let u = t.drop_last();
        assert(plain_segment(u));
        lemma_split_plain(s, u);
        assert((s + seq![delim()] + t).drop_last() =~= s + seq![delim()] + u);
        assert(t[t.len() - 1] != delim());
        assert(u.push(t.last()) =~= t);
        assert(split_segments(t) =~= seq![t]);
        assert(split_segments(s + seq![delim()] + t) =~= split_segments(s).push(t));
    }
}

/// Joining the segments of a non-empty path and splitting the text again
/// gives the path back, where no segment holds the delimiter.
pub proof fn lemma_split_join(p: Seq<Seq<char>>)
    requires
        p.len() > 0,
        forall|i: int| 0 <= i < p.len() ==> plain_segment(#[trigger] p[i]),
    ensures
        split_segments(join_segments(p)) == p,
    decreases p.len(),
{
    if p.len() == 1 {
        lemma_split_plain(Seq::empty(), p[0]);
        assert(p =~= seq![p[0]]);
    } else {
        let q = p.drop_last();
        assert forall|i: int| 0 <= i < q.len() implies plain_segment(#[trigger] q[i]) by {
            assert(q[i] == p[i]);
        }
        lemma_split_join(q);
        assert(plain_segment(p[p.len() - 1]));
        lemma_split_plain(join_segments(q), p.last());
        assert(q.push(p.last()) =~= p);
    }
}

/// Past an equal character, what follows decides the order.
proof fn lemma_chars_lt_skip(a: Seq<char>, b: Seq<char>, i: int)
    requires
        0 <= i < a.len(),
        i < b.len(),
        a[i] == b[i],
    ensures
        chars_lt(a.skip(i), b.skip(i)) == chars_lt(a.skip(i + 1), b.skip(i + 1)),
{
    assert(a.skip(i).drop_first() =~= a.skip(i + 1));
    assert(b.skip(i).drop_first() =~= b.skip(i + 1));
}

proof fn lemma_path_lt_skip(a: Seq<Seq<char>>, b: Seq<Seq<char>>, i: int)
    requires
        0 <= i < a.len(),
        i < b.len(),
        a[i] == b[i],
    ensures
        path_lt(a.skip(i), b.skip(i)) == path_lt(a.skip(i + 1), b.skip(i + 1)),
{
    assert(a.skip(i).drop_first() =~= a.skip(i + 1));
    assert(b.skip(i).drop_first() =~= b.skip(i + 1));
}

/// Compares two strings in the order `chars_lt`.
pub fn segment_lt(a: &str, b: &str) -> (r: bool)
    ensures
        r == chars_lt(a@, b@),
{
    let na = a.unicode_len();
    let nb = b.unicode_len();
    let mut i: usize = 0;
    assert(a@.skip(0) =~= a@);
    assert(b@.skip(0) =~= b@);
    while i < na && i < nb
        invariant
            na == a@.len(),
            nb == b@.len(),
            i <= na,
            i <= nb,
            chars_lt(a@, b@) == chars_lt(a@.skip(i as int), b@.skip(i as int)),
        decreases na - i,
    {
        let ca = a.get_char(i);
        let cb = b.get_char(i);
        if ca != cb {
            return (ca as u32) < (cb as u32);
        }
        proof {
            lemma_chars_lt_skip(a@, b@, i as int);
        }
        i = i + 1;
    }
    i == na && i < nb
}

impl SPPath {
    /// A path made of the given segments.
    pub fn new(path: Vec<String>) -> (r: SPPath)
        ensures
            r.path == path,
    {
        SPPath { path }
    }

    /// A path made of copies of the given segments.
    pub fn from_slice(segments: &[&str]) -> (r: SPPath)
        ensures
            r@ == segments@.map_values(|s: &str| s@),
    {
        let mut path: Vec<String> = Vec::new();
        let mut i: usize = 0;
        while i < segments.len()
            invariant
                i <= segments@.len(),
                path@.len() == i,
                forall|j: int| 0 <= j < i ==> (#[trigger] path@[j])@ == segments@[j]@,
            decreases segments@.len() - i,
        {
            path.push(String::from_str(segments[i]));
            i = i + 1;
        }
        let r = SPPath { path };
        assert(r@ =~= segments@.map_values(|s: &str| s@));
        r
    }

    /// The path that a string names: its segments are what lies between the
    /// delimiters.
    pub fn from_string(s: &str) -> (r: SPPath)
        ensures
            r@ == split_segments(s@),
    {
        let n = s.unicode_len();
        let mut path: Vec<String> = Vec::new();
        let ghost mut segs: Seq<Seq<char>> = Seq::empty();
        let mut start: usize = 0;
        let mut i: usize = 0;
        assert(s@.take(0) =~= Seq::<char>::empty());
        while i < n
            invariant
                n == s@.len(),
                start <= i <= n,
                path@.len() == segs.len(),
                forall|j: int| 0 <= j < segs.len() ==> (#[trigger] path@[j])@ == segs[j],
                split_segments(s@.take(i as int)) =~= segs.push(
                    s@.subrange(start as int, i as int),
                ),
            decreases n - i,
        {
            let c = s.get_char(i);
            assert(s@.take(i + 1).drop_last() =~= s@.take(i as int));
            assert(s@.take(i + 1).last() == c);
            if c == '/' {
                let seg = s.substring_char(start, i);
                path.push(String::from_str(seg));
                proof {
                    segs = segs.push(s@.subrange(start as int, i as int));
                }
                start = i + 1;
                assert(s@.subrange(start as int, i + 1) =~= Seq::<char>::empty());
            } else {
                assert(s@.subrange(start as int, i + 1) =~= s@.subrange(start as int, i as int).push(c));
            }
            i = i + 1;
        }
        let seg = s.substring_char(start, n);
        path.push(String::from_str(seg));
        assert(s@.take(n as int) =~= s@);
        let r = SPPath { path };
        assert(r@ =~= segs.push(s@.subrange(start as int, n as int)));
        r
    }

    /// The segments joined by the delimiter.
    pub fn to_string(&self) -> (r: String)
        ensures
            r@ == join_segments(self@),
    {
        let mut r = String::new();
        let mut i: usize = 0;
        while i < self.path.len()
            invariant
                i <= self.path@.len(),
                r@ == join_segments(self@.take(i as int)),
            decreases self.path@.len() - i,
        {
            proof {
                reveal_strlit("/");
                assert(self@.take(i + 1).drop_last() =~= self@.take(i as int));
            }
            if i > 0 {
                r.append("/");
            }
            r.append(self.path[i].as_str());
            i = i + 1;
        }
        assert(self@.take(self@.len() as int) =~= self@);
        r
    }

    /// The last segment, or an empty string for a path of no segments.
    pub fn leaf(&self) -> (r: String)
        ensures
            r@ == if self@.len() > 0 {
                self@.last()
            } else {
                Seq::<char>::empty()
            },
    {
        let n = self.path.len();
        if n == 0 {
            String::new()
        } else {
            self.path[n - 1].clone()
        }
    }

    /// Whether this path comes strictly before `other` in path order.
    pub fn lt(&self, other: &SPPath) -> (r: bool)
        ensures
            r == path_lt(self@, other@),
    {
        let mut i: usize = 0;
        assert(self@.skip(0) =~= self@);
        assert(other@.skip(0) =~= other@);
        while i < self.path.len() && i < other.path.len()
            invariant
                i <= self@.len(),
                i <= other@.len(),
                path_lt(self@, other@) == path_lt(self@.skip(i as int), other@.skip(i as int)),
            decreases self@.len() - i,
        {
            let a = &self.path[i];
            let b = &other.path[i];
            assert(self@[i as int] == a@);
            assert(other@[i as int] == b@);
            let same = a.eq(b);
            if !same {
                assert(self@.skip(i as int)[0] == a@);
                assert(other@.skip(i as int)[0] == b@);
                return segment_lt(a.as_str(), b.as_str());
            }
            proof {
                lemma_path_lt_skip(self@, other@, i as int);
            }
            i = i + 1;
        }
        assert(self@.skip(i as int).len() == 0 || other@.skip(i as int).len() == 0);
        i == self.path.len() && i < other.path.len()
    }
}

impl Clone for SPPath {
    fn clone(&self) -> (r: SPPath)
        ensures
            r@ == self@,
    {
        let path = self.path.clone();
        proof {
            assert(path@ =~= self.path@);
        }
        SPPath { path }
    }
}

impl PartialEq for SPPath {
    fn eq(&self, other: &SPPath) -> (r: bool)
        ensures
            r == (self@ == other@),
    {
        if self.path.len() != other.path.len() {
            return false;
        }
        let mut i: usize = 0;
        while i < self.path.len()
            invariant
                self@.len() == other@.len(),
                i <= self@.len(),
                self@.take(i as int) =~= other@.take(i as int),
            decreases self@.len() - i,
        {
            if self.path[i] != other.path[i] {
                assert(self@[i as int] != other@[i as int]);
                return false;
            }
            assert(self@.take(i + 1) =~= self@.take(i as int).push(self@[i as int]));
            assert(other@.take(i + 1) =~= other@.take(i as int).push(other@[i as int]));
            i = i + 1;
        }
        assert(self@ =~= self@.take(self@.len() as int));
        assert(other@ =~= other@.take(other@.len() as int));
        true
    }
}

impl vstd::std_specs::cmp::PartialEqSpecImpl for SPPath {
    open spec fn obeys_eq_spec() -> bool {
        true
    }

    open spec fn eq_spec(&self, other: &SPPath) -> bool {
        self@ == other@
    }
}

} // verus!
