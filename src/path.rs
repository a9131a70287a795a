use vstd::prelude::*;

use crate::value::{clone_strings, strings_view};

verus! {

/// A topic path: a sequence of non-empty segments, written `/a/b/c`.
#[derive(Debug, Clone, Hash, Eq)]
pub struct MushroomPath {
    path: Vec<String>,
}

/// Appends the segment under construction, unless it is empty.
pub open spec fn flush(done: Seq<Seq<char>>, cur: Seq<char>) -> Seq<Seq<char>> {
    if cur.len() == 0 {
        done
    } else {
        done.push(cur)
    }
}

/// Reads `s` left to right: `/` ends a segment, empty segments are dropped.
pub open spec fn split_scan(s: Seq<char>, done: Seq<Seq<char>>, cur: Seq<char>) -> Seq<Seq<char>>
    decreases s.len(),
{
    if s.len() == 0 {
        flush(done, cur)
    } else if s[0] == '/' {
        split_scan(s.drop_first(), flush(done, cur), Seq::empty())
    } else {
        split_scan(s.drop_first(), done, cur.push(s[0]))
    }
}

/// The non-empty segments between the slashes of `s`.
pub open spec fn segments_of(s: Seq<char>) -> Seq<Seq<char>> {
    split_scan(s, Seq::empty(), Seq::empty())
}

/// Each segment preceded by a slash: `["a", "b"]` is `/a/b`.
pub open spec fn path_string(p: Seq<Seq<char>>) -> Seq<char>
    decreases p.len(),
{
    if p.len() == 0 {
        Seq::empty()
    } else {
        seq!['/'] + p[0] + path_string(p.drop_first())
    }
}

pub open spec fn valid_segment(seg: Seq<char>) -> bool {
    seg.len() > 0 && forall|i: int| 0 <= i < seg.len() ==> seg[i] != '/'
}

pub open spec fn valid_segments(p: Seq<Seq<char>>) -> bool {
    forall|i: int| 0 <= i < p.len() ==> valid_segment(#[trigger] p[i])
}

impl View for MushroomPath {
    type V = Seq<Seq<char>>;

    closed spec fn view(&self) -> Seq<Seq<char>> {
        strings_view(self.path@)
    }
}

proof fn lemma_path_string_push(p: Seq<Seq<char>>, x: Seq<char>)
    ensures
        path_string(p.push(x)) == path_string(p) + seq!['/'] + x,
    decreases p.len(),
{
    if p.len() == 0 {
        assert(p.push(x).drop_first() =~= Seq::<Seq<char>>::empty());
        assert(p.push(x)[0] == x);
        assert(path_string(p.push(x).drop_first()) == Seq::<char>::empty());
        assert(path_string(p.push(x)) =~= seq!['/'] + x);
    } else {
        assert(p.push(x).drop_first() =~= p.drop_first().push(x));
        lemma_path_string_push(p.drop_first(), x);
        assert(path_string(p.push(x)) =~= path_string(p) + seq!['/'] + x);
    }
}

proof fn lemma_scan_segment(seg: Seq<char>, rest: Seq<char>, done: Seq<Seq<char>>, cur: Seq<char>)
    requires
        forall|i: int| 0 <= i < seg.len() ==> seg[i] != '/',
    ensures
        split_scan(seg + rest, done, cur) == split_scan(rest, done, cur + seg),
    decreases seg.len(),
{
    if seg.len() == 0 {
        assert(seg + rest =~= rest);
        assert(cur + seg =~= cur);
    } else {
        assert((seg + rest).drop_first() =~= seg.drop_first() + rest);
        assert((seg + rest)[0] == seg[0]);
        lemma_scan_segment(seg.drop_first(), rest, done, cur.push(seg[0]));
        assert(cur.push(seg[0]) + seg.drop_first() =~= cur + seg);
    }
}

proof fn lemma_scan_path(p: Seq<Seq<char>>, done: Seq<Seq<char>>, cur: Seq<char>)
    requires
        valid_segments(p),
    ensures
        split_scan(path_string(p), done, cur) == flush(done, cur) + p,
    decreases p.len(),
{
    if p.len() == 0 {
        assert(flush(done, cur) + p =~= flush(done, cur));
    } else {
        let s = path_string(p);
        let tail = path_string(p.drop_first());
        assert(valid_segment(p[0]));
        assert(s == seq!['/'] + p[0] + tail);
        assert(s.drop_first() =~= p[0] + tail);
        lemma_scan_segment(p[0], tail, flush(done, cur), Seq::empty());
        assert(Seq::<char>::empty() + p[0] =~= p[0]);
        assert forall|i: int| 0 <= i < p.drop_first().len() implies valid_segment(#[trigger] p.drop_first()[i]) by {
            assert(valid_segment(p[i + 1]));
        }
        lemma_scan_path(p.drop_first(), flush(done, cur), p[0]);
        assert(flush(flush(done, cur), p[0]) + p.drop_first() =~= flush(done, cur) + p);
    }
}

/// Reading the segments back out of a path's string gives the path.
pub proof fn lemma_segments_of_path_string(p: Seq<Seq<char>>)
    requires
        valid_segments(p),
    ensures
        segments_of(path_string(p)) == p,
{
    lemma_scan_path(p, Seq::empty(), Seq::empty());
    assert(flush(Seq::empty(), Seq::empty()) + p =~= p);
}

/// A string made of non-empty, slash-free segments each preceded by a
/// slash parses to a path whose string is that string again.
pub proof fn lemma_path_round_trip(s: Seq<char>, p: Seq<Seq<char>>)
    requires
        valid_segments(p),
        s == path_string(p),
    ensures
        path_string(segments_of(s)) == s,
{
    lemma_segments_of_path_string(p);
}

proof fn lemma_flush_valid(done: Seq<Seq<char>>, cur: Seq<char>)
    requires
        valid_segments(done),
        forall|i: int| 0 <= i < cur.len() ==> cur[i] != '/',
    ensures
        valid_segments(flush(done, cur)),
{
    if cur.len() > 0 {
        assert forall|i: int| 0 <= i < flush(done, cur).len() implies valid_segment(#[trigger] flush(done, cur)[i]) by {
            if i < done.len() {
                assert(valid_segment(done[i]));
            }
        }
    }
}

proof fn lemma_scan_valid(s: Seq<char>, done: Seq<Seq<char>>, cur: Seq<char>)
    requires
        valid_segments(done),
        forall|i: int| 0 <= i < cur.len() ==> cur[i] != '/',
    ensures
        valid_segments(split_scan(s, done, cur)),
    decreases s.len(),
{
    if s.len() == 0 {
        lemma_flush_valid(done, cur);
    } else if s[0] == '/' {
        lemma_flush_valid(done, cur);
        lemma_scan_valid(s.drop_first(), flush(done, cur), Seq::empty());
    } else {
        lemma_scan_valid(s.drop_first(), done, cur.push(s[0]));
    }
}

/// Every parsed path is made of valid segments.
proof fn lemma_segments_valid(s: Seq<char>)
    ensures
        valid_segments(segments_of(s)),
{
    lemma_scan_valid(s, Seq::empty(), Seq::empty());
}

impl MushroomPath {
    /// Parses `/a/b/c` into the segments `a`, `b`, `c`; empty segments
    /// (a leading, trailing or doubled slash) are dropped.
    pub fn parse(s: &str) -> (r: MushroomPath)
        ensures
            r@ == segments_of(s@),
            valid_segments(r@),
    {
        proof {
            lemma_segments_valid(s@);
        }
        let n = s.unicode_len();
        let mut done: Vec<String> = Vec::new();
        let mut start: usize = 0;
        let mut i: usize = 0;
        assert(strings_view(done@) =~= Seq::<Seq<char>>::empty());
        assert(s@.subrange(0, n as int) =~= s@);
        assert(s@.subrange(0, 0) =~= Seq::<char>::empty());
        while i < n
            invariant
                n == s@.len(),
                start <= i <= n,
                forall|k: int| start <= k < i ==> s@[k] != '/',
                split_scan(s@.subrange(i as int, n as int), strings_view(done@), s@.subrange(start as int, i as int))
                    == segments_of(s@),
            decreases n - i,
        {
            let c = s.get_char(i);
            let ghost rest = s@.subrange(i as int, n as int);
            assert(rest.drop_first() =~= s@.subrange(i + 1, n as int));
            assert(rest[0] == c);
            if c == '/' {
                if start < i {
                    let seg = String::from_str(s.substring_char(start, i));
                    let ghost before = done@;
                    done.push(seg);
                    assert(strings_view(done@) == strings_view(before).push(seg@));
                }
                i += 1;
                start = i;
                assert(s@.subrange(start as int, i as int) =~= Seq::<char>::empty());
            } else {
                assert(s@.subrange(start as int, i + 1) =~= s@.subrange(start as int, i as int).push(c));
                i += 1;
            }
        }
        if start < i {
            let seg = String::from_str(s.substring_char(start, i));
            let ghost before = done@;
            done.push(seg);
            assert(strings_view(done@) == strings_view(before).push(seg@));
        }
        assert(s@.subrange(i as int, n as int) =~= Seq::<char>::empty());
        MushroomPath { path: done }
    }

    /// The path's string: each segment preceded by a slash.
    pub fn to_string(&self) -> (r: String)
        ensures
            r@ == path_string(self@),
    {
        let mut r = String::new();
        let mut i: usize = 0;
        proof {
            reveal_strlit("/");
            assert(self@.take(0) =~= Seq::<Seq<char>>::empty());
        }
        while i < self.path.len()
            invariant
                i <= self.path@.len(),
                "/"@ == seq!['/'],
                r@ == path_string(self@.take(i as int)),
            decreases self.path@.len() - i,
        {
            r.append("/");
            r.append(self.path[i].as_str());
            proof {
                lemma_path_string_push(self@.take(i as int), self@[i as int]);
                assert(self@.take(i + 1) =~= self@.take(i as int).push(self@[i as int]));
            }
            i += 1;
        }
        assert(self@.take(i as int) =~= self@);
        r
    }

    /// The segments, in order.
    pub fn segments(&self) -> (r: Vec<String>)
        ensures
            strings_view(r@) == self@,
    {
        clone_strings(&self.path)
    }

    /// A copy with the same segments.
    pub fn duplicate(&self) -> (r: MushroomPath)
        ensures
            r@ == self@,
    {
        MushroomPath { path: clone_strings(&self.path) }
    }

    /// Two paths are equal when their segment sequences are.
    pub fn same_path(&self, other: &MushroomPath) -> (r: bool)
        ensures
            r == (self@ == other@),
    {
        if self.path.len() != other.path.len() {
            assert(self@.len() != other@.len());
            return false;
        }
        let mut i: usize = 0;
        while i < self.path.len()
            invariant
                i <= self.path@.len(),
                self.path@.len() == other.path@.len(),
                forall|k: int| 0 <= k < i ==> self@[k] == other@[k],
            decreases self.path@.len() - i,
        {
            if self.path[i] != other.path[i] {
                assert(self@[i as int] != other@[i as int]);
                return false;
            }
            i += 1;
        }
        assert(self@ =~= other@);
        true
    }
}

impl PartialEq for MushroomPath {
    fn eq(&self, other: &MushroomPath) -> (r: bool) {
        self.same_path(other)
    }
}

impl vstd::std_specs::cmp::PartialEqSpecImpl for MushroomPath {
    open spec fn obeys_eq_spec() -> bool {
        true
    }

    open spec fn eq_spec(&self, other: &MushroomPath) -> bool {
        self@ == other@
    }
}

} // verus!
