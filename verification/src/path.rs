//! Splitting a location path into segments and joining segments back into a
//! route.
//!
//! A location path is split on `/`; the piece before the leading slash is
//! dropped, so `/users/42` yields the segments `users`, `42`.  A route is
//! built the opposite way: a leading `/`, then the segments joined with `/`.

use vstd::prelude::*;

verus! {

/// All `/`-separated pieces of `s`, in order.  There is always at least one
/// piece: the empty string splits into one empty piece.
pub open spec fn split_slash(s: Seq<char>) -> Seq<Seq<char>>
    decreases s.len(),
{
    if s.len() == 0 {
        seq![Seq::<char>::empty()]
    } else if s[0] == '/' {
        seq![Seq::<char>::empty()] + split_slash(s.drop_first())
    } else {
        let rest = split_slash(s.drop_first());
        seq![seq![s[0]] + rest[0]] + rest.drop_first()
    }
}

/// The pieces joined with `/` between consecutive pieces.
pub open spec fn join_slash(segs: Seq<Seq<char>>) -> Seq<char>
    decreases segs.len(),
{
    if segs.len() == 0 {
        Seq::<char>::empty()
    } else if segs.len() == 1 {
        segs[0]
    } else {
        segs[0] + seq!['/'] + join_slash(segs.drop_first())
    }
}

/// The segments of a location path: split on `/`, with the piece before the
/// leading slash dropped.
pub open spec fn location_segments(path: Seq<char>) -> Seq<Seq<char>> {
    split_slash(path).drop_first()
}

/// The route rendered from a segment sequence: a leading `/`, then the
/// segments joined with `/`.
pub open spec fn route_chars(segs: Seq<Seq<char>>) -> Seq<char> {
    seq!['/'] + join_slash(segs)
}

/// A segment that contains no `/` survives splitting unchanged.
pub open spec fn slash_free(seg: Seq<char>) -> bool {
    !seg.contains('/')
}

pub open spec fn all_slash_free(segs: Seq<Seq<char>>) -> bool {
    forall|i: int| 0 <= i < segs.len() ==> slash_free(#[trigger] segs[i])
}

/// Splitting always yields at least one piece.
pub proof fn lemma_split_slash_len(s: Seq<char>)
    ensures
        split_slash(s).len() >= 1,
    decreases s.len(),
{
    if s.len() > 0 && s[0] != '/' {
        lemma_split_slash_len(s.drop_first());
    }
}

/// A slash-free string splits into exactly itself.
proof fn lemma_split_slash_free(s: Seq<char>)
    requires
        slash_free(s),
    ensures
        split_slash(s) == seq![s],
    decreases s.len(),
{
    if s.len() == 0 {
        assert(s =~= Seq::<char>::empty());
        assert(split_slash(s) =~= seq![s]);
    } else {
        assert(s[0] != '/') by {
            assert(s.contains(s[0]));
        }
        assert(slash_free(s.drop_first())) by {
            if s.drop_first().contains('/') {
                let j = choose|j: int|
                    0 <= j < s.drop_first().len() && s.drop_first()[j] == '/';
                assert(s[j + 1] == '/');
                assert(s.contains('/'));
            }
        }
        lemma_split_slash_free(s.drop_first());
        let rest = split_slash(s.drop_first());
        assert(rest == seq![s.drop_first()]);
        assert(seq![s[0]] + rest[0] =~= s);
        assert(split_slash(s) =~= seq![s]);
    }
}

/// Splitting a slash-free piece, a `/`, then a tail yields the piece in
/// front of the split of the tail.
proof fn lemma_split_slash_prefix(x: Seq<char>, t: Seq<char>)
    requires
        slash_free(x),
    ensures
        split_slash(x + seq!['/'] + t) == seq![x] + split_slash(t),
    decreases x.len(),
{
    let s = x + seq!['/'] + t;
    if x.len() == 0 {
        assert(s[0] == '/');
        assert(s.drop_first() =~= t);
        assert(x =~= Seq::<char>::empty());
        assert(split_slash(s) =~= seq![x] + split_slash(t));
    } else {
        assert(s[0] == x[0]);
        assert(x[0] != '/') by {
            assert(x.contains(x[0]));
        }
        assert(slash_free(x.drop_first())) by {
            if x.drop_first().contains('/') {
                let j = choose|j: int|
                    0 <= j < x.drop_first().len() && x.drop_first()[j] == '/';
                assert(x[j + 1] == '/');
                assert(x.contains('/'));
            }
        }
        assert(s.drop_first() =~= x.drop_first() + seq!['/'] + t);
        lemma_split_slash_prefix(x.drop_first(), t);
        let rest = split_slash(s.drop_first());
        assert(rest == seq![x.drop_first()] + split_slash(t));
        lemma_split_slash_len(t);
        assert(rest[0] == x.drop_first());
        assert(seq![s[0]] + rest[0] =~= x);
        assert(rest.drop_first() =~= split_slash(t));
        assert(split_slash(s) =~= seq![x] + split_slash(t));
    }
}

/// Splitting the join of slash-free segments restores the segments.
pub proof fn lemma_split_join(segs: Seq<Seq<char>>)
    requires
        segs.len() >= 1,
        all_slash_free(segs),
    ensures
        split_slash(join_slash(segs)) == segs,
    decreases segs.len(),
{
    if segs.len() == 1 {
        lemma_split_slash_free(segs[0]);
        assert(seq![segs[0]] =~= segs);
    } else {
        assert(all_slash_free(segs.drop_first())) by {
            assert forall|i: int| 0 <= i < segs.drop_first().len()
                implies slash_free(#[trigger] segs.drop_first()[i]) by {
                assert(segs.drop_first()[i] == segs[i + 1]);
            }
        }
        lemma_split_join(segs.drop_first());
        lemma_split_slash_prefix(segs[0], join_slash(segs.drop_first()));
        assert(join_slash(segs) == segs[0] + seq!['/'] + join_slash(segs.drop_first()));
        assert(seq![segs[0]] + split_slash(join_slash(segs.drop_first())) =~= segs);
    }
}

/// Joining one more segment appends a separator and the segment, except in
/// front of the very first segment.
proof fn lemma_join_slash_snoc(segs: Seq<Seq<char>>, x: Seq<char>)
    ensures
        segs.len() == 0 ==> join_slash(segs.push(x)) == x,
        segs.len() >= 1 ==> join_slash(segs.push(x)) == join_slash(segs) + seq!['/'] + x,
    decreases segs.len(),
{
    let t = segs.push(x);
    if segs.len() == 0 {
        assert(join_slash(t) == t[0]);
    } else if segs.len() == 1 {
        assert(t.drop_first() =~= seq![x]);
        assert(join_slash(seq![x]) == x);
        assert(join_slash(t) =~= segs[0] + seq!['/'] + x);
    } else {
        assert(t.drop_first() =~= segs.drop_first().push(x));
        lemma_join_slash_snoc(segs.drop_first(), x);
        assert(segs[0] + seq!['/'] + (join_slash(segs.drop_first()) + seq!['/'] + x) =~= (
        segs[0] + seq!['/'] + join_slash(segs.drop_first())) + seq!['/'] + x);
    }
}

/// A route built from at least one slash-free segment parses back into
/// exactly those segments.
pub proof fn lemma_route_round_trip(segs: Seq<Seq<char>>)
    requires
        segs.len() >= 1,
        all_slash_free(segs),
    ensures
        location_segments(route_chars(segs)) == segs,
{
    let r = route_chars(segs);
    assert(r[0] == '/');
    assert(r.drop_first() =~= join_slash(segs));
    lemma_split_join(segs);
    assert(split_slash(r) =~= seq![Seq::<char>::empty()] + segs);
    assert(location_segments(r) =~= segs);
}

/// Split a location path into its segments: the pieces between `/`
/// characters, with the piece before the leading slash dropped.
pub fn split_path(path: &str) -> (segs: Vec<String>)
    ensures
        segs.deep_view() == location_segments(path@),
{
    let n = path.unicode_len();
    let mut segs: Vec<String> = Vec::new();
    let mut start: usize = 0;
    proof {
        assert(path@.skip(0) =~= path@);
        assert(segs.deep_view() + split_slash(path@) =~= split_slash(path@));
    }
    loop
        invariant_except_break
            n == path@.len(),
            start <= n,
            split_slash(path@) == segs.deep_view() + split_slash(path@.skip(start as int)),
        ensures
            segs.deep_view() == split_slash(path@),
        decreases n - start,
    {
        let ghost prev = segs.deep_view();
        let mut i: usize = start;
        while i < n && path.get_char(i) != '/'
            invariant
                n == path@.len(),
                start <= i <= n,
                slash_free(path@.subrange(start as int, i as int)),
            decreases n - i,
        {
            proof {
                let x = path@.subrange(start as int, i as int + 1);
                if x.contains('/') {
                    let j = choose|j: int| 0 <= j < x.len() && x[j] == '/';
                    assert(path@[start + j] == '/');
                    assert(j == i - start);
                }
            }
            i += 1;
        }
        let piece = String::from_str(path.substring_char(start, i));
        segs.push(piece);
        proof {
            assert(segs.deep_view() =~= prev.push(path@.subrange(
                start as int,
                i as int,
            )));
        }
        if i < n {
            proof {
                let x = path@.subrange(start as int, i as int);
                let t = path@.skip(i as int + 1);
                assert(path@.skip(start as int) =~= x + seq!['/'] + t);
                lemma_split_slash_prefix(x, t);
                assert(segs.deep_view() + split_slash(t) =~= prev + split_slash(
                    path@.skip(start as int),
                ));
            }
            start = i + 1;
        } else {
            proof {
                let x = path@.subrange(start as int, i as int);
                assert(path@.skip(start as int) =~= x);
                lemma_split_slash_free(x);
                assert(segs.deep_view() =~= prev + split_slash(path@.skip(start as int)));
            }
            break ;
        }
    }
    proof {
        lemma_split_slash_len(path@);
    }
    segs.remove(0);
    proof {
        assert(segs.deep_view() =~= location_segments(path@));
    }
    segs
}

/// Build the route for a segment sequence: a leading `/`, then the segments
/// joined with `/`.
pub fn join_route(segs: &Vec<String>) -> (r: String)
    ensures
        r@ == route_chars(segs.deep_view()),
{
    let mut r = String::from_str("/");
    proof {
        reveal_strlit("/");
        assert(r@ =~= seq!['/']);
    }
    let mut i: usize = 0;
    while i < segs.len()
        invariant
            i <= segs.len(),
            i == 0 ==> r@ == seq!['/'],
            i >= 1 ==> r@ == seq!['/'] + join_slash(segs.deep_view().take(i as int)),
        decreases segs.len() - i,
    {
        let ghost dv = segs.deep_view();
        let ghost prevr = r@;
        if i > 0 {
            r.append("/");
            proof {
                reveal_strlit("/");
                assert(r@ =~= prevr + seq!['/']);
            }
        }
        let ghost mid = r@;
        r.append(segs[i].as_str());
        proof {
            assert(dv.take(i as int + 1) =~= dv.take(i as int).push(dv[i as int]));
            lemma_join_slash_snoc(dv.take(i as int), dv[i as int]);
            if i == 0 {
                assert(r@ =~= seq!['/'] + join_slash(dv.take(i as int + 1)));
            } else {
                assert(r@ =~= seq!['/'] + (join_slash(dv.take(i as int)) + seq!['/'] + dv[
                i as int]));
            }
        }
        i += 1;
    }
    proof {
        if segs.len() == 0 {
            assert(r@ =~= route_chars(segs.deep_view()));
        } else {
            assert(segs.deep_view().take(segs.len() as int) =~= segs.deep_view());
        }
    }
    r
}

} // verus!
