//! Request paths: splitting into segments, normalization, and the check
//! that keeps every resolved path inside the served root.

use vstd::prelude::*;
use vstd::string::*;

verus! {

/// Splitting a request path on `'/'`, carried out character by character:
/// `cur` is the segment being read and `acc` the segments already read.
pub open spec fn split_rec(s: Seq<char>, cur: Seq<char>, acc: Seq<Seq<char>>) -> Seq<Seq<char>>
    decreases s.len(),
{
    if s.len() == 0 {
        acc.push(cur)
    } else if s[0] == '/' {
        split_rec(s.skip(1), Seq::empty(), acc.push(cur))
    } else {
        split_rec(s.skip(1), cur.push(s[0]), acc)
    }
}

/// The segments of a request path, in order, separators removed.
/// Leading, trailing and doubled separators contribute empty segments.
pub open spec fn spec_split(s: Seq<char>) -> Seq<Seq<char>> {
    split_rec(s, Seq::empty(), Seq::empty())
}

/// Normalization of raw segments against the served root: empty segments and
/// `.` are dropped, `..` removes the segment before it, and a `..` with
/// nothing left to remove means the path would escape the root, so the whole
/// path is rejected.
pub open spec fn norm_rec(raw: Seq<Seq<char>>, acc: Seq<Seq<char>>) -> Option<Seq<Seq<char>>>
    decreases raw.len(),
{
    if raw.len() == 0 {
        Some(acc)
    } else {
        let seg = raw[0];
        if seg.len() == 0 || seg == "."@ {
            norm_rec(raw.skip(1), acc)
        } else if seg == ".."@ {
            if acc.len() == 0 {
                None
            } else {
                norm_rec(raw.skip(1), acc.drop_last())
            }
        } else {
            norm_rec(raw.skip(1), acc.push(seg))
        }
    }
}

pub open spec fn spec_normalize(raw: Seq<Seq<char>>) -> Option<Seq<Seq<char>>> {
    norm_rec(raw, Seq::empty())
}

/// What a request path denotes relative to the served root: its normalized
/// segments, or nothing when the path would escape the root.
pub open spec fn spec_request_segments(req: Seq<char>) -> Option<Seq<Seq<char>>> {
    spec_normalize(spec_split(req))
}

proof fn lemma_deep_view_push(v1: Vec<String>, v2: Vec<String>, x: String)
    requires
        v2@ == v1@.push(x),
    ensures
        v2.deep_view() == v1.deep_view().push(x@),
{
    assert(v2.deep_view() =~= v1.deep_view().push(x@));
}

proof fn lemma_deep_view_drop_last(v1: Vec<String>, v2: Vec<String>)
    requires
        v1@.len() > 0,
        v2@ == v1@.subrange(0, v1@.len() - 1),
    ensures
        v2.deep_view() == v1.deep_view().drop_last(),
{
    assert(v2.deep_view() =~= v1.deep_view().drop_last());
}

/// Splits a request path on `'/'` into its raw segments.
pub fn split_request_path(req: &str) -> (segs: Vec<String>)
    ensures
        segs.deep_view() == spec_split(req@),
{
    let n: usize = req.unicode_len();
    let mut segs: Vec<String> = Vec::new();
    let mut start: usize = 0;
    let mut i: usize = 0;
    proof {
        assert(req@.skip(0) =~= req@);
        assert(req@.subrange(0, 0) =~= Seq::<char>::empty());
        assert(segs.deep_view() =~= Seq::<Seq<char>>::empty());
    }
    while i < n
        invariant
            start <= i <= n,
            n == req@.len(),
            split_rec(
                req@.skip(i as int),
                req@.subrange(start as int, i as int),
                segs.deep_view(),
            ) == spec_split(req@),
        decreases n - i,
    {
        let c = req.get_char(i);
        proof {
            assert(req@.skip(i as int)[0] == req@[i as int]);
            assert(req@.skip(i as int).skip(1) =~= req@.skip(i + 1 as int));
        }
        if c == '/' {
            let piece = req.substring_char(start, i).to_owned();
            let ghost pre = segs;
            segs.push(piece);
            proof {
                lemma_deep_view_push(pre, segs, piece);
                assert(req@.subrange(i + 1 as int, i + 1 as int) =~= Seq::<char>::empty());
            }
            start = i + 1;
        } else {
            proof {
                assert(req@.subrange(start as int, i as int).push(req@[i as int]) =~= req@.subrange(
                    start as int,
                    i + 1 as int,
                ));
            }
        }
        i = i + 1;
    }
    proof {
        assert(req@.skip(n as int) =~= Seq::<char>::empty());
    }
    let piece = req.substring_char(start, n).to_owned();
    let ghost pre = segs;
    segs.push(piece);
    proof {
        lemma_deep_view_push(pre, segs, piece);
    }
    segs
}

/// Normalizes raw segments; `None` means the path would escape the root.
pub fn normalize_segments(raw: &Vec<String>) -> (r: Option<Vec<String>>)
    ensures
        match r {
            Some(v) => spec_normalize(raw.deep_view()) == Some(v.deep_view()),
            None => spec_normalize(raw.deep_view()) is None,
        },
{
    let dot = String::from_str(".");
    let dotdot = String::from_str("..");
    let mut out: Vec<String> = Vec::new();
    let mut i: usize = 0;
    proof {
        assert(raw.deep_view().skip(0) =~= raw.deep_view());
        assert(out.deep_view() =~= Seq::<Seq<char>>::empty());
    }
    while i < raw.len()
        invariant
            i <= raw.len(),
            norm_rec(raw.deep_view().skip(i as int), out.deep_view()) == spec_normalize(
                raw.deep_view(),
            ),
            dot@ == "."@,
            dotdot@ == ".."@,
        decreases raw.len() - i,
    {
        let seg: &String = &raw[i];
        proof {
            assert(raw.deep_view().skip(i as int)[0] == raw.deep_view()[i as int]);
            assert(raw.deep_view()[i as int] == raw@[i as int]@);
            assert(raw.deep_view().skip(i as int).skip(1) =~= raw.deep_view().skip(i + 1 as int));
        }
        if seg.as_str().is_empty() || *seg == dot {
            // dropped by normalization
        } else if *seg == dotdot {
            if out.len() == 0 {
                proof {
                    assert(out.deep_view().len() == 0);
                }
                return None;
            }
            let ghost pre = out;
            proof {
                assert(out.deep_view().len() == out@.len());
            }
            let _ = out.pop();
            proof {
                lemma_deep_view_drop_last(pre, out);
            }
        } else {
            let ghost pre = out;
            let piece = seg.clone();
            out.push(piece);
            proof {
                lemma_deep_view_push(pre, out, piece);
            }
        }
        i = i + 1;
    }
    proof {
        assert(raw.deep_view().skip(raw@.len() as int) =~= Seq::<Seq<char>>::empty());
    }
    Some(out)
}

proof fn lemma_norm_drops_trivial_prefix(raw: Seq<Seq<char>>, k: int)
    requires
        0 <= k <= raw.len(),
        forall|j: int| 0 <= j < k ==> raw[j].len() == 0 || raw[j] == "."@,
    ensures
        norm_rec(raw, Seq::empty()) == norm_rec(raw.skip(k), Seq::empty()),
    decreases k,
{
    if k > 0 {
        assert(raw[0].len() == 0 || raw[0] == "."@);
        reveal_strlit(".");
        reveal_strlit("..");
        lemma_norm_drops_trivial_prefix(raw.skip(1), k - 1);
        assert(raw.skip(1).skip(k - 1) =~= raw.skip(k));
    } else {
        assert(raw.skip(0) =~= raw);
    }
}

/// Law: a request path whose first real segment is a parent traversal — only
/// empty or `.` segments stand before a `..` — always escapes the root, so
/// normalization rejects it.
pub proof fn lemma_leading_parent_traversal_escapes(raw: Seq<Seq<char>>, k: int)
    requires
        0 <= k < raw.len(),
        forall|j: int| 0 <= j < k ==> raw[j].len() == 0 || raw[j] == "."@,
        raw[k] == ".."@,
    ensures
        spec_normalize(raw) is None,
{
    lemma_norm_drops_trivial_prefix(raw, k);
    reveal_strlit(".");
    reveal_strlit("..");
    assert(raw.skip(k)[0] == raw[k]);
}

/// The segments a request path denotes, or `None` when it would escape the
/// served root.
pub fn request_segments(req: &str) -> (r: Option<Vec<String>>)
    ensures
        match r {
            Some(v) => spec_request_segments(req@) == Some(v.deep_view()),
            None => spec_request_segments(req@) is None,
        },
{
    let raw = split_request_path(req);
    normalize_segments(&raw)
}

/// Whether a file name carries the `html` extension: a final `.html` with a
/// non-empty stem before it, as the platform reads extensions.
pub open spec fn spec_is_html_name(s: Seq<char>) -> bool {
    s.len() >= 6 && s[s.len() - 5] == '.' && s.subrange(s.len() - 4, s.len() as int) == "html"@
}

/// Whether a resolved path names an HTML file.
pub open spec fn spec_is_html_path(p: Seq<Seq<char>>) -> bool {
    p.len() > 0 && spec_is_html_name(p.last())
}

/// Decides whether the file a path resolves to is served as HTML.
pub fn is_html_path(p: &Vec<String>) -> (r: bool)
    ensures
        r == spec_is_html_path(p.deep_view()),
{
    if p.len() == 0 {
        return false;
    }
    let name: &String = &p[p.len() - 1];
    proof {
        assert(p.deep_view()[p@.len() - 1] == p@[p@.len() - 1]@);
        assert(p.deep_view().last() == name@);
    }
    let s = name.as_str();
    let n: usize = s.unicode_len();
    if n < 6 {
        return false;
    }
    let r = s.get_char(n - 5) == '.' && s.get_char(n - 4) == 'h' && s.get_char(n - 3) == 't'
        && s.get_char(n - 2) == 'm' && s.get_char(n - 1) == 'l';
    proof {
        reveal_strlit("html");
        let t = s@.subrange(n - 4, n as int);
        assert(t[0] == s@[n - 4] && t[1] == s@[n - 3] && t[2] == s@[n - 2] && t[3] == s@[n - 1]);
        if s@[n - 4] == 'h' && s@[n - 3] == 't' && s@[n - 2] == 'm' && s@[n - 1] == 'l' {
            assert(t =~= "html"@);
        }
    }
    r
}

} // verus!
