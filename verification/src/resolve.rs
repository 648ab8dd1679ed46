//! Request resolution: deciding, against a snapshot of what exists under the
//! served root, whether a request is answered with a file, a directory
//! listing, or nothing.

use vstd::prelude::*;
use vstd::string::*;
use crate::paths::{spec_request_segments, request_segments};

verus! {

/// What a path under the served root is.
#[derive(Clone, Copy, PartialEq, Eq, Structural, Debug)]
pub enum EntryKind {
    File,
    Dir,
}

/// One existing path under the served root, as segments relative to it.
pub struct FsEntry {
    pub path: Vec<String>,
    pub kind: EntryKind,
}

/// A snapshot of the paths under the served root that a resolution may
/// inspect.  The root itself is always a directory and is not listed.
pub struct FsTree {
    pub entries: Vec<FsEntry>,
}

/// The name of the index document looked for in directories.
pub open spec fn index_file_name() -> Seq<char> {
    "index.html"@
}

impl FsTree {
    /// No path is listed twice.
    pub open spec fn wf(&self) -> bool {
        forall|i: int, j: int|
            0 <= i < j < self.entries@.len() ==> self.entries@[i].path.deep_view()
                != self.entries@[j].path.deep_view()
    }

    pub open spec fn has_entry(&self, p: Seq<Seq<char>>) -> bool {
        exists|i: int| 0 <= i < self.entries@.len() && self.entries@[i].path.deep_view() == p
    }

    /// What the snapshot holds at `p`: the root is a directory, a listed path
    /// has its listed kind, everything else is absent.
    pub open spec fn spec_lookup(&self, p: Seq<Seq<char>>) -> Option<EntryKind> {
        if p.len() == 0 {
            Some(EntryKind::Dir)
        } else if self.has_entry(p) {
            Some(
                self.entries@[choose|i: int|
                    0 <= i < self.entries@.len() && self.entries@[i].path.deep_view() == p].kind,
            )
        } else {
            None
        }
    }

    /// Looks a path up in the snapshot.
    pub fn lookup(&self, p: &Vec<String>) -> (r: Option<EntryKind>)
        requires
            self.wf(),
        ensures
            r == self.spec_lookup(p.deep_view()),
    {
        if p.len() == 0 {
            proof {
                assert(p.deep_view().len() == 0);
            }
            return Some(EntryKind::Dir);
        }
        proof {
            assert(p.deep_view().len() == p@.len());
        }
        let mut i: usize = 0;
        while i < self.entries.len()
            invariant
                i <= self.entries@.len(),
                self.wf(),
                p.deep_view().len() > 0,
                forall|k: int|
                    0 <= k < i ==> self.entries@[k].path.deep_view() != p.deep_view(),
            decreases self.entries@.len() - i,
        {
            let e: &FsEntry = &self.entries[i];
            if segments_eq(&e.path, p) {
                proof {
                    let j = choose|j: int|
                        0 <= j < self.entries@.len() && self.entries@[j].path.deep_view()
                            == p.deep_view();
                    assert(self.has_entry(p.deep_view()));
                    assert(j == i);
                }
                return Some(e.kind);
            }
            i = i + 1;
        }
        proof {
            assert(!self.has_entry(p.deep_view()));
        }
        None
    }
}

/// Compares two segment lists for equality.
fn segments_eq(a: &Vec<String>, b: &Vec<String>) -> (r: bool)
    ensures
        r == (a.deep_view() == b.deep_view()),
{
    if a.len() != b.len() {
        proof {
            assert(a.deep_view().len() == a@.len());
            assert(b.deep_view().len() == b@.len());
        }
        return false;
    }
    let mut i: usize = 0;
    while i < a.len()
        invariant
            i <= a@.len(),
            a@.len() == b@.len(),
            forall|k: int| 0 <= k < i ==> a.deep_view()[k] == b.deep_view()[k],
        decreases a@.len() - i,
    {
        let sa: &String = &a[i];
        let sb: &String = &b[i];
        if !(*sa == *sb) {
            proof {
                assert(a.deep_view()[i as int] == a@[i as int]@);
                assert(b.deep_view()[i as int] == b@[i as int]@);
            }
            return false;
        }
        proof {
            assert(a.deep_view()[i as int] == a@[i as int]@);
            assert(b.deep_view()[i as int] == b@[i as int]@);
        }
        i = i + 1;
    }
    proof {
        assert(a.deep_view() =~= b.deep_view());
    }
    true
}

/// How a request is answered: with the bytes of a file, with a listing of a
/// directory, or with nothing.  Paths are segments relative to the root.
#[derive(Debug, PartialEq, Eq)]
pub enum Resolution {
    ServeFile(Vec<String>),
    ListDirectory(Vec<String>),
    NotFound,
}

/// The mathematical form of a `Resolution`.
pub enum SpecResolution {
    ServeFile(Seq<Seq<char>>),
    ListDirectory(Seq<Seq<char>>),
    NotFound,
}

impl View for Resolution {
    type V = SpecResolution;

    open spec fn view(&self) -> SpecResolution {
        match self {
            Resolution::ServeFile(p) => SpecResolution::ServeFile(p.deep_view()),
            Resolution::ListDirectory(p) => SpecResolution::ListDirectory(p.deep_view()),
            Resolution::NotFound => SpecResolution::NotFound,
        }
    }
}

/// The resolution rule.  A path that would escape the root is not found.
/// An existing directory is answered with its index document when one
/// exists there, else with its listing.  An existing file is answered with
/// itself.  Anything else falls back to the root index document when
/// single-page-application mode asks for that, and is otherwise not found.
pub open spec fn spec_resolve(t: FsTree, req: Seq<char>, spa: bool) -> SpecResolution {
    match spec_request_segments(req) {
        None => SpecResolution::NotFound,
        Some(p) => match t.spec_lookup(p) {
            Some(EntryKind::Dir) => {
                let ip = p.push(index_file_name());
                if t.spec_lookup(ip) is Some {
                    SpecResolution::ServeFile(ip)
                } else {
                    SpecResolution::ListDirectory(p)
                }
            },
            Some(EntryKind::File) => SpecResolution::ServeFile(p),
            None => {
                let rip = seq![index_file_name()];
                if spa && t.spec_lookup(rip) is Some {
                    SpecResolution::ServeFile(rip)
                } else {
                    SpecResolution::NotFound
                }
            },
        },
    }
}

/// Copies a segment list and appends one more segment.
fn push_segment(p: &Vec<String>, name: String) -> (r: Vec<String>)
    ensures
        r.deep_view() == p.deep_view().push(name@),
{
    let mut r: Vec<String> = Vec::new();
    let mut i: usize = 0;
    while i < p.len()
        invariant
            i <= p@.len(),
            r@ == p@.subrange(0, i as int),
        decreases p@.len() - i,
    {
        let ghost pre = r@;
        r.push(p[i].clone());
        proof {
            assert(r@ =~= p@.subrange(0, i + 1 as int));
        }
        i = i + 1;
    }
    proof {
        assert(r@ =~= p@);
    }
    r.push(name);
    proof {
        assert(r.deep_view() =~= p.deep_view().push(name@));
    }
    r
}

/// Resolves a request path against a snapshot of the served tree.
pub fn resolve(t: &FsTree, req: &str, spa: bool) -> (r: Resolution)
    requires
        t.wf(),
    ensures
        r@ == spec_resolve(*t, req@, spa),
{
    match request_segments(req) {
        None => Resolution::NotFound,
        Some(p) => {
            match t.lookup(&p) {
                Some(EntryKind::Dir) => {
                    let ip = push_segment(&p, String::from_str("index.html"));
                    if t.lookup(&ip).is_some() {
                        Resolution::ServeFile(ip)
                    } else {
                        Resolution::ListDirectory(p)
                    }
                },
                Some(EntryKind::File) => Resolution::ServeFile(p),
                None => {
                    if spa {
                        let rip = push_segment(&Vec::new(), String::from_str("index.html"));
                        proof {
                            assert(rip.deep_view() =~= seq![index_file_name()]);
                        }
                        if t.lookup(&rip).is_some() {
                            Resolution::ServeFile(rip)
                        } else {
                            Resolution::NotFound
                        }
                    } else {
                        Resolution::NotFound
                    }
                },
            }
        },
    }
}

/// Law: a request whose path names an existing regular file is answered with
/// exactly that file.
pub proof fn lemma_file_resolves_to_itself(t: FsTree, req: Seq<char>, spa: bool, p: Seq<Seq<char>>)
    requires
        spec_request_segments(req) == Some(p),
        t.spec_lookup(p) == Some(EntryKind::File),
    ensures
        spec_resolve(t, req, spa) == SpecResolution::ServeFile(p),
{
}

/// Law: a request for a directory that holds an index document is answered
/// with that index document, not with a listing.
pub proof fn lemma_directory_with_index_serves_index(
    t: FsTree,
    req: Seq<char>,
    spa: bool,
    p: Seq<Seq<char>>,
)
    requires
        spec_request_segments(req) == Some(p),
        t.spec_lookup(p) == Some(EntryKind::Dir),
        t.spec_lookup(p.push(index_file_name())) is Some,
    ensures
        spec_resolve(t, req, spa) == SpecResolution::ServeFile(p.push(index_file_name())),
{
}

/// Law: a request for a directory without an index document is answered with
/// a listing of that directory.
pub proof fn lemma_directory_without_index_lists(
    t: FsTree,
    req: Seq<char>,
    spa: bool,
    p: Seq<Seq<char>>,
)
    requires
        spec_request_segments(req) == Some(p),
        t.spec_lookup(p) == Some(EntryKind::Dir),
        t.spec_lookup(p.push(index_file_name())) is None,
    ensures
        spec_resolve(t, req, spa) == SpecResolution::ListDirectory(p),
{
}

/// Law: in single-page-application mode, an unmatched path is answered with
/// the root index document whenever one is present.
pub proof fn lemma_spa_falls_back_to_root_index(
    t: FsTree,
    req: Seq<char>,
    p: Seq<Seq<char>>,
)
    requires
        spec_request_segments(req) == Some(p),
        t.spec_lookup(p) is None,
        t.spec_lookup(seq![index_file_name()]) is Some,
    ensures
        spec_resolve(t, req, true) == SpecResolution::ServeFile(seq![index_file_name()]),
{
}

/// Law: with single-page-application mode off, an unmatched path is not
/// found, whether or not a root index document exists.
pub proof fn lemma_no_spa_unmatched_is_not_found(
    t: FsTree,
    req: Seq<char>,
    p: Seq<Seq<char>>,
)
    requires
        spec_request_segments(req) == Some(p),
        t.spec_lookup(p) is None,
    ensures
        spec_resolve(t, req, false) == SpecResolution::NotFound,
{
}

/// Law: a request path whose parent-traversal segments would escape the root
/// is not found, whatever the tree holds.
pub proof fn lemma_traversal_is_not_found(t: FsTree, req: Seq<char>, spa: bool)
    requires
        spec_request_segments(req) is None,
    ensures
        spec_resolve(t, req, spa) == SpecResolution::NotFound,
{
}

} // verus!
