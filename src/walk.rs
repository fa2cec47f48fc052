//! The depth-first walk that finds header boundary files.
//!
//! The walker holds a stack of directory listings with a cursor into each and
//! decides, one entry at a time, what to do next. Reading a directory is left
//! to the caller: when a step asks for a directory, the caller lists it and
//! hands the listing to [`Walker::enter`].

use crate::model::Duplicate;
use crate::text::str_eq;
use vstd::prelude::*;

verus! {

/// The file name that marks a directory as a header.
pub open spec fn marker_name() -> Seq<char> {
    seq!['m', 'e', 't', 'a', '.', 'y', 'a', 'm', 'l']
}

/// One entry of a directory listing.
#[derive(Debug)]
pub struct DirEntryInfo {
    /// The entry's full path.
    pub path: String,
    /// The last component of `path`.
    pub file_name: String,
    pub is_dir: bool,
}

pub type EntryView = (Seq<char>, Seq<char>, bool);

impl DeepView for DirEntryInfo {
    type V = EntryView;

    open spec fn deep_view(&self) -> EntryView {
        (self.path@, self.file_name@, self.is_dir)
    }
}

/// What the walk needs next.
#[derive(Debug)]
pub enum WalkStep {
    /// List this directory and hand the listing to `enter`.
    ReadDir(String),
    /// Step again.
    Continue,
    /// The walk is over.
    Done,
}

pub ghost enum WalkStepView {
    ReadDir(Seq<char>),
    Continue,
    Done,
}

impl DeepView for WalkStep {
    type V = WalkStepView;

    open spec fn deep_view(&self) -> WalkStepView {
        match self {
            WalkStep::ReadDir(p) => WalkStepView::ReadDir(p@),
            WalkStep::Continue => WalkStepView::Continue,
            WalkStep::Done => WalkStepView::Done,
        }
    }
}

#[derive(Debug)]
struct Frame {
    entries: Vec<DirEntryInfo>,
    next: usize,
}

/// The state of the walk: pending listings with cursors, every path seen, and
/// the boundary files found so far.
#[derive(Debug)]
pub struct Walker {
    frames: Vec<Frame>,
    visited: Vec<String>,
    found: Vec<String>,
}

pub ghost struct WalkerView {
    pub frames: Seq<(Seq<EntryView>, int)>,
    pub visited: Seq<Seq<char>>,
    pub found: Seq<Seq<char>>,
}

impl View for Walker {
    type V = WalkerView;

    closed spec fn view(&self) -> WalkerView {
        WalkerView {
            frames: self.frames@.map_values(|f: Frame| (f.entries.deep_view(), f.next as int)),
            visited: self.visited.deep_view(),
            found: self.found.deep_view(),
        }
    }
}

/// One decision of the walk.
pub open spec fn step_spec(v: WalkerView) -> (WalkerView, WalkStepView) {
    if v.frames.len() == 0 {
        (v, WalkStepView::Done)
    } else {
        let (es, n) = v.frames.last();
        if n >= es.len() {
            (WalkerView { frames: v.frames.drop_last(), ..v }, WalkStepView::Continue)
        } else {
            let e = es[n];
            let v1 = WalkerView { frames: v.frames.drop_last().push((es, n + 1)), ..v };
            if v.visited.contains(e.0) {
                (v1, WalkStepView::Continue)
            } else {
                let v2 = WalkerView { visited: v.visited.push(e.0), ..v1 };
                if e.2 {
                    (v2, WalkStepView::ReadDir(e.0))
                } else if e.1 == marker_name() {
                    (WalkerView { found: v.found.push(e.0), ..v2 }, WalkStepView::Continue)
                } else {
                    (v2, WalkStepView::Continue)
                }
            }
        }
    }
}

/// Every path found was seen, and no path was seen or found twice.
pub open spec fn walk_inv(v: WalkerView) -> bool {
    &&& v.visited.no_duplicates()
    &&& v.found.no_duplicates()
    &&& forall|i: int| 0 <= i < v.found.len() ==> v.visited.contains(#[trigger] v.found[i])
}

/// A step keeps the walk's invariant: a boundary file is never recorded twice.
pub proof fn lemma_step_keeps_inv(v: WalkerView)
    requires
        walk_inv(v),
    ensures
        walk_inv(step_spec(v).0),
{
    if v.frames.len() > 0 {
        let (es, n) = v.frames.last();
        if n < es.len() {
            let e = es[n];
            if !v.visited.contains(e.0) {
                let w = step_spec(v).0;
                assert forall|i: int| 0 <= i < w.found.len() implies w.visited.contains(
                    #[trigger] w.found[i],
                ) by {
                    if i < v.found.len() {
                        assert(v.visited.contains(v.found[i]));
                        let j = choose|j: int| 0 <= j < v.visited.len() && v.visited[j] == v.found[i];
                        assert(w.visited[j] == w.found[i]);
                    } else {
                        assert(w.visited[v.visited.len() as int] == e.0);
                    }
                }
                assert(w.visited.no_duplicates());
                assert forall|i: int, j: int|
                    0 <= i < w.found.len() && 0 <= j < w.found.len() && i != j implies w.found[i]
                    != w.found[j] by {
                    if i == v.found.len() && j < v.found.len() {
                        assert(v.visited.contains(v.found[j]));
                    } else if j == v.found.len() && i < v.found.len() {
                        assert(v.visited.contains(v.found[i]));
                    }
                }
            }
        }
    }
}

impl Walker {
    /// A walk over the listing of the root directory.
    pub fn new(root_listing: Vec<DirEntryInfo>) -> (r: Walker)
        ensures
            r@.frames == seq![(root_listing.deep_view(), 0int)],
            r@.visited == Seq::<Seq<char>>::empty(),
            r@.found == Seq::<Seq<char>>::empty(),
            walk_inv(r@),
    {
        let mut frames: Vec<Frame> = Vec::new();
        frames.push(Frame { entries: root_listing, next: 0 });
        let r = Walker { frames, visited: Vec::new(), found: Vec::new() };
        proof {
            assert(r@.frames =~= seq![(root_listing.deep_view(), 0int)]);
            assert(r@.visited =~= Seq::<Seq<char>>::empty());
            assert(r@.found =~= Seq::<Seq<char>>::empty());
        }
        r
    }

    /// Descends into a directory that the last step asked for.
    pub fn enter(&mut self, listing: Vec<DirEntryInfo>)
        ensures
            final(self)@ == (WalkerView {
                frames: old(self)@.frames.push((listing.deep_view(), 0int)),
                ..old(self)@
            }),
            walk_inv(old(self)@) ==> walk_inv(final(self)@),
    {
        self.frames.push(Frame { entries: listing, next: 0 });
        proof {
            assert(self@.frames =~= old(self)@.frames.push((listing.deep_view(), 0int)));
        }
    }

    fn seen(&self, path: &String) -> (r: bool)
        ensures
            r == self@.visited.contains(path@),
    {
        let ghost vv = self.visited.deep_view();
        let mut i: usize = 0;
        while i < self.visited.len()
            invariant
                i <= self.visited.len(),
                vv == self.visited.deep_view(),
                vv == self@.visited,
                forall|j: int| 0 <= j < i ==> vv[j] != path@,
            decreases self.visited.len() - i,
        {
            if str_eq(self.visited[i].as_str(), path.as_str()) {
                assert(vv[i as int] == path@);
                return true;
            }
            i = i + 1;
        }
        false
    }

    /// Takes the next entry of the innermost listing and decides on it: a
    /// directory not seen before is to be read, a boundary file not seen
    /// before is recorded, an exhausted listing is left.
    pub fn step(&mut self) -> (r: WalkStep)
        ensures
            (final(self)@, r.deep_view()) == step_spec(old(self)@),
            walk_inv(old(self)@) ==> walk_inv(final(self)@),
    {
        let ghost v = self@;
        proof {
            if walk_inv(v) {
                lemma_step_keeps_inv(v);
            }
        }
        if self.frames.len() == 0 {
            return WalkStep::Done;
        }
        let mut frame = self.frames.pop().unwrap();
        proof {
            assert(self@.frames =~= v.frames.drop_last());
        }
        if frame.next >= frame.entries.len() {
            return WalkStep::Continue;
        }
        let n = frame.next;
        let path = frame.entries[n].path.clone();
        let is_dir = frame.entries[n].is_dir;
        proof {
            reveal_strlit("meta.yaml");
        }
        let is_marker = str_eq(frame.entries[n].file_name.as_str(), "meta.yaml");
        proof {
            assert(frame.entries.deep_view()[n as int] == frame.entries@[n as int].deep_view());
            assert("meta.yaml"@ =~= marker_name());
        }
        frame.next = n + 1;
        self.frames.push(frame);
        proof {
            assert(self@.frames =~= v.frames.drop_last().push((v.frames.last().0, n + 1)));
        }
        if self.seen(&path) {
            return WalkStep::Continue;
        }
        self.visited.push(path.clone());
        proof {
            assert(self@.visited =~= v.visited.push(path@));
        }
        if is_dir {
            WalkStep::ReadDir(path)
        } else {
            if is_marker {
                self.found.push(path);
                proof {
                    assert(self@.found =~= v.found.push(path@));
                }
            }
            WalkStep::Continue
        }
    }

    /// The boundary files found, in the order the walk met them.
    pub fn found(&self) -> (r: Vec<String>)
        ensures
            r.deep_view() == self@.found,
    {
        self.found.duplicate()
    }
}

} // verus!
