use vstd::prelude::*;

use crate::path::{is_under, parts_view, relative_parts, AssetPath};

verus! {

/// One entry of a directory listing.
pub struct DirEntryInfo {
    pub name: String,
    pub is_dir: bool,
}

/// A path as seen in contracts, and whether it names a directory.
pub type Pending = ((bool, Seq<Seq<char>>), bool);

/// The entries of a listing of `dir`, as full paths.
pub open spec fn listed(dir: (bool, Seq<Seq<char>>), entries: Seq<DirEntryInfo>) -> Seq<Pending> {
    entries.map_values(|e: DirEntryInfo| ((dir.0, dir.1.push(e.name@)), e.is_dir))
}

/// A directory being walked: its listing and how far the walk has come.
struct Frame {
    dir: AssetPath,
    entries: Vec<DirEntryInfo>,
    next: usize,
}

spec fn frame_rest(f: Frame) -> Seq<Pending> {
    listed(f.dir@, f.entries@.subrange(f.next as int, f.entries@.len() as int))
}

/// What is still to be visited, innermost directory first.
spec fn stack_rest(frames: Seq<Frame>) -> Seq<Pending>
    decreases frames.len(),
{
    if frames.len() == 0 {
        Seq::empty()
    } else {
        frame_rest(frames.last()) + stack_rest(frames.drop_last())
    }
}

/// Depth-first walk of an asset root, in listing order, over an explicit
/// stack. The caller lists each directory the walk asks for; the walk says
/// which files to archive and under which name. A walk made by `new` is
/// well-formed, and `next` and `descend` keep it so.
pub struct ArchiveWalk {
    root: AssetPath,
    stack: Vec<Frame>,
    awaiting: Option<AssetPath>,
}

/// The next thing to do in a walk.
pub enum WalkStep {
    /// Every entry has been visited.
    Done,
    /// List this directory and hand the listing to `descend`.
    Descend(AssetPath),
    /// Archive the file at `source` under `name_in_archive`.
    File { source: AssetPath, name_in_archive: Vec<String> },
}

impl ArchiveWalk {
    /// Every directory on the stack lies under the root, as does the one
    /// awaited.
    pub closed spec fn wf(&self) -> bool {
        &&& forall|i: int|
            0 <= i < self.stack@.len() ==> is_under(#[trigger] self.stack@[i].dir@, self.root@)
                && self.stack@[i].next <= self.stack@[i].entries@.len()
        &&& self.awaiting is Some ==> is_under(self.awaiting.unwrap()@, self.root@)
    }

    /// The directory whose contents are archived.
    pub closed spec fn root_view(&self) -> (bool, Seq<Seq<char>>) {
        self.root@
    }

    /// Entries still to be visited, in the order the walk takes them.
    pub closed spec fn todo(&self) -> Seq<Pending> {
        stack_rest(self.stack@)
    }

    /// The directory whose listing the walk waits for, if any.
    pub closed spec fn awaiting_view(&self) -> Option<(bool, Seq<Seq<char>>)> {
        match self.awaiting {
            Some(p) => Some(p@),
            None => None,
        }
    }
}

proof fn lemma_under_self(root: (bool, Seq<Seq<char>>))
    ensures
        is_under(root, root),
{
    assert(root.1.subrange(0, root.1.len() as int) =~= root.1);
}

proof fn lemma_under_join(p: (bool, Seq<Seq<char>>), root: (bool, Seq<Seq<char>>), name: Seq<char>)
    requires
        is_under(p, root),
    ensures
        is_under((p.0, p.1.push(name)), root),
        relative_parts((p.0, p.1.push(name)), root) == relative_parts(p, root).push(name),
{
    assert(p.1.push(name).subrange(0, root.1.len() as int) =~= p.1.subrange(0, root.1.len() as int));
    assert(relative_parts((p.0, p.1.push(name)), root) =~= relative_parts(p, root).push(name));
}

proof fn lemma_stack_rest_push(frames: Seq<Frame>, f: Frame)
    ensures
        stack_rest(frames.push(f)) == frame_rest(f) + stack_rest(frames),
{
    assert(frames.push(f).drop_last() =~= frames);
}

proof fn lemma_frame_advance(f: Frame, g: Frame)
    requires
        f.next < f.entries@.len(),
        g.dir == f.dir,
        g.entries == f.entries,
        g.next == f.next + 1,
    ensures
        frame_rest(f).len() > 0,
        frame_rest(g) == frame_rest(f).drop_first(),
        frame_rest(f)[0] == (
            (f.dir@.0, f.dir@.1.push(f.entries@[f.next as int].name@)),
            f.entries@[f.next as int].is_dir,
        ),
{
    let n = f.entries@.len() as int;
    assert(f.entries@.subrange(g.next as int, n) =~= f.entries@.subrange(f.next as int, n).drop_first());
    assert(frame_rest(g) =~= frame_rest(f).drop_first());
}

/// Every entry of a listing of the directory at `root` followed by `rel` is
/// named `rel` followed by the entry's own name, wherever `root` lies: two
/// roots holding the same tree give the same names.
pub proof fn lemma_listing_names_independent_of_root(
    root1: (bool, Seq<Seq<char>>),
    root2: (bool, Seq<Seq<char>>),
    rel: Seq<Seq<char>>,
    entries: Seq<DirEntryInfo>,
)
    ensures
        forall|i: int|
            0 <= i < entries.len() ==> {
                let e1 = #[trigger] listed((root1.0, root1.1 + rel), entries)[i];
                let e2 = listed((root2.0, root2.1 + rel), entries)[i];
                &&& is_under(e1.0, root1)
                &&& is_under(e2.0, root2)
                &&& relative_parts(e1.0, root1) == rel.push(entries[i].name@)
                &&& relative_parts(e2.0, root2) == rel.push(entries[i].name@)
                &&& e1.1 == e2.1
            },
{
    assert forall|i: int| 0 <= i < entries.len() implies {
        let e1 = #[trigger] listed((root1.0, root1.1 + rel), entries)[i];
        let e2 = listed((root2.0, root2.1 + rel), entries)[i];
        &&& is_under(e1.0, root1)
        &&& is_under(e2.0, root2)
        &&& relative_parts(e1.0, root1) == rel.push(entries[i].name@)
        &&& relative_parts(e2.0, root2) == rel.push(entries[i].name@)
        &&& e1.1 == e2.1
    } by {
        let name = entries[i].name@;
        crate::path::lemma_relative_path_preserved(root1, rel);
        crate::path::lemma_relative_path_preserved(root2, rel);
        lemma_under_join((root1.0, root1.1 + rel), root1, name);
        lemma_under_join((root2.0, root2.1 + rel), root2, name);
    }
}

impl ArchiveWalk {
    /// Starts a walk of `root`, whose listing is `listing`.
    pub fn new(root: AssetPath, listing: Vec<DirEntryInfo>) -> (r: ArchiveWalk)
        ensures
            r.wf(),
            r.root_view() == root@,
            r.todo() == listed(root@, listing@),
            r.awaiting_view() is None,
    {
        let dir = root.duplicate();
        let frame = Frame { dir, entries: listing, next: 0 };
        let mut stack: Vec<Frame> = Vec::new();
        stack.push(frame);
        proof {
            lemma_under_self(root@);
            lemma_stack_rest_push(Seq::empty(), frame);
            assert(listing@.subrange(0, listing@.len() as int) =~= listing@);
            assert(stack_rest(stack@) =~= listed(root@, listing@));
        }
        ArchiveWalk { root, stack, awaiting: None }
    }

    /// Hands over the listing of the directory that the last step asked for;
    /// its entries are visited before what was left.
    pub fn descend(&mut self, listing: Vec<DirEntryInfo>)
        requires
            old(self).wf(),
        ensures
            final(self).wf(),
            final(self).root_view() == old(self).root_view(),
            final(self).awaiting_view() is None,
            match old(self).awaiting_view() {
                Some(d) => final(self).todo() == listed(d, listing@) + old(self).todo(),
                None => final(self).todo() == old(self).todo(),
            },
    {
        let awaiting = self.awaiting.take();
        match awaiting {
            Some(dir) => {
                let ghost d = dir@;
                let frame = Frame { dir, entries: listing, next: 0 };
                proof {
                    lemma_stack_rest_push(self.stack@, frame);
                    assert(listing@.subrange(0, listing@.len() as int) =~= listing@);
                }
                self.stack.push(frame);
                assert(frame_rest(frame) == listed(d, listing@));
            },
            None => {},
        }
    }

    /// Takes the next entry in depth-first listing order.
    pub fn next(&mut self) -> (r: WalkStep)
        requires
            old(self).wf(),
        ensures
            final(self).wf(),
            final(self).root_view() == old(self).root_view(),
            old(self).todo().len() == 0 ==> r is Done && final(self).todo() == old(self).todo(),
            old(self).todo().len() > 0 ==> final(self).todo() == old(self).todo().drop_first(),
            old(self).todo().len() > 0 && old(self).todo()[0].1 ==> (r matches WalkStep::Descend(d)
                && d@ == old(self).todo()[0].0 && final(self).awaiting_view() == Some(d@)),
            old(self).todo().len() > 0 && !old(self).todo()[0].1 ==> (r matches WalkStep::File {
                source,
                name_in_archive,
            } && source@ == old(self).todo()[0].0 && is_under(source@, old(self).root_view())
                && parts_view(name_in_archive@) == relative_parts(source@, old(self).root_view())
                && final(self).awaiting_view() == old(self).awaiting_view()),
    {
        loop
            invariant
                self.wf(),
                self.root == old(self).root,
                self.awaiting == old(self).awaiting,
                stack_rest(self.stack@) == old(self).todo(),
            decreases self.stack@.len(),
        {
            if self.stack.len() == 0 {
                return WalkStep::Done;
            }
            let ghost frames = self.stack@;
            let mut f = self.stack.pop().unwrap();
            proof {
                assert(frames == self.stack@.push(f));
                lemma_stack_rest_push(self.stack@, f);
                assert(is_under(frames[frames.len() - 1].dir@, self.root@));
            }
            if f.next < f.entries.len() {
                let ghost f0 = f;
                let i = f.next;
                f.next = i + 1;
                let path = f.dir.join(&f.entries[i].name);
                let is_dir = f.entries[i].is_dir;
                proof {
                    lemma_frame_advance(f0, f);
                    lemma_stack_rest_push(self.stack@, f);
                    lemma_under_join(f.dir@, self.root@, f.entries@[i as int].name@);
                }
                self.stack.push(f);
                if is_dir {
                    self.awaiting = Some(path.duplicate());
                    return WalkStep::Descend(path);
                } else {
                    match path.strip_prefix(&self.root) {
                        Some(name_in_archive) => {
                            return WalkStep::File { source: path, name_in_archive };
                        },
                        None => {
                            assert(false);
                            return WalkStep::Done;
                        },
                    }
                }
            } else {
                proof {
                    assert(f.entries@.subrange(f.next as int, f.entries@.len() as int).len() == 0);
                    assert(frame_rest(f) =~= Seq::<Pending>::empty());
                    assert(stack_rest(frames) =~= stack_rest(self.stack@));
                }
            }
        }
    }
}

} // verus!
