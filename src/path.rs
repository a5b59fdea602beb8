use vstd::prelude::*;

verus! {

/// A filesystem path as the bundler sees it: whether it starts at the root,
/// and its components in order.
pub struct AssetPath {
    pub absolute: bool,
    pub parts: Vec<String>,
}

/// The characters of each component.
pub open spec fn parts_view(parts: Seq<String>) -> Seq<Seq<char>> {
    parts.map_values(|s: String| s@)
}

impl View for AssetPath {
    type V = (bool, Seq<Seq<char>>);

    open spec fn view(&self) -> (bool, Seq<Seq<char>>) {
        (self.absolute, parts_view(self.parts@))
    }
}

/// `p` lies under `root`: it starts at the same place and its components
/// begin with those of `root`.
pub open spec fn is_under(p: (bool, Seq<Seq<char>>), root: (bool, Seq<Seq<char>>)) -> bool {
    &&& p.0 == root.0
    &&& root.1.len() <= p.1.len()
    &&& p.1.subrange(0, root.1.len() as int) == root.1
}

/// The components of `p` that follow those of `root`.
pub open spec fn relative_parts(p: (bool, Seq<Seq<char>>), root: (bool, Seq<Seq<char>>)) -> Seq<
    Seq<char>,
> {
    p.1.subrange(root.1.len() as int, p.1.len() as int)
}

/// `p` with its last `n` components taken off (all of them when it has fewer).
pub open spec fn drop_last(p: (bool, Seq<Seq<char>>), n: nat) -> (bool, Seq<Seq<char>>) {
    if n >= p.1.len() {
        (p.0, Seq::empty())
    } else {
        (p.0, p.1.subrange(0, p.1.len() - n))
    }
}

/// Where the bundle goes for an executable at `exe`: the executable's own
/// directory, or two levels above it when the process runs inside a build
/// tool's scratch output (`out_dir` non-empty).
pub open spec fn exe_dir_of(exe: (bool, Seq<Seq<char>>), out_dir: Seq<char>) -> (bool, Seq<Seq<char>>) {
    if out_dir.len() == 0 {
        drop_last(exe, 1)
    } else {
        drop_last(exe, 3)
    }
}

proof fn lemma_parts_view_push(parts: Seq<String>, s: String)
    ensures
        parts_view(parts.push(s)) == parts_view(parts).push(s@),
{
    assert(parts_view(parts.push(s)) =~= parts_view(parts).push(s@));
}

fn clone_parts(parts: &Vec<String>) -> (r: Vec<String>)
    ensures
        parts_view(r@) == parts_view(parts@),
{
    let mut r: Vec<String> = Vec::new();
    let mut i: usize = 0;
    while i < parts.len()
        invariant
            i <= parts@.len(),
            parts_view(r@) == parts_view(parts@.subrange(0, i as int)),
        decreases parts@.len() - i,
    {
        let ghost prev = r@;
        let s = parts[i].clone();
        r.push(s);
        proof {
            assert(r@ == prev.push(parts@[i as int]));
            assert(parts_view(prev) == parts_view(parts@.subrange(0, i as int)));
            lemma_parts_view_push(prev, parts@[i as int]);
            assert(parts@.subrange(0, i + 1) == parts@.subrange(0, i as int).push(parts@[i as int]));
            lemma_parts_view_push(parts@.subrange(0, i as int), parts@[i as int]);
            assert(parts_view(r@) =~= parts_view(parts@.subrange(0, i + 1)));
        }
        i = i + 1;
    }
    assert(parts@.subrange(0, parts@.len() as int) == parts@);
    r
}

impl AssetPath {
    pub fn new(absolute: bool, parts: Vec<String>) -> (r: AssetPath)
        ensures
            r.absolute == absolute,
            r.parts@ == parts@,
    {
        AssetPath { absolute, parts }
    }

    pub fn duplicate(&self) -> (r: AssetPath)
        ensures
            r@ == self@,
    {
        AssetPath { absolute: self.absolute, parts: clone_parts(&self.parts) }
    }

    /// This path with one more component, `name`, at its end.
    pub fn join(&self, name: &String) -> (r: AssetPath)
        ensures
            r@ == (self@.0, self@.1.push(name@)),
    {
        let mut parts = clone_parts(&self.parts);
        parts.push(name.clone());
        proof {
            assert(parts_view(parts@) =~= parts_view(self.parts@).push(name@));
        }
        AssetPath { absolute: self.absolute, parts }
    }

    /// Takes off the last component, if there is one; says whether there was.
    pub fn pop(&mut self) -> (r: bool)
        ensures
            r == (old(self)@.1.len() > 0),
            final(self)@ == drop_last(old(self)@, 1),
    {
        if self.parts.len() == 0 {
            false
        } else {
            self.parts.pop();
            proof {
                assert(parts_view(self.parts@) =~= old(self)@.1.subrange(0, old(self)@.1.len() - 1));
            }
            true
        }
    }

    /// The components of this path after those of `prefix`; `None` when the
    /// path does not lie under `prefix`.
    pub fn strip_prefix(&self, prefix: &AssetPath) -> (r: Option<Vec<String>>)
        ensures
            r.is_some() == is_under(self@, prefix@),
            r.is_some() ==> parts_view(r.unwrap()@) == relative_parts(self@, prefix@),
    {
        if self.absolute != prefix.absolute || prefix.parts.len() > self.parts.len() {
            return None;
        }
        let n = prefix.parts.len();
        let mut i: usize = 0;
        while i < n
            invariant
                n == prefix.parts@.len(),
                n <= self.parts@.len(),
                i <= n,
                forall|j: int| 0 <= j < i ==> self.parts@[j]@ == prefix.parts@[j]@,
            decreases n - i,
        {
            if self.parts[i] != prefix.parts[i] {
                proof {
                    assert(self@.1[i as int] != prefix@.1[i as int]);
                    assert(self@.1.subrange(0, n as int)[i as int] != prefix@.1[i as int]);
                }
                return None;
            }
            i = i + 1;
        }
        assert(self@.1.subrange(0, n as int) =~= prefix@.1);
        let mut rest: Vec<String> = Vec::new();
        let mut k: usize = n;
        while k < self.parts.len()
            invariant
                n <= k <= self.parts@.len(),
                parts_view(rest@) == self@.1.subrange(n as int, k as int),
            decreases self.parts@.len() - k,
        {
            let ghost prev = rest@;
            rest.push(self.parts[k].clone());
            proof {
                assert(rest@ == prev.push(self.parts@[k as int]));
                assert(parts_view(prev) == self@.1.subrange(n as int, k as int));
                lemma_parts_view_push(prev, self.parts@[k as int]);
                assert(self@.1.subrange(n as int, k + 1) =~= self@.1.subrange(n as int, k as int).push(self@.1[k as int]));
                assert(parts_view(rest@) =~= self@.1.subrange(n as int, k + 1));
            }
            k = k + 1;
        }
        Some(rest)
    }
}

/// The directory that receives the bundle, from the running executable's path
/// and the build tool's output-directory signal (empty when absent).
pub fn exe_dir(exe: &AssetPath, out_dir: &str) -> (r: AssetPath)
    ensures
        r@ == exe_dir_of(exe@, out_dir@),
{
    let mut dir = exe.duplicate();
    dir.pop();
    if !out_dir.is_empty() {
        dir.pop();
        dir.pop();
    }
    proof {
        lemma_drop_last_thrice(exe@);
    }
    dir
}

proof fn lemma_drop_last_thrice(p: (bool, Seq<Seq<char>>))
    ensures
        drop_last(drop_last(drop_last(p, 1), 1), 1) == drop_last(p, 3),
{
    if p.1.len() >= 3 {
        assert(drop_last(drop_last(drop_last(p, 1), 1), 1).1 =~= drop_last(p, 3).1);
    }
}

/// A file at `root` followed by `rel` is archived under `rel`, wherever
/// `root` itself lies.
pub proof fn lemma_relative_path_preserved(root: (bool, Seq<Seq<char>>), rel: Seq<Seq<char>>)
    ensures
        is_under((root.0, root.1 + rel), root),
        relative_parts((root.0, root.1 + rel), root) == rel,
{
    assert((root.1 + rel).subrange(0, root.1.len() as int) =~= root.1);
    assert((root.1 + rel).subrange(root.1.len() as int, (root.1 + rel).len() as int) =~= rel);
}

} // verus!
