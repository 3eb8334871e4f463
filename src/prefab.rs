//! Named model files that scenes are built from.
use vstd::prelude::*;
use vstd::string::StrSliceExecFns;

verus! {

/// A model file known by name.
#[derive(Debug)]
pub struct Prefab {
    pub name: String,
    pub model_path: String,
}

impl Clone for Prefab {
    fn clone(&self) -> (r: Prefab)
        ensures
            r == *self,
    {
        Prefab { name: self.name.clone(), model_path: self.model_path.clone() }
    }
}

/// The prefabs available to a game.
pub struct PrefabList {
    pub prefabs: Vec<Prefab>,
}

/// No prefab before index `i` is called `name`.
pub open spec fn none_named_before(prefabs: Seq<Prefab>, name: Seq<char>, i: int) -> bool {
    forall|j: int| 0 <= j < i ==> #[trigger] prefabs[j].name@ != name
}

impl PrefabList {
    /// A copy of the first prefab called `name`, or `None` when there is none.
    pub fn get_prefab(&mut self, name: String) -> (r: Option<Prefab>)
        ensures
            *final(self) == *old(self),
            match r {
                Some(p) => exists|i: int|
                    0 <= i < old(self).prefabs@.len() && old(self).prefabs@[i].name@ == name@
                        && none_named_before(old(self).prefabs@, name@, i) && p == old(
                        self,
                    ).prefabs@[i],
                None => none_named_before(old(self).prefabs@, name@, old(self).prefabs@.len() as int),
            },
    {
        let mut i: usize = 0;
        while i < self.prefabs.len()
            invariant
                *self == *old(self),
                i <= self.prefabs@.len(),
                none_named_before(self.prefabs@, name@, i as int),
            decreases self.prefabs@.len() - i,
        {
            if self.prefabs[i].name == name {
                return Some(self.prefabs[i].clone());
            }
            i += 1;
        }
        None
    }
}

/// Where the last `/`-separated segment of `p[0..k]` starts: just after the
/// last `/`, or 0 when there is none.
pub open spec fn segment_start(p: Seq<char>, k: int) -> int
    decreases k,
{
    if k <= 0 {
        0
    } else if p[k - 1] == '/' {
        k
    } else {
        segment_start(p, k - 1)
    }
}

/// The part of a path after its last `/` (all of it when there is none).
pub open spec fn last_segment(p: Seq<char>) -> Seq<char> {
    p.subrange(segment_start(p, p.len() as int), p.len() as int)
}

/// The prefab for a model file: named by the last segment of its path.
pub fn prefab_from_path(path: String) -> (r: Prefab)
    ensures
        r.name@ == last_segment(path@),
        r.model_path == path,
{
    let s = path.as_str();
    let n = s.unicode_len();
    let mut i: usize = n;
    while i > 0 && s.get_char(i - 1) != '/'
        invariant
            i <= n,
            n == s@.len(),
            s@ == path@,
            segment_start(path@, n as int) == segment_start(path@, i as int),
        decreases i,
    {
        i -= 1;
    }
    let name = s.substring_char(i, n).to_owned();
    Prefab { name, model_path: path }
}

} // verus!
