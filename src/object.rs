//! Scene objects: how their textures are sampled, and selecting them by
//! their tags.
use vstd::prelude::*;

verus! {

/// How an object's texture is sampled when it is magnified or minified.
#[derive(Clone, Copy, Debug, PartialEq, Eq, Structural)]
pub enum TextureFilter {
    Nearest,
    Linear,
}

/// Some tag of `object_tags` is one of `wanted`.
pub open spec fn has_any_tag(object_tags: Seq<String>, wanted: Seq<String>) -> bool {
    exists|i: int, j: int|
        0 <= i < object_tags.len() && 0 <= j < wanted.len() && #[trigger] object_tags[i]@ == #[trigger] wanted[j]@
}

/// Indices below `n`, in increasing order, of the objects that carry one of
/// the `wanted` tags.
pub open spec fn tagged_below(objects: Seq<Vec<String>>, wanted: Seq<String>, n: nat) -> Seq<usize>
    decreases n,
{
    if n == 0 {
        seq![]
    } else {
        let k = (n - 1) as nat;
        tagged_below(objects, wanted, k) + if has_any_tag(objects[k as int]@, wanted) {
            seq![k as usize]
        } else {
            seq![]
        }
    }
}

/// Whether `tags` holds a tag equal to `tag`.
fn holds_tag(tags: &Vec<String>, tag: &String) -> (r: bool)
    ensures
        r == exists|i: int| 0 <= i < tags@.len() && #[trigger] tags@[i]@ == tag@,
{
    let mut i: usize = 0;
    while i < tags.len()
        invariant
            i <= tags@.len(),
            forall|j: int| 0 <= j < i ==> #[trigger] tags@[j]@ != tag@,
        decreases tags@.len() - i,
    {
        if tags[i] == *tag {
            return true;
        }
        i += 1;
    }
    false
}

/// Indices of the objects, given by their tag lists, that carry at least
/// one of the `wanted` tags: in order, each object once.
pub fn objects_with_tags(objects: &Vec<Vec<String>>, wanted: &Vec<String>) -> (r: Vec<usize>)
    ensures
        r@ == tagged_below(objects@, wanted@, objects@.len()),
{
    let mut found: Vec<usize> = Vec::new();
    let mut k: usize = 0;
    while k < objects.len()
        invariant
            k <= objects@.len(),
            found@ == tagged_below(objects@, wanted@, k as nat),
        decreases objects@.len() - k,
    {
        let tags = &objects[k];
        let mut j: usize = 0;
        let mut hit = false;
        while j < wanted.len() && !hit
            invariant
                j <= wanted@.len(),
                k < objects@.len(),
                tags == objects@[k as int],
                hit ==> has_any_tag(tags@, wanted@),
                !hit ==> forall|a: int, b: int|
                    0 <= a < tags@.len() && 0 <= b < j ==> #[trigger] tags@[a]@ != #[trigger] wanted@[b]@,
            decreases wanted@.len() - j + if hit { 0int } else { 1int },
        {
            if holds_tag(tags, &wanted[j]) {
                hit = true;
            } else {
                j += 1;
            }
        }
        assert(hit == has_any_tag(tags@, wanted@));
        if hit {
            found.push(k);
        }
        assert(found@ =~= tagged_below(objects@, wanted@, (k + 1) as nat));
        k += 1;
    }
    found
}

} // verus!
