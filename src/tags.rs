//! The active tag set and the test that decides whether an entry runs.
use vstd::prelude::*;

verus! {

/// The views of a list of strings.
pub open spec fn views(v: Seq<String>) -> Seq<Seq<char>> {
    v.map_values(|s: String| s@)
}

/// `tags` and `active` share a tag.
pub open spec fn shares_tag(tags: Seq<Seq<char>>, active: Seq<Seq<char>>) -> bool {
    exists|i: int, j: int| 0 <= i < tags.len() && 0 <= j < active.len() && tags[i] == active[j]
}

/// An entry runs when it has no tags or shares one with the active set.
pub open spec fn spec_is_active(tags: Seq<Seq<char>>, active: Seq<Seq<char>>) -> bool {
    tags.len() == 0 || shares_tag(tags, active)
}

/// The active tag set: the configured defaults, then the extra tags, in order.
pub fn merge_tags(default_tags: &Vec<String>, extra: Option<&Vec<String>>) -> (r: Vec<String>)
    ensures
        views(r@) == views(default_tags@) + match extra {
            Some(e) => views(e@),
            None => Seq::empty(),
        },
{
    let mut r: Vec<String> = Vec::new();
    let mut i: usize = 0;
    while i < default_tags.len()
        invariant
            i <= default_tags@.len(),
            r@.len() == i,
            forall|k: int| 0 <= k < i ==> r@[k]@ == default_tags@[k]@,
        decreases default_tags@.len() - i,
    {
        r.push(default_tags[i].clone());
        i += 1;
    }
    let ghost n = default_tags@.len();
    if let Some(e) = extra {
        let mut j: usize = 0;
        while j < e.len()
            invariant
                j <= e@.len(),
                r@.len() == n + j,
                forall|k: int| 0 <= k < n ==> r@[k]@ == default_tags@[k]@,
                forall|k: int| 0 <= k < j ==> r@[n + k]@ == e@[k]@,
            decreases e@.len() - j,
        {
            r.push(e[j].clone());
            j += 1;
        }
        assert(views(r@) =~= views(default_tags@) + views(e@));
    } else {
        assert(views(r@) =~= views(default_tags@) + Seq::empty());
    }
    r
}

/// Whether `tag` occurs in `set`.
fn contains_tag(set: &Vec<String>, tag: &String) -> (r: bool)
    ensures
        r == exists|j: int| 0 <= j < set@.len() && views(set@)[j] == tag@,
{
    let mut j: usize = 0;
    while j < set.len()
        invariant
            j <= set@.len(),
            forall|k: int| 0 <= k < j ==> views(set@)[k] != tag@,
        decreases set@.len() - j,
    {
        assert(views(set@)[j as int] == set@[j as int]@);
        if set[j] == *tag {
            return true;
        }
        j += 1;
    }
    false
}

/// Whether an entry with `tags` runs under the active tag set `active`.
pub fn is_active(tags: &Vec<String>, active: &Vec<String>) -> (r: bool)
    ensures
        r == spec_is_active(views(tags@), views(active@)),
{
    if tags.len() == 0 {
        return true;
    }
    let mut i: usize = 0;
    while i < tags.len()
        invariant
            i <= tags@.len(),
            forall|k: int, j: int|
                0 <= k < i && 0 <= j < active@.len() ==> views(tags@)[k] != views(active@)[j],
        decreases tags@.len() - i,
    {
        if contains_tag(active, &tags[i]) {
            assert(views(tags@)[i as int] == tags@[i as int]@);
            return true;
        }
        i += 1;
    }
    false
}

/// An entry without tags is active under every active tag set, the empty one too.
pub proof fn lemma_untagged_always_active(tags: Seq<Seq<char>>, active: Seq<Seq<char>>)
    requires
        tags.len() == 0,
    ensures
        spec_is_active(tags, active),
{
}

/// An entry with tags is active exactly when one of them is in the active set.
pub proof fn lemma_tagged_active_iff_shared(tags: Seq<Seq<char>>, active: Seq<Seq<char>>)
    requires
        tags.len() > 0,
    ensures
        spec_is_active(tags, active) <==> exists|t: Seq<char>|
            tags.contains(t) && active.contains(t),
{
    if spec_is_active(tags, active) {
        let (i, j) = choose|i: int, j: int|
            0 <= i < tags.len() && 0 <= j < active.len() && tags[i] == active[j];
        assert(tags.contains(tags[i]) && active.contains(tags[i]));
    }
    if exists|t: Seq<char>| tags.contains(t) && active.contains(t) {
        let t = choose|t: Seq<char>| tags.contains(t) && active.contains(t);
        let i = choose|i: int| 0 <= i < tags.len() && tags[i] == t;
        let j = choose|j: int| 0 <= j < active.len() && active[j] == t;
        assert(tags[i] == active[j]);
    }
}

/// Merging the default tags with the extra ones gives a set in which a tag is
/// shared exactly when it is shared with either part: the order of the parts
/// does not matter to filtering.
pub proof fn lemma_merge_is_union(
    tags: Seq<Seq<char>>,
    defaults: Seq<Seq<char>>,
    extra: Seq<Seq<char>>,
)
    ensures
        spec_is_active(tags, defaults + extra) <==> (tags.len() == 0 || shares_tag(tags, defaults)
            || shares_tag(tags, extra)),
        spec_is_active(tags, defaults + extra) == spec_is_active(tags, extra + defaults),
{
    let m = defaults + extra;
    let n = extra + defaults;
    if shares_tag(tags, m) {
        let (i, j) = choose|i: int, j: int|
            0 <= i < tags.len() && 0 <= j < m.len() && tags[i] == m[j];
        if j < defaults.len() {
            assert(tags[i] == defaults[j]);
            assert(tags[i] == n[extra.len() + j]);
        } else {
            assert(tags[i] == extra[j - defaults.len()]);
            assert(tags[i] == n[j - defaults.len()]);
        }
    }
    if shares_tag(tags, defaults) {
        let (i, j) = choose|i: int, j: int|
            0 <= i < tags.len() && 0 <= j < defaults.len() && tags[i] == defaults[j];
        assert(tags[i] == m[j]);
        assert(tags[i] == n[extra.len() + j]);
    }
    if shares_tag(tags, extra) {
        let (i, j) = choose|i: int, j: int|
            0 <= i < tags.len() && 0 <= j < extra.len() && tags[i] == extra[j];
        assert(tags[i] == m[defaults.len() + j]);
        assert(tags[i] == n[j]);
    }
    if shares_tag(tags, n) {
        let (i, j) = choose|i: int, j: int|
            0 <= i < tags.len() && 0 <= j < n.len() && tags[i] == n[j];
        if j < extra.len() {
            assert(tags[i] == extra[j]);
            assert(tags[i] == m[defaults.len() + j]);
        } else {
            assert(tags[i] == defaults[j - extra.len()]);
            assert(tags[i] == m[j - extra.len()]);
        }
    }
}

} // verus!
