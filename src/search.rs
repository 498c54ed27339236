use vstd::prelude::*;

verus! {

/// Whether `tags` holds a tag equal to `t`.
pub open spec fn has_tag(tags: Seq<String>, t: Seq<char>) -> bool {
    exists|i: int| 0 <= i < tags.len() && (#[trigger] tags[i])@ == t
}

/// Whether `tags` holds every tag of `query`.
pub open spec fn has_all(query: Seq<String>, tags: Seq<String>) -> bool {
    forall|j: int| 0 <= j < query.len() ==> has_tag(tags, (#[trigger] query[j])@)
}

/// Whether `tags` holds at least one tag of `query`.
pub open spec fn has_any(query: Seq<String>, tags: Seq<String>) -> bool {
    exists|j: int| 0 <= j < query.len() && has_tag(tags, (#[trigger] query[j])@)
}

/// Whether an item with `tags` is a hit of the query, strictly (every tag)
/// or loosely (at least one tag).
pub open spec fn is_hit(query: Seq<String>, tags: Seq<String>, strict: bool) -> bool {
    if strict { has_all(query, tags) } else { has_any(query, tags) }
}

/// The identifiers of the hits among `items`, each an identifier and its
/// tags, in the order of `items`.
pub open spec fn hits(query: Seq<String>, items: Seq<(String, Vec<String>)>, strict: bool) -> Seq<String>
    decreases items.len(),
{
    if items.len() == 0 {
        Seq::empty()
    } else {
        let rest = hits(query, items.drop_last(), strict);
        if is_hit(query, items.last().1@, strict) {
            rest.push(items.last().0)
        } else {
            rest
        }
    }
}

/// Whether `tags` holds `tag`.
pub fn contains_tag(tags: &Vec<String>, tag: &String) -> (r: bool)
    ensures
        r == has_tag(tags@, tag@),
{
    let mut i: usize = 0;
    while i < tags.len()
        invariant
            i <= tags@.len(),
            forall|k: int| 0 <= k < i ==> (#[trigger] tags@[k])@ != tag@,
        decreases tags@.len() - i,
    {
        if tags[i] == *tag {
            return true;
        }
        i = i + 1;
    }
    false
}

/// Whether `tags` is a hit of the query.
pub fn matches(query: &Vec<String>, tags: &Vec<String>, strict: bool) -> (r: bool)
    ensures
        r == is_hit(query@, tags@, strict),
{
    let mut i: usize = 0;
    while i < query.len()
        invariant
            i <= query@.len(),
            strict ==> forall|k: int| 0 <= k < i ==> has_tag(tags@, (#[trigger] query@[k])@),
            !strict ==> forall|k: int| 0 <= k < i ==> !has_tag(tags@, (#[trigger] query@[k])@),
        decreases query@.len() - i,
    {
        let found = contains_tag(tags, &query[i]);
        if strict && !found {
            return false;
        }
        if !strict && found {
            return true;
        }
        i = i + 1;
    }
    strict
}

fn search_by(query: &Vec<String>, items: &Vec<(String, Vec<String>)>, strict: bool) -> (r: Vec<String>)
    ensures
        r@ == hits(query@, items@, strict),
{
    let mut out: Vec<String> = Vec::new();
    let mut i: usize = 0;
    while i < items.len()
        invariant
            i <= items@.len(),
            out@ == hits(query@, items@.subrange(0, i as int), strict),
        decreases items@.len() - i,
    {
        let ghost prefix = items@.subrange(0, i as int);
        let ghost next = items@.subrange(0, i as int + 1);
        assert(next.drop_last() =~= prefix);
        if matches(query, &items[i].1, strict) {
            out.push(items[i].0.clone());
        }
        i = i + 1;
    }
    assert(items@.subrange(0, items@.len() as int) =~= items@);
    out
}

/// The identifiers of the items that hold every tag of `query`, in order.
pub fn search_strict(query: &Vec<String>, items: &Vec<(String, Vec<String>)>) -> (r: Vec<String>)
    ensures
        r@ == hits(query@, items@, true),
{
    search_by(query, items, true)
}

/// The identifiers of the items that hold at least one tag of `query`, in
/// order.
pub fn search(query: &Vec<String>, items: &Vec<(String, Vec<String>)>) -> (r: Vec<String>)
    ensures
        r@ == hits(query@, items@, false),
{
    search_by(query, items, false)
}

/// A strict search returns exactly the identifiers of the items that hold
/// every tag of the query, and a loose search exactly those of the items that
/// hold at least one.
pub proof fn search_semantics(query: Seq<String>, items: Seq<(String, Vec<String>)>, strict: bool)
    ensures
        forall|x: String| #[trigger] hits(query, items, strict).contains(x) <==> exists|i: int|
            0 <= i < items.len() && (#[trigger] items[i]).0 == x && is_hit(query, items[i].1@, strict),
    decreases items.len(),
{
    if items.len() > 0 {
        let prev = items.drop_last();
        search_semantics(query, prev, strict);
        let last = (items.len() - 1) as int;
        assert forall|x: String| #[trigger] hits(query, items, strict).contains(x) <==> exists|i: int|
            0 <= i < items.len() && (#[trigger] items[i]).0 == x && is_hit(query, items[i].1@, strict) by {
            let rest = hits(query, prev, strict);
            if hits(query, items, strict).contains(x) {
                if rest.contains(x) {
                    let i = choose|i: int| 0 <= i < prev.len() && (#[trigger] prev[i]).0 == x && is_hit(query, prev[i].1@, strict);
                    assert(items[i] == prev[i]);
                } else {
                    assert(is_hit(query, items[last].1@, strict));
                    let k = choose|k: int| 0 <= k < hits(query, items, strict).len() && hits(query, items, strict)[k] == x;
                    assert(k == rest.len());
                    assert(items[last].0 == x);
                }
            }
            if exists|i: int| 0 <= i < items.len() && (#[trigger] items[i]).0 == x && is_hit(query, items[i].1@, strict) {
                let i = choose|i: int| 0 <= i < items.len() && (#[trigger] items[i]).0 == x && is_hit(query, items[i].1@, strict);
                if i < last {
                    assert(prev[i] == items[i]);
                    assert(rest.contains(x));
                    let k = choose|k: int| 0 <= k < rest.len() && rest[k] == x;
                    assert(hits(query, items, strict)[k] == x);
                } else {
                    assert(hits(query, items, strict) == rest.push(x));
                    assert(hits(query, items, strict)[rest.len() as int] == x);
                }
            }
        }
    }
}

} // verus!
