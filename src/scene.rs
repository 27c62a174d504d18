use vstd::prelude::*;

verus! {

broadcast use vstd::seq_lib::group_to_multiset_ensures;

/// No member of the scene was hit: every entry is `None`.
///
/// Throughout this module, entry `i` of `keys` stands for member `i` of the
/// scene, in the order the members were added: `None` where the ray misses it
/// in the query interval, otherwise the order key of the parameter `t` of its
/// nearest admissible hit. Keys order as the parameters do, so a smaller key is
/// a nearer hit.
pub open spec fn no_hit(keys: Seq<Option<u64>>) -> bool {
    forall|j: int| 0 <= j < keys.len() ==> #[trigger] keys[j] is None
}

/// Member `i` holds the hit that the scene reports: it was hit, no member was
/// hit nearer, and of the members hit as near it comes first.
pub open spec fn is_nearest(keys: Seq<Option<u64>>, i: int) -> bool {
    &&& 0 <= i < keys.len()
    &&& keys[i] is Some
    &&& forall|j: int|
        0 <= j < keys.len() && #[trigger] keys[j] is Some ==> keys[i]->0 <= keys[j]->0
    &&& forall|j: int| 0 <= j < i && #[trigger] keys[j] is Some ==> keys[i]->0 < keys[j]->0
}

/// The member whose hit the scene reports, or `None` where no member was hit.
///
/// This is a closest-hit reduction over the whole scene, not a first-hit
/// search: the member returned has the smallest key of all members that were
/// hit, wherever it stands.
pub fn nearest_hit(keys: &Vec<Option<u64>>) -> (nearest: Option<usize>)
    ensures
        nearest is None <==> no_hit(keys@),
        nearest matches Some(i) ==> is_nearest(keys@, i as int),
{
    let mut best: Option<(usize, u64)> = None;
    let mut i: usize = 0;
    while i < keys.len()
        invariant
            i <= keys@.len(),
            best is None ==> forall|j: int| 0 <= j < i ==> #[trigger] keys@[j] is None,
            best matches Some((b, k)) ==> {
                &&& b < i
                &&& keys@[b as int] == Some(k)
                &&& forall|j: int|
                    0 <= j < i && #[trigger] keys@[j] is Some ==> k <= keys@[j]->0
                &&& forall|j: int| 0 <= j < b && #[trigger] keys@[j] is Some ==> k < keys@[j]->0
            },
        decreases keys@.len() - i,
    {
        if let Some(t) = keys[i] {
            match best {
                None => {
                    best = Some((i, t));
                },
                Some((_, k)) => {
                    if t < k {
                        best = Some((i, t));
                    }
                },
            }
        }
        i = i + 1;
    }
    match best {
        None => None,
        Some((b, _)) => Some(b),
    }
}

/// The order of the members does not change what the scene reports: two
/// scenes whose members are the same up to order are both missed or both hit,
/// and where they are hit, the nearest hit lies at the same parameter.
pub proof fn lemma_nearest_order_free(a: Seq<Option<u64>>, b: Seq<Option<u64>>)
    requires
        a.to_multiset() == b.to_multiset(),
    ensures
        no_hit(a) <==> no_hit(b),
        forall|i: int, j: int| is_nearest(a, i) && is_nearest(b, j) ==> a[i] == b[j],
{
    lemma_entries_shared(a, b);
    lemma_entries_shared(b, a);
    assert forall|i: int, j: int| is_nearest(a, i) && is_nearest(b, j) implies a[i] == b[j] by {
        let m = choose|m: int| 0 <= m < b.len() && b[m] == a[i];
        let n = choose|n: int| 0 <= n < a.len() && a[n] == b[j];
        assert(b[m] is Some);
        assert(a[n] is Some);
    }
}

/// Every entry of `a` stands somewhere in `b` when the two hold the same
/// entries up to order.
proof fn lemma_entries_shared(a: Seq<Option<u64>>, b: Seq<Option<u64>>)
    requires
        a.to_multiset() == b.to_multiset(),
    ensures
        forall|i: int| 0 <= i < a.len() ==> b.contains(#[trigger] a[i]),
        no_hit(b) ==> no_hit(a),
{
    assert forall|i: int| 0 <= i < a.len() implies b.contains(#[trigger] a[i]) by {
        assert(a.contains(a[i]));
        assert(a.to_multiset().count(a[i]) > 0);
        assert(b.to_multiset().count(a[i]) > 0);
    }
    if no_hit(b) {
        assert forall|i: int| 0 <= i < a.len() implies #[trigger] a[i] is None by {
            assert(b.contains(a[i]));
        }
    }
}

} // verus!
