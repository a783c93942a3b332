use vstd::prelude::*;

use crate::game::GameObjectType;

verus! {

/// `p` comes before `q` in row-major order.
pub open spec fn pair_before(p: (usize, usize), q: (usize, usize)) -> bool {
    p.0 < q.0 || (p.0 == q.0 && p.1 < q.1)
}

/// The pairs in `ps` are in strictly increasing row-major order, so none
/// repeats.
pub open spec fn strictly_ordered(ps: Seq<(usize, usize)>) -> bool {
    forall|a: int, b: int| 0 <= a < b < ps.len() ==> pair_before(#[trigger] ps[a], #[trigger] ps[b])
}

/// The game pairs worth testing: ball against paddle or wall, paddle
/// against wall, with the first body of the pair the moving one.
pub open spec fn pong_pair(a: Option<GameObjectType>, b: Option<GameObjectType>) -> bool {
    ||| a == Some(GameObjectType::Ball) && (b == Some(GameObjectType::Paddle) || b == Some(
        GameObjectType::Wall,
    ))
    ||| a == Some(GameObjectType::Paddle) && b == Some(GameObjectType::Wall)
}

/// The candidate pairs of the game-specialised broad phase over bodies of
/// roles `kinds`.
pub open spec fn is_pong_candidate(kinds: Seq<Option<GameObjectType>>, p: (usize, usize)) -> bool {
    p.0 < kinds.len() && p.1 < kinds.len() && p.0 != p.1 && pong_pair(kinds[p.0 as int], kinds[p.1 as int])
}

/// Every candidate pair of the general broad phase over `n` bodies.
pub open spec fn is_unordered_pair(n: nat, p: (usize, usize)) -> bool {
    p.0 < p.1 && p.1 < n
}

/// The pairs the game-specialised broad phase tests, in the order it tests
/// them: each ball against every paddle and wall, each paddle against every
/// wall, rows in body order.
pub fn pong_candidate_pairs(kinds: &Vec<Option<GameObjectType>>) -> (r: Vec<(usize, usize)>)
    ensures
        forall|k: int| 0 <= k < r@.len() ==> is_pong_candidate(kinds@, #[trigger] r@[k]),
        forall|p: (usize, usize)|
            is_pong_candidate(kinds@, p) ==> #[trigger] r@.contains(p),
        strictly_ordered(r@),
{
    let n = kinds.len();
    let mut r: Vec<(usize, usize)> = Vec::new();
    let mut i: usize = 0;
    while i < n
        invariant
            n == kinds@.len(),
            i <= n,
            forall|k: int| 0 <= k < r@.len() ==> is_pong_candidate(kinds@, #[trigger] r@[k]),
            forall|k: int| 0 <= k < r@.len() ==> (#[trigger] r@[k]).0 < i,
            forall|p: (usize, usize)|
                is_pong_candidate(kinds@, p) && p.0 < i ==> #[trigger] r@.contains(p),
            strictly_ordered(r@),
        decreases n - i,
    {
        let mut j: usize = 0;
        while j < n
            invariant
                n == kinds@.len(),
                i < n,
                j <= n,
                forall|k: int| 0 <= k < r@.len() ==> is_pong_candidate(kinds@, #[trigger] r@[k]),
                forall|k: int|
                    0 <= k < r@.len() ==> (#[trigger] r@[k]).0 < i || (r@[k].0 == i && r@[k].1
                        < j),
                forall|p: (usize, usize)|
                    is_pong_candidate(kinds@, p) && (p.0 < i || (p.0 == i && p.1 < j))
                        ==> #[trigger] r@.contains(p),
                strictly_ordered(r@),
            decreases n - j,
        {
            if i != j && pong_pair_exec(kinds[i], kinds[j]) {
                let ghost old_r = r@;
                r.push((i, j));
                assert forall|p: (usize, usize)|
                    is_pong_candidate(kinds@, p) && (p.0 < i || (p.0 == i && p.1 < j + 1))
                        implies #[trigger] r@.contains(p) by {
                    if p.0 == i && p.1 == j {
                        assert(r@[old_r.len() as int] == p);
                    } else {
                        assert(old_r.contains(p));
                        let k = choose|k: int| 0 <= k < old_r.len() && old_r[k] == p;
                        assert(r@[k] == p);
                    }
                }
            } else {
                assert forall|p: (usize, usize)|
                    is_pong_candidate(kinds@, p) && (p.0 < i || (p.0 == i && p.1 < j + 1))
                        implies #[trigger] r@.contains(p) by {
                    if p.0 == i && p.1 == j {
                        assert(!is_pong_candidate(kinds@, p));
                    }
                }
            }
            j = j + 1;
        }
        i = i + 1;
    }
    r
}

fn pong_pair_exec(a: Option<GameObjectType>, b: Option<GameObjectType>) -> (r: bool)
    ensures
        r == pong_pair(a, b),
{
    match (a, b) {
        (Some(GameObjectType::Ball), Some(GameObjectType::Paddle)) => true,
        (Some(GameObjectType::Ball), Some(GameObjectType::Wall)) => true,
        (Some(GameObjectType::Paddle), Some(GameObjectType::Wall)) => true,
        _ => false,
    }
}

/// The pairs the general broad phase tests: every pair `(i, j)` with
/// `i < j < n`, in row-major order.
pub fn all_pairs(n: usize) -> (r: Vec<(usize, usize)>)
    ensures
        forall|k: int| 0 <= k < r@.len() ==> is_unordered_pair(n as nat, #[trigger] r@[k]),
        forall|p: (usize, usize)| is_unordered_pair(n as nat, p) ==> #[trigger] r@.contains(p),
        strictly_ordered(r@),
{
    let mut r: Vec<(usize, usize)> = Vec::new();
    let mut i: usize = 0;
    while i < n
        invariant
            i <= n,
            forall|k: int| 0 <= k < r@.len() ==> is_unordered_pair(n as nat, #[trigger] r@[k]),
            forall|k: int| 0 <= k < r@.len() ==> (#[trigger] r@[k]).0 < i,
            forall|p: (usize, usize)|
                is_unordered_pair(n as nat, p) && p.0 < i ==> #[trigger] r@.contains(p),
            strictly_ordered(r@),
        decreases n - i,
    {
        let mut j: usize = i + 1;
        while j < n
            invariant
                i < n,
                i < j <= n,
                forall|k: int| 0 <= k < r@.len() ==> is_unordered_pair(n as nat, #[trigger] r@[k]),
                forall|k: int|
                    0 <= k < r@.len() ==> (#[trigger] r@[k]).0 < i || (r@[k].0 == i && r@[k].1
                        < j),
                forall|p: (usize, usize)|
                    is_unordered_pair(n as nat, p) && (p.0 < i || (p.0 == i && p.1 < j))
                        ==> #[trigger] r@.contains(p),
                strictly_ordered(r@),
            decreases n - j,
        {
            let ghost old_r = r@;
            r.push((i, j));
            assert forall|p: (usize, usize)|
                is_unordered_pair(n as nat, p) && (p.0 < i || (p.0 == i && p.1 < j + 1))
                    implies #[trigger] r@.contains(p) by {
                if p.0 == i && p.1 == j {
                    assert(r@[old_r.len() as int] == p);
                } else {
                    assert(old_r.contains(p));
                    let k = choose|k: int| 0 <= k < old_r.len() && old_r[k] == p;
                    assert(r@[k] == p);
                }
            }
            j = j + 1;
        }
        i = i + 1;
    }
    r
}

} // verus!
