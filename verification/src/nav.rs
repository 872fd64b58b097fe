//! Index arithmetic for the tab, agent and space rings. Nothing here talks to
//! herdr: the session fetches the rows, asks these functions for an index,
//! then focuses whatever sits there.
use vstd::prelude::*;

verus! {

/// The row `delta` steps from `cur` in a ring of `n` rows. With no current
/// row the step enters the ring at the end the direction implies.
pub open spec fn spec_step(cur: Option<usize>, delta: int, n: int) -> int {
    match cur {
        Some(c) => (c + delta) % n,
        None => if delta > 0 { 0 } else { n - 1 },
    }
}

/// Where a walk over `n` rows starts: the current row, or just outside the
/// end the walk moves away from.
pub open spec fn walk_start(cur: Option<usize>, delta: int, n: int) -> int {
    match cur {
        Some(c) => c as int,
        None => if delta > 0 { -1 } else { n },
    }
}

/// The row a walk from `from` reaches after `s` steps of `delta`.
pub open spec fn walk_row(from: int, delta: int, s: int, n: int) -> int {
    (from + delta * s) % n
}

/// Every step of the walk stays inside the range of `i64`.
pub open spec fn walk_fits(from: int, delta: int, n: int) -> bool {
    forall|s: int|
        1 <= s <= n ==> i64::MIN <= #[trigger] (delta * s) <= i64::MAX && i64::MIN <= from + delta
            * s <= i64::MAX
}

/// `wants` has said no to every row the walk visits in its first `upto - 1` steps.
pub open spec fn all_refused<T, F: Fn(&T) -> bool>(
    wants: F,
    rows: Seq<T>,
    from: int,
    delta: int,
    upto: int,
) -> bool {
    forall|s: int|
        1 <= s < upto ==> call_ensures(
            wants,
            (&rows[walk_row(from, delta, s, rows.len() as int)],),
            false,
        )
}

/// `(insert_index, landed_index)` for moving the tab at `cur` one slot in the
/// `delta` direction, or `None` when the move would leave the list.
pub open spec fn spec_tab_move(cur: int, delta: int, n: int) -> Option<(usize, usize)> {
    let (insert, landed) = if delta > 0 { (cur + 2, cur + 1) } else { (cur - 1, cur - 1) };
    if insert < 0 || insert > n {
        None
    } else {
        Some((insert as usize, landed as usize))
    }
}

/// `i` folded into `0..n`. Negative values count back from the end, so
/// `wrap(-1, 3)` is 2. `n` must not be zero.
pub fn wrap(i: i64, n: usize) -> (r: usize)
    requires
        0 < n <= i64::MAX,
    ensures
        r == (i as int) % (n as int),
        r < n,
{
    if i >= 0 {
        let r = (i as u64) % (n as u64);
        r as usize
    } else {
        // `-(i + 1)` cannot overflow, unlike `-i` at `i64::MIN`.
        let a = (-(i + 1)) as u64;
        let r = (n as u64) - 1 - a % (n as u64);
        proof {
            lemma_mod_of_negative(a as int, n as int);
        }
        r as usize
    }
}

/// `-(a + 1)` folds to the mirror image of `a`'s remainder.
proof fn lemma_mod_of_negative(a: int, n: int)
    requires
        0 <= a,
        0 < n,
    ensures
        (-(a + 1)) % n == n - 1 - a % n,
{
    vstd::arithmetic::div_mod::lemma_fundamental_div_mod(a, n);
    vstd::arithmetic::div_mod::lemma_mod_bound(a, n);
    let q = a / n;
    assert(-(a + 1) == n * (-q - 1) + (n - 1 - a % n)) by (nonlinear_arith)
        requires
            a == n * q + a % n,
    ;
    vstd::arithmetic::div_mod::lemma_fundamental_div_mod_converse(
        -(a + 1),
        n,
        -q - 1,
        n - 1 - a % n,
    );
}

/// The row `delta` steps from `cur`, wrapping at either end. With no current
/// row the step enters the list at the end the direction implies: forward
/// lands on row 0, backward on the last row. `n` must not be zero.
pub fn step(cur: Option<usize>, delta: i64, n: usize) -> (r: usize)
    requires
        0 < n <= i64::MAX,
        cur matches Some(c) ==> c <= i64::MAX && i64::MIN <= c + delta <= i64::MAX,
    ensures
        r == spec_step(cur, delta as int, n as int),
        r < n,
{
    match cur {
        Some(c) => wrap(c as i64 + delta, n),
        None => if delta > 0 { 0 } else { n - 1 },
    }
}

/// Walk from `cur` in the `delta` direction, once around the list, and return
/// the first row `wants` accepts. `cur` itself is checked last, after the
/// wrap. With no current row the walk starts just outside the near end, so
/// the first step lands on that end row instead of skipping it.
pub fn find_attention<T, F: Fn(&T) -> bool>(
    rows: &[T],
    cur: Option<usize>,
    delta: i64,
    wants: F,
) -> (r: Option<usize>)
    requires
        rows@.len() <= i64::MAX,
        cur matches Some(c) ==> c <= i64::MAX,
        walk_fits(walk_start(cur, delta as int, rows@.len() as int), delta as int, rows@.len() as int),
        forall|x: &T| call_requires(wants, (x,)),
    ensures
        r matches Some(i) ==> exists|s: int|
            1 <= s <= rows@.len() && i == walk_row(
                walk_start(cur, delta as int, rows@.len() as int),
                delta as int,
                s,
                rows@.len() as int,
            ) && all_refused(
                wants,
                rows@,
                walk_start(cur, delta as int, rows@.len() as int),
                delta as int,
                s,
            ) && call_ensures(wants, (&rows@[i as int],), true),
        r is None ==> all_refused(
            wants,
            rows@,
            walk_start(cur, delta as int, rows@.len() as int),
            delta as int,
            rows@.len() + 1int,
        ),
{
    let n = rows.len();
    if n == 0 {
        return None;
    }
    let ghost len = n as int;
    let outside: i64 = if delta > 0 { -1 } else { n as i64 };
    let from: i64 = match cur {
        Some(i) => i as i64,
        None => outside,
    };
    assert(from == walk_start(cur, delta as int, len));
    let mut s: usize = 1;
    loop
        invariant
            n == rows@.len(),
            len == n,
            0 < n <= i64::MAX,
            1 <= s <= n,
            from == walk_start(cur, delta as int, len),
            walk_fits(from as int, delta as int, len),
            forall|x: &T| call_requires(wants, (x,)),
            all_refused(wants, rows@, from as int, delta as int, s as int),
        decreases n - s,
    {
        let ghost si = s as int;
        assert(i64::MIN <= delta * si <= i64::MAX);
        let at = from + delta * (s as i64);
        let i = wrap(at, n);
        assert(i == walk_row(from as int, delta as int, si, len));
        let hit = wants(&rows[i]);
        if hit {
            return Some(i);
        }
        assert forall|t: int| 1 <= t < si + 1 implies call_ensures(
            wants,
            (&rows@[walk_row(from as int, delta as int, t, len)],),
            false,
        ) by {
            if t < si {
            } else {
                assert(t == si);
            }
        }
        if s == n {
            return None;
        }
        s = s + 1;
    }
}

/// Where to ask `tab.move` to put the tab at `cur`, as
/// `(insert_index, landed_index)`. The server evaluates `insert_index`
/// against the list that still contains the moved tab, so moving right has
/// to clear its own slot: `cur + 2`, landing on `cur + 1`. Moving left is
/// `cur - 1` for both. `None` when the move would leave the list.
pub fn tab_move(cur: usize, delta: i64, n: usize) -> (r: Option<(usize, usize)>)
    requires
        cur + 2 <= i64::MAX,
        n <= i64::MAX,
    ensures
        r == spec_tab_move(cur as int, delta as int, n as int),
        r matches Some((insert, landed)) ==> cur < n ==> landed < n,
{
    let c = cur as i64;
    let (insert, landed): (i64, i64) = if delta > 0 {
        (c + 2, c + 1)
    } else {
        (c - 1, c - 1)
    };
    if insert < 0 || insert > n as i64 {
        return None;
    }
    Some((insert as usize, landed as usize))
}

/// A step one way then one step back lands where it started: the rings are
/// walked with the same arithmetic in both directions.
pub proof fn law_step_back(c: usize, n: usize)
    requires
        c < n,
    ensures
        spec_step(Some(spec_step(Some(c), 1, n as int) as usize), -1, n as int) == c,
        spec_step(Some(spec_step(Some(c), -1, n as int) as usize), 1, n as int) == c,
{
    vstd::arithmetic::div_mod::lemma_mod_bound(c + 1, n as int);
    vstd::arithmetic::div_mod::lemma_mod_bound(c - 1, n as int);
    if c + 1 < n {
        vstd::arithmetic::div_mod::lemma_small_mod((c + 1) as nat, n as nat);
        vstd::arithmetic::div_mod::lemma_small_mod(c as nat, n as nat);
    } else {
        vstd::arithmetic::div_mod::lemma_mod_self_0(n as int);
        vstd::arithmetic::div_mod::lemma_fundamental_div_mod_converse(-1, n as int, -1, n - 1);
    }
    if c >= 1 {
        vstd::arithmetic::div_mod::lemma_small_mod((c - 1) as nat, n as nat);
        vstd::arithmetic::div_mod::lemma_small_mod(c as nat, n as nat);
    } else {
        vstd::arithmetic::div_mod::lemma_fundamental_div_mod_converse(-1, n as int, -1, n - 1);
        vstd::arithmetic::div_mod::lemma_mod_self_0(n as int);
    }
}

} // verus!
