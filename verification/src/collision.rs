//! Circle-against-circle collision, and the scan of the obstacles for
//! those that hit the player.

use vstd::prelude::*;
use crate::obstacle::Obstacle;
use crate::vector::{distance_sqr, lemma_square_bound, Vec2};

verus! {

/// The radius of the player's hit circle: 10 world units.
pub const PLAYER_RADIUS: u32 = 655360;

/// The radius of an obstacle's hit circle: 20 world units.
pub const OBSTACLE_RADIUS: u32 = 1310720;

/// The distance at which two circles with the given radii touch.
pub open spec fn reach(radius_a: int, radius_b: int) -> int {
    radius_a + radius_b
}

/// Whether two circles touch or overlap: the distance between their centers
/// is at most the sum of their radii.
pub open spec fn circles_touch(
    center_a: Vec2,
    radius_a: int,
    center_b: Vec2,
    radius_b: int,
) -> bool {
    distance_sqr(center_a, center_b) <= reach(radius_a, radius_b) * reach(radius_a, radius_b)
}

/// The distance between two coordinates.
fn gap(a: i64, b: i64) -> (d: u128)
    ensures
        d == a - b || d == b - a,
        d >= 0,
        d * d == (a - b) * (a - b),
{
    let wide: i128 = a as i128 - b as i128;
    let d: u128 = if wide < 0 {
        (-wide) as u128
    } else {
        wide as u128
    };
    assert(d * d == (a - b) * (a - b)) by (nonlinear_arith)
        requires
            d == a - b || d == -(a - b),
    ;
    d
}

/// Tells whether two circles touch or overlap.
pub fn collides(center_a: Vec2, radius_a: u32, center_b: Vec2, radius_b: u32) -> (hit: bool)
    ensures
        hit == circles_touch(center_a, radius_a as int, center_b, radius_b as int),
{
    let reach: u128 = radius_a as u128 + radius_b as u128;
    let dx: u128 = gap(center_a.x, center_b.x);
    let dy: u128 = gap(center_a.y, center_b.y);
    if dx > reach || dy > reach {
        proof {
            if dx > reach {
                lemma_square_exceeds(dx as int, dy as int, reach as int);
            } else {
                lemma_square_exceeds(dy as int, dx as int, reach as int);
            }
        }
        return false;
    }
    proof {
        lemma_square_bound(dx as int, reach as int);
        lemma_square_bound(dy as int, reach as int);
        lemma_square_bound(reach as int, 0x2_0000_0000);
    }
    dx * dx + dy * dy <= reach * reach
}

/// A distance with one coordinate longer than `reach` is longer than `reach`.
proof fn lemma_square_exceeds(long: int, other: int, reach: int)
    requires
        long > reach >= 0,
    ensures
        long * long + other * other > reach * reach,
{
    assert(long * long + other * other > reach * reach) by (nonlinear_arith)
        requires
            long > reach >= 0,
    ;
}

/// Two circles with one center always touch.
pub proof fn lemma_same_center_collides(center: Vec2, radius_a: u32, radius_b: u32)
    ensures
        circles_touch(center, radius_a as int, center, radius_b as int),
{
    let reach = radius_a + radius_b;
    assert(reach * reach >= 0) by (nonlinear_arith);
}

/// Circles whose centers lie apart by exactly the sum of the radii touch:
/// the boundary belongs to the collision.
pub proof fn lemma_boundary_collides(center_a: Vec2, radius_a: u32, center_b: Vec2, radius_b: u32)
    requires
        distance_sqr(center_a, center_b) == (radius_a + radius_b) * (radius_a + radius_b),
    ensures
        circles_touch(center_a, radius_a as int, center_b, radius_b as int),
{
}

/// Circles whose centers lie further apart than the sum of the radii do not touch.
pub proof fn lemma_beyond_boundary_misses(
    center_a: Vec2,
    radius_a: u32,
    center_b: Vec2,
    radius_b: u32,
)
    requires
        distance_sqr(center_a, center_b) > (radius_a + radius_b) * (radius_a + radius_b),
    ensures
        !circles_touch(center_a, radius_a as int, center_b, radius_b as int),
{
}

/// Touching does not depend on which circle is named first.
pub proof fn lemma_collides_symmetric(center_a: Vec2, radius_a: u32, center_b: Vec2, radius_b: u32)
    ensures
        circles_touch(center_a, radius_a as int, center_b, radius_b as int) == circles_touch(
            center_b,
            radius_b as int,
            center_a,
            radius_a as int,
        ),
{
    let dx = center_a.x - center_b.x;
    let dy = center_a.y - center_b.y;
    assert((-dx) * (-dx) == dx * dx) by (nonlinear_arith);
    assert((-dy) * (-dy) == dy * dy) by (nonlinear_arith);
    assert((radius_a + radius_b) * (radius_a + radius_b) == (radius_b + radius_a) * (radius_b
        + radius_a));
}

/// Whether the obstacle hits a player at `player`.
pub open spec fn hits_player(player: Vec2, body: Obstacle) -> bool {
    circles_touch(player, PLAYER_RADIUS as int, body.position, OBSTACLE_RADIUS as int)
}

/// The obstacles of `s` that do not hit the player, in their order.
pub open spec fn survivors(player: Vec2, s: Seq<Obstacle>) -> Seq<Obstacle> {
    s.filter(|body: Obstacle| !hits_player(player, body))
}

/// Whether some obstacle of `s` hits the player.
pub open spec fn any_hit(player: Vec2, s: Seq<Obstacle>) -> bool {
    exists|i: int| 0 <= i < s.len() && hits_player(player, #[trigger] s[i])
}

/// Tests the player against every obstacle, from the last to the first,
/// and removes each obstacle that hits. Tells whether any did.
pub fn sweep(player: Vec2, obstacles: &mut Vec<Obstacle>) -> (hit: bool)
    ensures
        final(obstacles)@ == survivors(player, old(obstacles)@),
        hit == any_hit(player, old(obstacles)@),
{
    let ghost before = obstacles@;
    let ghost keep = |body: Obstacle| !hits_player(player, body);
    let mut hit: bool = false;
    let mut i: usize = obstacles.len();
    proof {
        assert(before.skip(i as int) =~= Seq::<Obstacle>::empty());
        assert(before.take(i as int) =~= before);
        assert(before.take(i as int) + before.skip(i as int).filter(keep) =~= before);
    }
    while i > 0
        invariant
            i <= before.len(),
            before == old(obstacles)@,
            keep == (|body: Obstacle| !hits_player(player, body)),
            obstacles@ == before.take(i as int) + before.skip(i as int).filter(keep),
            hit == any_hit(player, before.skip(i as int)),
        decreases i,
    {
        i = i - 1;
        let body: Obstacle = obstacles[i];
        let touched: bool = collides(player, PLAYER_RADIUS, body.position, OBSTACLE_RADIUS);
        proof {
            let tail = before.skip(i as int + 1);
            let here = before.skip(i as int);
            assert(here =~= seq![before[i as int]] + tail);
            assert(obstacles@[i as int] == before[i as int]);
            tail.lemma_filter_prepend(before[i as int], keep);
            lemma_any_hit_first(player, before[i as int], tail);
            if touched {
                assert(obstacles@.remove(i as int) =~= before.take(i as int) + tail.filter(keep));
            } else {
                assert(obstacles@ =~= before.take(i as int) + here.filter(keep));
            }
        }
        if touched {
            obstacles.remove(i);
            hit = true;
        }
    }
    proof {
        assert(before.skip(0) =~= before);
        assert(before.take(0) =~= Seq::<Obstacle>::empty());
    }
    hit
}

/// The scan passes over no obstacle: among those it leaves none hits the
/// player, each one that does not hit is still there, and a second scan
/// would find nothing to remove.
pub proof fn lemma_sweep_tests_every_obstacle(player: Vec2, s: Seq<Obstacle>)
    ensures
        !any_hit(player, survivors(player, s)),
        forall|i: int|
            0 <= i < s.len() && !hits_player(player, s[i]) ==> survivors(player, s).contains(
                #[trigger] s[i],
            ),
        forall|j: int|
            0 <= j < survivors(player, s).len() ==> s.contains(#[trigger] survivors(player, s)[j]),
        survivors(player, survivors(player, s)) == survivors(player, s),
        survivors(player, s).len() <= s.len(),
{
    let keep = |body: Obstacle| !hits_player(player, body);
    let left = survivors(player, s);
    assert forall|j: int| 0 <= j < left.len() implies keep(#[trigger] left[j]) by {
        s.lemma_filter_pred(keep, j);
    }
    assert forall|i: int| 0 <= i < s.len() && !hits_player(player, s[i]) implies left.contains(
        #[trigger] s[i],
    ) by {
        s.lemma_filter_contains(keep, i);
    }
    assert forall|j: int| 0 <= j < left.len() implies s.contains(#[trigger] left[j]) by {
        assert(left.contains(left[j]));
        s.lemma_filter_contains_rev(keep, left[j]);
    }
    s.lemma_filter_len(keep);
    lemma_filter_all_kept(left, keep);
}

/// Where no obstacle hits, the scan leaves them all.
pub proof fn lemma_no_hit_keeps_all(player: Vec2, s: Seq<Obstacle>)
    requires
        !any_hit(player, s),
    ensures
        survivors(player, s) == s,
{
    let keep = |body: Obstacle| !hits_player(player, body);
    assert forall|j: int| 0 <= j < s.len() implies keep(#[trigger] s[j]) by {}
    lemma_filter_all_kept(s, keep);
}

/// Filtering a sequence whose every item passes leaves it as it is.
proof fn lemma_filter_all_kept(s: Seq<Obstacle>, keep: spec_fn(Obstacle) -> bool)
    requires
        forall|j: int| 0 <= j < s.len() ==> keep(#[trigger] s[j]),
    ensures
        s.filter(keep) == s,
    decreases s.len(),
{
    reveal(Seq::filter);
    if s.len() > 0 {
        let init = s.drop_last();
        assert forall|j: int| 0 <= j < init.len() implies keep(#[trigger] init[j]) by {
            assert(init[j] == s[j]);
        }
        lemma_filter_all_kept(init, keep);
        assert(init.push(s.last()) =~= s);
    }
}

/// Some obstacle of a sequence hits when its first does or one of the rest.
proof fn lemma_any_hit_first(player: Vec2, first: Obstacle, rest: Seq<Obstacle>)
    ensures
        any_hit(player, seq![first] + rest) == (hits_player(player, first) || any_hit(
            player,
            rest,
        )),
{
    let all = seq![first] + rest;
    if any_hit(player, all) {
        let i = choose|i: int| 0 <= i < all.len() && hits_player(player, #[trigger] all[i]);
        if i > 0 {
            assert(all[i] == rest[i - 1]);
        }
    }
    if hits_player(player, first) {
        assert(all[0] == first);
    }
    if any_hit(player, rest) {
        let i = choose|i: int| 0 <= i < rest.len() && hits_player(player, #[trigger] rest[i]);
        assert(all[i + 1] == rest[i]);
    }
}

} // verus!
