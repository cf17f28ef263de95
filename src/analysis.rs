//! Terrain analysis: greedy selection of separated low points, then for
//! every grid point the offset from its nearest selected low point.
//!
//! Selection runs `k` rounds. Each round scans the whole grid in row-major
//! order for the lowest point that lies farther than the exclusion radius
//! (Manhattan distance) from every point already chosen; ties go to the point
//! met first. A round that finds no such point adds nothing, so fewer than
//! `k` points come back when the grid runs out of candidates.
use vstd::prelude::*;
use crate::grid::{dist, elevation_grid, sample_point, Point, CHANNELS, NAN_KEY};

verus! {

/// `p` lies farther than `radius` from every point of `chosen`.
pub open spec fn clear_of(p: Point, chosen: Seq<Point>, radius: int) -> bool {
    forall|i: int| 0 <= i < chosen.len() ==> dist(p, chosen[i]) > radius
}

/// `p` may still be chosen: its elevation is not a NaN and it is clear of
/// every point chosen so far.
pub open spec fn qualifies(p: Point, chosen: Seq<Point>, radius: int) -> bool {
    p.elevation != NAN_KEY && clear_of(p, chosen, radius)
}

/// Index of the lowest qualifying point among the first `end` points of
/// `map`; on equal elevations the earliest one.
pub open spec fn lowest_qualifying(map: Seq<Point>, chosen: Seq<Point>, radius: int, end: nat) -> Option<int>
    decreases end,
{
    if end == 0 {
        None
    } else {
        let best = lowest_qualifying(map, chosen, radius, (end - 1) as nat);
        let j = end - 1;
        if qualifies(map[j], chosen, radius) && match best {
            None => true,
            Some(b) => map[j].elevation < map[b].elevation,
        } {
            Some(j)
        } else {
            best
        }
    }
}

/// The points chosen after `rounds` rounds of selection.
pub open spec fn select_minima(map: Seq<Point>, radius: int, rounds: nat) -> Seq<Point>
    decreases rounds,
{
    if rounds == 0 {
        Seq::empty()
    } else {
        let chosen = select_minima(map, radius, (rounds - 1) as nat);
        match lowest_qualifying(map, chosen, radius, map.len()) {
            Some(j) => chosen.push(map[j]),
            None => chosen,
        }
    }
}

/// An index into a sequence, as an index of the specification.
pub open spec fn as_index(o: Option<usize>) -> Option<int> {
    match o {
        Some(i) => Some(i as int),
        None => None,
    }
}

/// Whether `p` lies farther than `radius` from each point of `chosen`.
pub fn is_clear(p: &Point, chosen: &Vec<Point>, radius: u64) -> (r: bool)
    ensures
        r == clear_of(*p, chosen@, radius as int),
{
    let mut i: usize = 0;
    while i < chosen.len()
        invariant
            i <= chosen@.len(),
            forall|j: int| 0 <= j < i ==> dist(*p, chosen@[j]) > radius,
        decreases chosen@.len() - i,
    {
        if p.manhattan_distance(&chosen[i]) <= radius {
            return false;
        }
        i += 1;
    }
    true
}

/// Chooses up to `count` low points of `map`, each farther than
/// `exclusion_radius` from those chosen before it.
pub fn find_extreme_elevations(map: &Vec<Point>, count: usize, exclusion_radius: u64) -> (minima: Vec<Point>)
    ensures
        minima@ == select_minima(map@, exclusion_radius as int, count as nat),
{
    let radius = Ghost(exclusion_radius as int);
    let mut minima: Vec<Point> = Vec::new();
    for round in 0..count
        invariant
            radius@ == exclusion_radius as int,
            minima@ == select_minima(map@, radius@, round as nat),
    {
        let mut best: Option<usize> = None;
        for j in 0..map.len()
            invariant
                radius@ == exclusion_radius as int,
                as_index(best) == lowest_qualifying(map@, minima@, radius@, j as nat),
                match best {
                    Some(b) => b < j,
                    None => true,
                },
        {
            let p = map[j];
            if p.elevation != NAN_KEY && is_clear(&p, &minima, exclusion_radius) {
                match best {
                    None => {
                        best = Some(j);
                    },
                    Some(b) => {
                        if p.elevation < map[b].elevation {
                            best = Some(j);
                        }
                    },
                }
            }
        }
        match best {
            Some(b) => {
                minima.push(map[b]);
            },
            None => {},
        }
    }
    minima
}

/// Index of the point of `minima` nearest to `p` among its first `n`
/// (`n >= 1`); on equal distances the earliest one.
pub open spec fn nearest_among(p: Point, minima: Seq<Point>, n: nat) -> int
    decreases n,
{
    if n <= 1 {
        0
    } else {
        let best = nearest_among(p, minima, (n - 1) as nat);
        if dist(minima[best], p) > dist(minima[n - 1], p) {
            n - 1
        } else {
            best
        }
    }
}

/// The offset of `p` from its nearest low point, pointing away from it:
/// `p - nearest`. With no low points there is nothing to flow from and the
/// offset is zero.
pub open spec fn flow_offset(p: Point, minima: Seq<Point>) -> (int, int) {
    if minima.len() == 0 {
        (0, 0)
    } else {
        let m = minima[nearest_among(p, minima, minima.len())];
        (p.x - m.x, p.y - m.y)
    }
}

/// Index of the low point nearest to `p`.
pub fn nearest_minimum(p: &Point, minima: &Vec<Point>) -> (i: usize)
    requires
        minima@.len() > 0,
    ensures
        i == nearest_among(*p, minima@, minima@.len()),
        i < minima@.len(),
{
    let mut best: usize = 0;
    let mut best_dist: u64 = minima[0].manhattan_distance(p);
    let mut n: usize = 1;
    while n < minima.len()
        invariant
            1 <= n <= minima@.len(),
            best == nearest_among(*p, minima@, n as nat),
            best < n,
            best_dist == dist(minima@[best as int], *p),
        decreases minima@.len() - n,
    {
        let d = minima[n].manhattan_distance(p);
        if best_dist > d {
            best = n;
            best_dist = d;
        }
        n += 1;
    }
    best
}

/// For every point of `map`, its offset from the nearest low point of
/// `minima`, the direction of flow before it is scaled to unit length. A
/// point that is itself its nearest low point gets the zero offset.
pub fn get_wave_directions(map: &Vec<Point>, minima: &Vec<Point>) -> (dirs: Vec<(i64, i64)>)
    ensures
        dirs@.len() == map@.len(),
        forall|i: int|
            0 <= i < map@.len() ==> (dirs@[i].0 as int, dirs@[i].1 as int) == flow_offset(
                map@[i],
                minima@,
            ),
{
    let mut dirs: Vec<(i64, i64)> = Vec::with_capacity(map.len());
    for i in 0..map.len()
        invariant
            dirs@.len() == i,
            forall|j: int|
                0 <= j < i ==> (dirs@[j].0 as int, dirs@[j].1 as int) == flow_offset(
                    map@[j],
                    minima@,
                ),
    {
        let p = map[i];
        if minima.len() == 0 {
            dirs.push((0, 0));
        } else {
            let m = minima[nearest_minimum(&p, minima)];
            dirs.push((p.x as i64 - m.x as i64, p.y as i64 - m.y as i64));
        }
    }
    dirs
}

proof fn lemma_lowest_in_range(map: Seq<Point>, chosen: Seq<Point>, radius: int, end: nat)
    requires
        end <= map.len(),
    ensures
        match lowest_qualifying(map, chosen, radius, end) {
            Some(j) => 0 <= j < end && qualifies(map[j], chosen, radius),
            None => forall|i: int| 0 <= i < end ==> !qualifies(map[i], chosen, radius),
        },
    decreases end,
{
    if end > 0 {
        lemma_lowest_in_range(map, chosen, radius, (end - 1) as nat);
    }
}

/// The point a round picks is the lowest candidate, and every candidate met
/// before it in row-major order is strictly higher: ties go to the earliest.
pub proof fn lemma_lowest_is_first_minimum(map: Seq<Point>, chosen: Seq<Point>, radius: int, end: nat)
    requires
        end <= map.len(),
    ensures
        lowest_qualifying(map, chosen, radius, end) matches Some(j) ==> {
            &&& 0 <= j < end
            &&& qualifies(map[j], chosen, radius)
            &&& forall|i: int|
                0 <= i < end && qualifies(map[i], chosen, radius) ==> map[j].elevation
                    <= map[i].elevation
            &&& forall|i: int|
                0 <= i < j && qualifies(map[i], chosen, radius) ==> map[j].elevation
                    < map[i].elevation
        },
        lowest_qualifying(map, chosen, radius, end) is None <==> forall|i: int|
            0 <= i < end ==> !qualifies(map[i], chosen, radius),
    decreases end,
{
    lemma_lowest_in_range(map, chosen, radius, end);
    if end > 0 {
        lemma_lowest_is_first_minimum(map, chosen, radius, (end - 1) as nat);
        lemma_lowest_in_range(map, chosen, radius, (end - 1) as nat);
    }
}

/// Any two chosen low points lie farther apart than the exclusion radius,
/// and each of them is a point of the grid.
pub proof fn lemma_minima_separated(map: Seq<Point>, radius: int, rounds: nat)
    ensures
        forall|i: int, j: int|
            0 <= i < j < select_minima(map, radius, rounds).len() ==> dist(
                select_minima(map, radius, rounds)[i],
                select_minima(map, radius, rounds)[j],
            ) > radius,
        forall|i: int|
            0 <= i < select_minima(map, radius, rounds).len() ==> map.contains(
                #[trigger] select_minima(map, radius, rounds)[i],
            ),
        select_minima(map, radius, rounds).len() <= rounds,
    decreases rounds,
{
    if rounds > 0 {
        let chosen = select_minima(map, radius, (rounds - 1) as nat);
        lemma_minima_separated(map, radius, (rounds - 1) as nat);
        lemma_lowest_in_range(map, chosen, radius, map.len());
        let s = select_minima(map, radius, rounds);
        if let Some(k) = lowest_qualifying(map, chosen, radius, map.len()) {
            assert(s == chosen.push(map[k]));
            assert forall|i: int, j: int| 0 <= i < j < s.len() implies dist(s[i], s[j]) > radius by {
                if j == s.len() - 1 {
                    assert(clear_of(map[k], chosen, radius));
                    assert(dist(map[k], chosen[i]) > radius);
                }
            }
            assert forall|i: int| 0 <= i < s.len() implies map.contains(#[trigger] s[i]) by {
                if i == s.len() - 1 {
                    assert(map[k] == s[i]);
                } else {
                    assert(chosen[i] == s[i]);
                }
            }
        }
    }
}

/// Selection returns fewer than the requested number of points only when
/// every point of the grid that is not a NaN lies within the exclusion
/// radius of a chosen one.
pub proof fn lemma_minima_exhausted(map: Seq<Point>, radius: int, rounds: nat)
    ensures
        select_minima(map, radius, rounds).len() < rounds ==> forall|i: int|
            0 <= i < map.len() ==> !qualifies(map[i], select_minima(map, radius, rounds), radius),
        select_minima(map, radius, rounds).len() < rounds ==> forall|i: int|
            0 <= i < map.len() && map[i].elevation != NAN_KEY ==> exists|j: int|
                0 <= j < select_minima(map, radius, rounds).len() && dist(
                    map[i],
                    select_minima(map, radius, rounds)[j],
                ) <= radius,
    decreases rounds,
{
    if rounds > 0 {
        let chosen = select_minima(map, radius, (rounds - 1) as nat);
        lemma_minima_exhausted(map, radius, (rounds - 1) as nat);
        lemma_minima_separated(map, radius, (rounds - 1) as nat);
        lemma_lowest_in_range(map, chosen, radius, map.len());
    }
}

/// Two analyses of the same grid with the same round count and exclusion
/// radius choose the same low points in the same order and give every point
/// the same flow offset.
pub proof fn lemma_analysis_deterministic(
    map1: Seq<Point>,
    map2: Seq<Point>,
    radius: int,
    rounds: nat,
)
    requires
        map1 == map2,
    ensures
        select_minima(map1, radius, rounds) == select_minima(map2, radius, rounds),
        forall|i: int|
            0 <= i < map1.len() ==> flow_offset(map1[i], select_minima(map1, radius, rounds))
                == flow_offset(map2[i], select_minima(map2, radius, rounds)),
{
}

/// The flow offset is zero exactly when there is no low point or the point
/// stands on its nearest low point; every other offset is a non-zero vector,
/// which can be scaled to unit length.
pub proof fn lemma_zero_offset_only_at_minimum(p: Point, minima: Seq<Point>)
    ensures
        flow_offset(p, minima) == (0int, 0int) <==> (minima.len() == 0 || {
            let m = minima[nearest_among(p, minima, minima.len())];
            m.x == p.x && m.y == p.y
        }),
{
}

/// The outcome of one analysis: the chosen low points, in the order they
/// were chosen, and one flow offset per texel.
pub struct TerrainAnalysis {
    pub minima: Vec<Point>,
    pub offsets: Vec<(i64, i64)>,
}

/// Runs the whole analysis on the flattened channel words of a row-major
/// texture `width` texels wide: builds the elevation grid, chooses up to
/// `count` low points at least `exclusion_radius + 1` apart, and gives every
/// texel its offset from the nearest of them.
pub fn analyze_terrain(words: &Vec<u32>, width: u32, count: usize, exclusion_radius: u64) -> (a: TerrainAnalysis)
    requires
        width > 0,
        words@.len() / (CHANNELS as nat) <= 0x1_0000_0000,
    ensures
        ({
            let grid = Seq::new(
                words@.len() / (CHANNELS as nat),
                |t: int| sample_point(words@, width, t),
            );
            &&& a.minima@ == select_minima(grid, exclusion_radius as int, count as nat)
            &&& a.offsets@.len() == grid.len()
            &&& forall|i: int|
                0 <= i < grid.len() ==> (a.offsets@[i].0 as int, a.offsets@[i].1 as int)
                    == flow_offset(grid[i], a.minima@)
        }),
{
    let grid = elevation_grid(words, width);
    let minima = find_extreme_elevations(&grid, count, exclusion_radius);
    let offsets = get_wave_directions(&grid, &minima);
    assert(grid@ =~= Seq::new(
        words@.len() / (CHANNELS as nat),
        |t: int| sample_point(words@, width, t),
    ));
    TerrainAnalysis { minima, offsets }
}

} // verus!
