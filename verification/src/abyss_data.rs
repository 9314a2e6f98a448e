//! The abyss monster dataset: seasons, their floors (stations) and the
//! monsters of each floor, with lookups by season, floor and pack id.
//!
//! A monster's numeric stats are floating point and stay with the caller,
//! found again by the entry's `pack_id` and `attribute_id`.
use vstd::prelude::*;

use crate::ranking::{
    lemma_sort_by_map, opt_view, order_opt_text, order_opt_text_exec, order_opt_u32,
    order_opt_u32_exec, order_text, order_text_exec, rank_rel, sort_by, sorted_by_rank, then_order,
    Ranked,
};
use crate::text::str_eq;

verus! {

#[derive(Clone, Debug)]
pub struct AbyssMonsterDataset {
    pub seasons: Vec<AbyssSeason>,
}

#[derive(Clone, Debug)]
pub struct AbyssSeason {
    pub season: u32,
    pub name: Option<String>,
    pub floors: Vec<AbyssFloor>,
}

#[derive(Clone, Debug)]
pub struct AbyssFloor {
    pub season: u32,
    pub season_name: Option<String>,
    pub floor: u32,
    pub name: Option<String>,
    pub monsters: Vec<AbyssMonsterEntry>,
}

#[derive(Clone, Debug)]
pub struct AbyssMonsterEntry {
    pub pack_id: String,
    pub attribute_id: String,
    pub monster_pool_id: Option<String>,
    pub monster_id: String,
    pub name: String,
    pub count: u32,
    pub level: Option<u32>,
    pub half: Option<u32>,
    pub wave: Option<u32>,
    pub is_boss: bool,
}

// ---------------------------------------------------------------------------
// Lookups
// ---------------------------------------------------------------------------

/// The first season numbered `season`.
pub open spec fn find_season(seasons: Seq<AbyssSeason>, season: u32) -> Option<AbyssSeason>
    decreases seasons.len(),
{
    if seasons.len() == 0 {
        None
    } else if seasons[0].season == season {
        Some(seasons[0])
    } else {
        find_season(seasons.drop_first(), season)
    }
}

/// The first floor numbered `floor`.
pub open spec fn find_floor(floors: Seq<AbyssFloor>, floor: u32) -> Option<AbyssFloor>
    decreases floors.len(),
{
    if floors.len() == 0 {
        None
    } else if floors[0].floor == floor {
        Some(floors[0])
    } else {
        find_floor(floors.drop_first(), floor)
    }
}

/// The floor `floor` of the first season numbered `season`.
pub open spec fn dataset_floor(ds: AbyssMonsterDataset, season: u32, floor: u32) -> Option<
    AbyssFloor,
> {
    match find_season(ds.seasons@, season) {
        Some(s) => find_floor(s.floors@, floor),
        None => None,
    }
}

/// All monsters of a list of floors, floor by floor.
pub open spec fn floor_monsters(floors: Seq<AbyssFloor>) -> Seq<AbyssMonsterEntry>
    decreases floors.len(),
{
    if floors.len() == 0 {
        Seq::empty()
    } else {
        floor_monsters(floors.drop_last()) + floors.last().monsters@
    }
}

/// All monsters of a list of seasons, season by season.
pub open spec fn season_monsters(seasons: Seq<AbyssSeason>) -> Seq<AbyssMonsterEntry>
    decreases seasons.len(),
{
    if seasons.len() == 0 {
        Seq::empty()
    } else {
        season_monsters(seasons.drop_last()) + floor_monsters(seasons.last().floors@)
    }
}

/// The first monster with pack id `key`.
pub open spec fn first_with_pack(ms: Seq<AbyssMonsterEntry>, key: Seq<char>) -> Option<
    AbyssMonsterEntry,
>
    decreases ms.len(),
{
    if ms.len() == 0 {
        None
    } else if ms[0].pack_id@ == key {
        Some(ms[0])
    } else {
        first_with_pack(ms.drop_first(), key)
    }
}

pub proof fn lemma_first_with_pack_concat(a: Seq<AbyssMonsterEntry>, b: Seq<AbyssMonsterEntry>, key: Seq<char>)
    ensures
        first_with_pack(a + b, key) == (match first_with_pack(a, key) {
            Some(m) => Some(m),
            None => first_with_pack(b, key),
        }),
    decreases a.len(),
{
    if a.len() > 0 {
        assert((a + b).drop_first() =~= a.drop_first() + b);
        lemma_first_with_pack_concat(a.drop_first(), b, key);
    } else {
        assert(a + b =~= b);
    }
}

pub open spec fn opt_pair(v: Option<(u32, u32)>) -> Option<(u32, u32)> {
    v
}

/// The (season, floor) of the first floor of the first season.
pub open spec fn first_key(ds: AbyssMonsterDataset) -> Option<(u32, u32)> {
    if ds.seasons@.len() > 0 && ds.seasons@[0].floors@.len() > 0 {
        let f = ds.seasons@[0].floors@[0];
        Some((f.season, f.floor))
    } else {
        None
    }
}

impl AbyssMonsterDataset {
    pub fn first_floor_key(&self) -> (r: Option<(u32, u32)>)
        ensures
            r == first_key(*self),
    {
        if self.seasons.len() == 0 {
            return None;
        }
        let first = &self.seasons[0];
        if first.floors.len() == 0 {
            return None;
        }
        Some((first.floors[0].season, first.floors[0].floor))
    }

    pub fn season(&self, season: u32) -> (r: Option<&AbyssSeason>)
        ensures
            r is None <==> find_season(self.seasons@, season) is None,
            r matches Some(s) ==> find_season(self.seasons@, season) == Some(*s),
    {
        let mut i: usize = 0;
        assert(self.seasons@.skip(0) =~= self.seasons@);
        while i < self.seasons.len()
            invariant
                i <= self.seasons@.len(),
                find_season(self.seasons@, season) == find_season(self.seasons@.skip(i as int), season),
            decreases self.seasons.len() - i,
        {
            assert(self.seasons@.skip(i as int)[0] == self.seasons@[i as int]);
            if self.seasons[i].season == season {
                return Some(&self.seasons[i]);
            }
            assert(self.seasons@.skip(i as int).drop_first() =~= self.seasons@.skip(i + 1));
            i += 1;
        }
        None
    }

    pub fn floor(&self, season: u32, floor: u32) -> (r: Option<&AbyssFloor>)
        ensures
            r is None <==> dataset_floor(*self, season, floor) is None,
            r matches Some(f) ==> dataset_floor(*self, season, floor) == Some(*f),
    {
        let s = match self.season(season) {
            Some(s) => s,
            None => return None,
        };
        let mut i: usize = 0;
        assert(s.floors@.skip(0) =~= s.floors@);
        while i < s.floors.len()
            invariant
                i <= s.floors@.len(),
                dataset_floor(*self, season, floor) == find_floor(s.floors@, floor),
                find_floor(s.floors@, floor) == find_floor(s.floors@.skip(i as int), floor),
            decreases s.floors.len() - i,
        {
            assert(s.floors@.skip(i as int)[0] == s.floors@[i as int]);
            if s.floors[i].floor == floor {
                return Some(&s.floors[i]);
            }
            assert(s.floors@.skip(i as int).drop_first() =~= s.floors@.skip(i + 1));
            i += 1;
        }
        None
    }

    pub fn monster(&self, pack_id: &str) -> (r: Option<&AbyssMonsterEntry>)
        ensures
            r is None <==> first_with_pack(season_monsters(self.seasons@), pack_id@) is None,
            r matches Some(m) ==> first_with_pack(season_monsters(self.seasons@), pack_id@) == Some(
                *m,
            ),
    {
        let mut i: usize = 0;
        assert(self.seasons@.take(0) =~= Seq::<AbyssSeason>::empty());
        while i < self.seasons.len()
            invariant
                i <= self.seasons@.len(),
                first_with_pack(season_monsters(self.seasons@.take(i as int)), pack_id@) is None,
            decreases self.seasons.len() - i,
        {
            let season = &self.seasons[i];
            let mut j: usize = 0;
            assert(season.floors@.take(0) =~= Seq::<AbyssFloor>::empty());
            while j < season.floors.len()
                invariant
                    i < self.seasons@.len(),
                    *season == self.seasons@[i as int],
                    j <= season.floors@.len(),
                    first_with_pack(season_monsters(self.seasons@.take(i as int)), pack_id@) is None,
                    first_with_pack(floor_monsters(season.floors@.take(j as int)), pack_id@) is None,
                decreases season.floors.len() - j,
            {
                let floor = &season.floors[j];
                let mut k: usize = 0;
                while k < floor.monsters.len()
                    invariant
                        i < self.seasons@.len(),
                        *season == self.seasons@[i as int],
                        j < season.floors@.len(),
                        *floor == season.floors@[j as int],
                        k <= floor.monsters@.len(),
                        first_with_pack(season_monsters(self.seasons@.take(i as int)), pack_id@)
                            is None,
                        first_with_pack(floor_monsters(season.floors@.take(j as int)), pack_id@)
                            is None,
                        first_with_pack(floor.monsters@.take(k as int), pack_id@) is None,
                    decreases floor.monsters.len() - k,
                {
                    let ghost taken = floor.monsters@.take(k as int);
                    if str_eq(floor.monsters[k].pack_id.as_str(), pack_id) {
                        proof {
                            let fm = floor_monsters(season.floors@.take(j + 1));
                            assert(season.floors@.take(j + 1).drop_last() =~= season.floors@.take(
                                j as int,
                            ));
                            let rest = floor.monsters@.skip(k as int);
                            assert(floor.monsters@ =~= taken + rest);
                            lemma_first_with_pack_concat(taken, rest, pack_id@);
                            lemma_first_with_pack_concat(
                                floor_monsters(season.floors@.take(j as int)),
                                floor.monsters@,
                                pack_id@,
                            );
                            let all_season = floor_monsters(season.floors@);
                            let rest_floors = season.floors@.skip(j + 1);
                            assert(season.floors@ =~= season.floors@.take(j + 1) + rest_floors);
                            lemma_floor_monsters_concat(season.floors@.take(j + 1), rest_floors);
                            lemma_first_with_pack_concat(fm, floor_monsters(rest_floors), pack_id@);
                            assert(self.seasons@.take(i + 1).drop_last() =~= self.seasons@.take(
                                i as int,
                            ));
                            let rest_seasons = self.seasons@.skip(i + 1);
                            assert(self.seasons@ =~= self.seasons@.take(i + 1) + rest_seasons);
                            lemma_season_monsters_concat(self.seasons@.take(i + 1), rest_seasons);
                            lemma_first_with_pack_concat(
                                season_monsters(self.seasons@.take(i as int)),
                                all_season,
                                pack_id@,
                            );
                            lemma_first_with_pack_concat(
                                season_monsters(self.seasons@.take(i + 1)),
                                season_monsters(rest_seasons),
                                pack_id@,
                            );
                        }
                        return Some(&floor.monsters[k]);
                    }
                    proof {
                        assert(floor.monsters@[k as int].pack_id@ != pack_id@);
                        let next = floor.monsters@.take(k + 1);
                        assert(next =~= taken + seq![floor.monsters@[k as int]]);
                        assert(seq![floor.monsters@[k as int]].drop_first() =~= Seq::<
                            AbyssMonsterEntry,
                        >::empty());
                        let single = seq![floor.monsters@[k as int]];
                        assert(single[0] == floor.monsters@[k as int]);
                        assert(first_with_pack(single.drop_first(), pack_id@) is None);
                        assert(first_with_pack(single, pack_id@) is None);
                        lemma_first_with_pack_concat(taken, single, pack_id@);
                        assert(first_with_pack(next, pack_id@) is None);
                    }
                    k += 1;
                }
                proof {
                    assert(floor.monsters@.take(floor.monsters@.len() as int) =~= floor.monsters@);
                    assert(season.floors@.take(j + 1).drop_last() =~= season.floors@.take(j as int));
                    lemma_first_with_pack_concat(
                        floor_monsters(season.floors@.take(j as int)),
                        floor.monsters@,
                        pack_id@,
                    );
                }
                j += 1;
            }
            proof {
                assert(season.floors@.take(season.floors@.len() as int) =~= season.floors@);
                assert(self.seasons@.take(i + 1).drop_last() =~= self.seasons@.take(i as int));
                lemma_first_with_pack_concat(
                    season_monsters(self.seasons@.take(i as int)),
                    floor_monsters(season.floors@),
                    pack_id@,
                );
            }
            i += 1;
        }
        assert(self.seasons@.take(self.seasons@.len() as int) =~= self.seasons@);
        None
    }
}

pub proof fn lemma_floor_monsters_concat(a: Seq<AbyssFloor>, b: Seq<AbyssFloor>)
    ensures
        floor_monsters(a + b) == floor_monsters(a) + floor_monsters(b),
    decreases b.len(),
{
    if b.len() == 0 {
        assert(a + b =~= a);
        assert(floor_monsters(a) + floor_monsters(b) =~= floor_monsters(a));
    } else {
        assert((a + b).drop_last() =~= a + b.drop_last());
        lemma_floor_monsters_concat(a, b.drop_last());
        assert(floor_monsters(a + b) =~= floor_monsters(a) + floor_monsters(b));
    }
}

pub proof fn lemma_season_monsters_concat(a: Seq<AbyssSeason>, b: Seq<AbyssSeason>)
    ensures
        season_monsters(a + b) == season_monsters(a) + season_monsters(b),
    decreases b.len(),
{
    if b.len() == 0 {
        assert(a + b =~= a);
        assert(season_monsters(a) + season_monsters(b) =~= season_monsters(a));
    } else {
        assert((a + b).drop_last() =~= a + b.drop_last());
        lemma_season_monsters_concat(a, b.drop_last());
        assert(season_monsters(a + b) =~= season_monsters(a) + season_monsters(b));
    }
}

/// The sum of the monsters' counts.
pub open spec fn count_sum(ms: Seq<AbyssMonsterEntry>) -> nat
    decreases ms.len(),
{
    if ms.len() == 0 {
        0
    } else {
        count_sum(ms.drop_last()) + ms.last().count as nat
    }
}

/// The waves that the monsters belong to.
pub open spec fn wave_set(ms: Seq<AbyssMonsterEntry>) -> Set<u32> {
    Set::new(|w: u32| exists|i: int| 0 <= i < ms.len() && #[trigger] ms[i].wave == Some(w))
}

proof fn lemma_count_sum_prefix(ms: Seq<AbyssMonsterEntry>, k: int)
    requires
        0 <= k <= ms.len(),
    ensures
        count_sum(ms.take(k)) <= count_sum(ms),
    decreases ms.len() - k,
{
    if k < ms.len() {
        assert(ms.drop_last().take(k) =~= ms.take(k));
        lemma_count_sum_prefix(ms.drop_last(), k);
    } else {
        assert(ms.take(k) =~= ms);
    }
}

impl AbyssFloor {
    /// The number of monsters on the floor, counting each entry's count.
    pub fn monster_count(&self) -> (r: u32)
        requires
            count_sum(self.monsters@) <= u32::MAX,
        ensures
            r == count_sum(self.monsters@),
    {
        let mut total: u32 = 0;
        let mut i: usize = 0;
        while i < self.monsters.len()
            invariant
                i <= self.monsters@.len(),
                count_sum(self.monsters@) <= u32::MAX,
                total == count_sum(self.monsters@.take(i as int)),
            decreases self.monsters.len() - i,
        {
            proof {
                assert(self.monsters@.take(i + 1).drop_last() =~= self.monsters@.take(i as int));
                lemma_count_sum_prefix(self.monsters@, i + 1);
            }
            total = total + self.monsters[i].count;
            i += 1;
        }
        assert(self.monsters@.take(self.monsters@.len() as int) =~= self.monsters@);
        total
    }

    /// The number of distinct waves among the floor's monsters.
    pub fn wave_count(&self) -> (r: usize)
        ensures
            r == wave_set(self.monsters@).len(),
            wave_set(self.monsters@).finite(),
    {
        let mut waves: Vec<u32> = Vec::new();
        let mut i: usize = 0;
        while i < self.monsters.len()
            invariant
                i <= self.monsters@.len(),
                waves@.no_duplicates(),
                waves@.to_set() == wave_set(self.monsters@.take(i as int)),
            decreases self.monsters.len() - i,
        {
            let ghost before = waves@;
            let ghost prefix = self.monsters@.take(i as int);
            let ghost next = self.monsters@.take(i + 1);
            assert(next.drop_last() =~= prefix);
            match self.monsters[i].wave {
                Some(w) => {
                    let mut j: usize = 0;
                    let mut seen = false;
                    while j < waves.len()
                        invariant
                            j <= waves@.len(),
                            seen == (exists|k: int| 0 <= k < j && waves@[k] == w),
                        decreases waves.len() - j,
                    {
                        if waves[j] == w {
                            seen = true;
                        }
                        j += 1;
                    }
                    if !seen {
                        waves.push(w);
                    }
                    proof {
                        assert(waves@.to_set() =~= wave_set(next)) by {
                            assert forall|x: u32| waves@.to_set().contains(x) implies wave_set(
                                next,
                            ).contains(x) by {
                                if before.to_set().contains(x) {
                                    let k = choose|k: int| 0 <= k < prefix.len() && #[trigger] prefix[k].wave == Some(x);
                                    assert(next[k] == prefix[k]);
                                } else {
                                    assert(next[i as int].wave == Some(x));
                                }
                            }
                            assert forall|x: u32| wave_set(next).contains(x) implies waves@.to_set().contains(x) by {
                                let k = choose|k: int| 0 <= k < next.len() && #[trigger] next[k].wave == Some(x);
                                if k < i {
                                    assert(prefix[k] == next[k]);
                                    assert(wave_set(prefix).contains(x));
                                    assert(before.to_set().contains(x));
                                    assert(before.contains(x));
                                    let m = choose|m: int| 0 <= m < before.len() && before[m] == x;
                                    assert(waves@[m] == x);
                                    assert(waves@.contains(x));
                                } else {
                                    assert(x == w);
                                    if seen {
                                        let m = choose|m: int| 0 <= m < before.len() && before[m] == w;
                                        assert(before.contains(w));
                                        assert(waves@.contains(w));
                                    } else {
                                        assert(waves@[waves@.len() - 1] == w);
                                        assert(waves@.contains(w));
                                    }
                                }
                            }
                        }
                        if !seen {
                            assert forall|a: int, b: int|
                                0 <= a < waves@.len() && 0 <= b < waves@.len() && a != b implies waves@[a]
                                != waves@[b] by {
                                if a < before.len() && b < before.len() {
                                } else if a == before.len() {
                                    assert(waves@[b] == before[b]);
                                } else {
                                    assert(waves@[a] == before[a]);
                                }
                            }
                        }
                    }
                },
                None => {
                    proof {
                        assert(wave_set(next) =~= wave_set(prefix)) by {
                            assert forall|x: u32| wave_set(next).contains(x) implies wave_set(prefix).contains(x) by {
                                let k = choose|k: int| 0 <= k < next.len() && #[trigger] next[k].wave == Some(x);
                                assert(k < i);
                                assert(prefix[k] == next[k]);
                            }
                            assert forall|x: u32| wave_set(prefix).contains(x) implies wave_set(next).contains(x) by {
                                let k = choose|k: int| 0 <= k < prefix.len() && #[trigger] prefix[k].wave == Some(x);
                                assert(next[k] == prefix[k]);
                            }
                        }
                    }
                },
            }
            i += 1;
        }
        proof {
            assert(self.monsters@.take(self.monsters@.len() as int) =~= self.monsters@);
            waves@.unique_seq_to_set();
        }
        waves.len()
    }
}

// ---------------------------------------------------------------------------
// Sorting
// ---------------------------------------------------------------------------

/// Monsters are listed by half, then wave, then pool, then name, then pack id.
pub open spec fn entry_order(a: AbyssMonsterEntry, b: AbyssMonsterEntry) -> int {
    then_order(
        order_opt_u32(a.half, b.half),
        then_order(
            order_opt_u32(a.wave, b.wave),
            then_order(
                order_opt_text(opt_view(a.monster_pool_id), opt_view(b.monster_pool_id)),
                then_order(order_text(a.name@, b.name@), order_text(a.pack_id@, b.pack_id@)),
            ),
        ),
    )
}

/// Orders of three elements that compose transitively.
pub open spec fn chains(ab: int, bc: int, ac: int) -> bool {
    &&& (ab <= 0 && bc <= 0 ==> ac <= 0)
    &&& (ab <= 0 && bc <= 0 && (ab < 0 || bc < 0) ==> ac < 0)
    &&& (ab == 0 && bc == 0 ==> ac == 0)
}

proof fn lemma_then_chains(x1: int, y1: int, z1: int, x2: int, y2: int, z2: int)
    requires
        chains(x1, y1, z1),
        chains(x2, y2, z2),
    ensures
        chains(then_order(x1, x2), then_order(y1, y2), then_order(z1, z2)),
{
}

proof fn lemma_opt_u32_chains(a: Option<u32>, b: Option<u32>, c: Option<u32>)
    ensures
        chains(order_opt_u32(a, b), order_opt_u32(b, c), order_opt_u32(a, c)),
        order_opt_u32(a, b) == -order_opt_u32(b, a),
{
}

proof fn lemma_text_chains(a: Seq<char>, b: Seq<char>, c: Seq<char>)
    ensures
        chains(order_text(a, b), order_text(b, c), order_text(a, c)),
        order_text(a, b) == -order_text(b, a),
{
    crate::ranking::lemma_order_text(a, b);
    crate::ranking::lemma_order_text(b, c);
    crate::ranking::lemma_order_text(a, c);
    if order_text(a, b) <= 0 && order_text(b, c) <= 0 {
        crate::ranking::lemma_order_text_trans(a, b, c);
    }
}

proof fn lemma_opt_text_chains(a: Option<Seq<char>>, b: Option<Seq<char>>, c: Option<Seq<char>>)
    ensures
        chains(order_opt_text(a, b), order_opt_text(b, c), order_opt_text(a, c)),
        order_opt_text(a, b) == -order_opt_text(b, a),
{
    crate::ranking::lemma_order_opt_text(a, b);
    crate::ranking::lemma_order_opt_text(b, c);
    crate::ranking::lemma_order_opt_text(a, c);
    if order_opt_text(a, b) <= 0 && order_opt_text(b, c) <= 0 {
        crate::ranking::lemma_order_opt_text_trans(a, b, c);
    }
}

proof fn lemma_entry_chains(a: AbyssMonsterEntry, b: AbyssMonsterEntry, c: AbyssMonsterEntry)
    ensures
        chains(entry_order(a, b), entry_order(b, c), entry_order(a, c)),
        entry_order(a, b) == -entry_order(b, a),
{
    lemma_opt_u32_chains(a.half, b.half, c.half);
    lemma_opt_u32_chains(a.wave, b.wave, c.wave);
    lemma_opt_text_chains(
        opt_view(a.monster_pool_id),
        opt_view(b.monster_pool_id),
        opt_view(c.monster_pool_id),
    );
    lemma_text_chains(a.name@, b.name@, c.name@);
    lemma_text_chains(a.pack_id@, b.pack_id@, c.pack_id@);
    let p = order_text(a.pack_id@, b.pack_id@);
    lemma_then_chains(
        order_text(a.name@, b.name@),
        order_text(b.name@, c.name@),
        order_text(a.name@, c.name@),
        order_text(a.pack_id@, b.pack_id@),
        order_text(b.pack_id@, c.pack_id@),
        order_text(a.pack_id@, c.pack_id@),
    );
    let n_ab = then_order(order_text(a.name@, b.name@), order_text(a.pack_id@, b.pack_id@));
    let n_bc = then_order(order_text(b.name@, c.name@), order_text(b.pack_id@, c.pack_id@));
    let n_ac = then_order(order_text(a.name@, c.name@), order_text(a.pack_id@, c.pack_id@));
    let o_ab = order_opt_text(opt_view(a.monster_pool_id), opt_view(b.monster_pool_id));
    let o_bc = order_opt_text(opt_view(b.monster_pool_id), opt_view(c.monster_pool_id));
    let o_ac = order_opt_text(opt_view(a.monster_pool_id), opt_view(c.monster_pool_id));
    lemma_then_chains(o_ab, o_bc, o_ac, n_ab, n_bc, n_ac);
    let w_ab = order_opt_u32(a.wave, b.wave);
    let w_bc = order_opt_u32(b.wave, c.wave);
    let w_ac = order_opt_u32(a.wave, c.wave);
    lemma_then_chains(
        w_ab,
        w_bc,
        w_ac,
        then_order(o_ab, n_ab),
        then_order(o_bc, n_bc),
        then_order(o_ac, n_ac),
    );
    lemma_then_chains(
        order_opt_u32(a.half, b.half),
        order_opt_u32(b.half, c.half),
        order_opt_u32(a.half, c.half),
        then_order(w_ab, then_order(o_ab, n_ab)),
        then_order(w_bc, then_order(o_bc, n_bc)),
        then_order(w_ac, then_order(o_ac, n_ac)),
    );
}

impl Ranked for AbyssMonsterEntry {
    open spec fn rank_le(self, other: Self) -> bool {
        entry_order(self, other) <= 0
    }

    proof fn lemma_rank_total(a: Self, b: Self) {
        lemma_entry_chains(a, b, a);
    }

    proof fn lemma_rank_trans(a: Self, b: Self, c: Self) {
        lemma_entry_chains(a, b, c);
    }

    fn ranks_le(&self, other: &Self) -> (r: bool) {
        let h = order_opt_u32_exec(self.half, other.half);
        if h != 0 {
            return h < 0;
        }
        let w = order_opt_u32_exec(self.wave, other.wave);
        if w != 0 {
            return w < 0;
        }
        let p = order_opt_text_exec(&self.monster_pool_id, &other.monster_pool_id);
        if p != 0 {
            return p < 0;
        }
        let n = order_text_exec(self.name.as_str(), other.name.as_str());
        if n != 0 {
            return n < 0;
        }
        order_text_exec(self.pack_id.as_str(), other.pack_id.as_str()) <= 0
    }
}

impl Ranked for AbyssFloor {
    open spec fn rank_le(self, other: Self) -> bool {
        self.floor <= other.floor
    }

    proof fn lemma_rank_total(a: Self, b: Self) {
    }

    proof fn lemma_rank_trans(a: Self, b: Self, c: Self) {
    }

    fn ranks_le(&self, other: &Self) -> (r: bool) {
        self.floor <= other.floor
    }
}

impl Ranked for AbyssSeason {
    open spec fn rank_le(self, other: Self) -> bool {
        self.season <= other.season
    }

    proof fn lemma_rank_total(a: Self, b: Self) {
    }

    proof fn lemma_rank_trans(a: Self, b: Self, c: Self) {
    }

    fn ranks_le(&self, other: &Self) -> (r: bool) {
        self.season <= other.season
    }
}

// ---------------------------------------------------------------------------
// Views
// ---------------------------------------------------------------------------

/// A monster entry as plain values.
pub struct EntryView {
    pub pack_id: Seq<char>,
    pub attribute_id: Seq<char>,
    pub monster_pool_id: Option<Seq<char>>,
    pub monster_id: Seq<char>,
    pub name: Seq<char>,
    pub count: u32,
    pub level: Option<u32>,
    pub half: Option<u32>,
    pub wave: Option<u32>,
    pub is_boss: bool,
}

pub struct FloorView {
    pub season: u32,
    pub season_name: Option<Seq<char>>,
    pub floor: u32,
    pub name: Option<Seq<char>>,
    pub monsters: Seq<EntryView>,
}

pub struct SeasonView {
    pub season: u32,
    pub name: Option<Seq<char>>,
    pub floors: Seq<FloorView>,
}

pub open spec fn entry_view(e: AbyssMonsterEntry) -> EntryView {
    EntryView {
        pack_id: e.pack_id@,
        attribute_id: e.attribute_id@,
        monster_pool_id: opt_view(e.monster_pool_id),
        monster_id: e.monster_id@,
        name: e.name@,
        count: e.count,
        level: e.level,
        half: e.half,
        wave: e.wave,
        is_boss: e.is_boss,
    }
}

pub open spec fn floor_view(f: AbyssFloor) -> FloorView {
    FloorView {
        season: f.season,
        season_name: opt_view(f.season_name),
        floor: f.floor,
        name: opt_view(f.name),
        monsters: f.monsters@.map_values(|e: AbyssMonsterEntry| entry_view(e)),
    }
}

pub open spec fn season_view(s: AbyssSeason) -> SeasonView {
    SeasonView {
        season: s.season,
        name: opt_view(s.name),
        floors: s.floors@.map_values(|f: AbyssFloor| floor_view(f)),
    }
}

/// The seasons of a dataset as plain values.
pub open spec fn dataset_view(ds: AbyssMonsterDataset) -> Seq<SeasonView> {
    ds.seasons@.map_values(|s: AbyssSeason| season_view(s))
}

/// The listing order of monsters, over their plain values.
pub open spec fn entry_view_order(a: EntryView, b: EntryView) -> int {
    then_order(
        order_opt_u32(a.half, b.half),
        then_order(
            order_opt_u32(a.wave, b.wave),
            then_order(
                order_opt_text(a.monster_pool_id, b.monster_pool_id),
                then_order(order_text(a.name, b.name), order_text(a.pack_id, b.pack_id)),
            ),
        ),
    )
}

pub open spec fn entry_view_le() -> spec_fn(EntryView, EntryView) -> bool {
    |a: EntryView, b: EntryView| entry_view_order(a, b) <= 0
}

pub open spec fn floor_view_le() -> spec_fn(FloorView, FloorView) -> bool {
    |a: FloorView, b: FloorView| a.floor <= b.floor
}

pub open spec fn season_view_le() -> spec_fn(SeasonView, SeasonView) -> bool {
    |a: SeasonView, b: SeasonView| a.season <= b.season
}

/// Sorting monsters and then taking their plain values is sorting the plain values.
pub proof fn lemma_sorted_entry_views(s: Seq<AbyssMonsterEntry>)
    ensures
        sort_by(s, rank_rel::<AbyssMonsterEntry>()).map_values(|e: AbyssMonsterEntry| entry_view(e))
            == sort_by(s.map_values(|e: AbyssMonsterEntry| entry_view(e)), entry_view_le()),
{
    lemma_sort_by_map(
        s,
        |e: AbyssMonsterEntry| entry_view(e),
        rank_rel::<AbyssMonsterEntry>(),
        entry_view_le(),
    );
}

pub proof fn lemma_sorted_floor_views(s: Seq<AbyssFloor>)
    ensures
        sort_by(s, rank_rel::<AbyssFloor>()).map_values(|f: AbyssFloor| floor_view(f)) == sort_by(
            s.map_values(|f: AbyssFloor| floor_view(f)),
            floor_view_le(),
        ),
{
    lemma_sort_by_map(s, |f: AbyssFloor| floor_view(f), rank_rel::<AbyssFloor>(), floor_view_le());
}

pub proof fn lemma_sorted_season_views(s: Seq<AbyssSeason>)
    ensures
        sort_by(s, rank_rel::<AbyssSeason>()).map_values(|x: AbyssSeason| season_view(x)) == sort_by(
            s.map_values(|x: AbyssSeason| season_view(x)),
            season_view_le(),
        ),
{
    lemma_sort_by_map(
        s,
        |x: AbyssSeason| season_view(x),
        rank_rel::<AbyssSeason>(),
        season_view_le(),
    );
}

/// Every floor is filed under the season it belongs to.
pub open spec fn floors_match_seasons(ds: AbyssMonsterDataset) -> bool {
    forall|i: int, j: int|
        0 <= i < ds.seasons@.len() && 0 <= j < ds.seasons@[i].floors@.len() ==> (
        #[trigger] ds.seasons@[i].floors@[j]).season == ds.seasons@[i].season
}

/// What holds of a season as built: its floors are its own, in order of
/// number, each with its monsters in listing order.
pub open spec fn season_ordered(s: AbyssSeason) -> bool {
    &&& sorted_by_rank(s.floors@)
    &&& forall|j: int| 0 <= j < s.floors@.len() ==> (#[trigger] s.floors@[j]).season == s.season
        && sorted_by_rank(s.floors@[j].monsters@)
}

/// A dataset as built: seasons in order of number, each ordered.
pub open spec fn well_ordered(ds: AbyssMonsterDataset) -> bool {
    &&& sorted_by_rank(ds.seasons@)
    &&& forall|i: int| 0 <= i < ds.seasons@.len() ==> season_ordered(#[trigger] ds.seasons@[i])
}

pub proof fn lemma_well_ordered_floors_match(ds: AbyssMonsterDataset)
    requires
        well_ordered(ds),
    ensures
        floors_match_seasons(ds),
{
    assert forall|i: int, j: int|
        0 <= i < ds.seasons@.len() && 0 <= j < ds.seasons@[i].floors@.len() implies (
        #[trigger] ds.seasons@[i].floors@[j]).season == ds.seasons@[i].season by {
        assert(season_ordered(ds.seasons@[i]));
    }
}

proof fn lemma_find_floor_number(floors: Seq<AbyssFloor>, floor: u32)
    ensures
        find_floor(floors, floor) matches Some(f) ==> f.floor == floor && floors.contains(f),
    decreases floors.len(),
{
    if floors.len() > 0 && floors[0].floor != floor {
        lemma_find_floor_number(floors.drop_first(), floor);
        if let Some(f) = find_floor(floors.drop_first(), floor) {
            let i = choose|i: int| 0 <= i < floors.drop_first().len() && floors.drop_first()[i] == f;
            assert(floors[i + 1] == f);
        }
    } else if floors.len() > 0 {
        assert(floors[0] == floors[0]);
    }
}

proof fn lemma_find_season_number(seasons: Seq<AbyssSeason>, season: u32)
    ensures
        find_season(seasons, season) matches Some(s) ==> s.season == season && seasons.contains(s),
    decreases seasons.len(),
{
    if seasons.len() > 0 && seasons[0].season != season {
        lemma_find_season_number(seasons.drop_first(), season);
        if let Some(s) = find_season(seasons.drop_first(), season) {
            let i = choose|i: int| 0 <= i < seasons.drop_first().len() && seasons.drop_first()[i] == s;
            assert(seasons[i + 1] == s);
        }
    } else if seasons.len() > 0 {
        assert(seasons[0] == seasons[0]);
    }
}

/// A floor looked up by season and number has that number, and, in a
/// dataset whose floors are filed under their seasons, that season.
pub proof fn lemma_floor_lookup_matches(ds: AbyssMonsterDataset, season: u32, floor: u32)
    ensures
        dataset_floor(ds, season, floor) matches Some(f) ==> f.floor == floor,
        floors_match_seasons(ds) ==> (dataset_floor(ds, season, floor) matches Some(f) ==> f.season
            == season),
{
    lemma_find_season_number(ds.seasons@, season);
    if let Some(s) = find_season(ds.seasons@, season) {
        lemma_find_floor_number(s.floors@, floor);
        if floors_match_seasons(ds) {
            if let Some(f) = find_floor(s.floors@, floor) {
                let i = choose|i: int| 0 <= i < ds.seasons@.len() && ds.seasons@[i] == s;
                let j = choose|j: int| 0 <= j < s.floors@.len() && s.floors@[j] == f;
                assert(ds.seasons@[i].floors@[j] == f);
            }
        }
    }
}

} // verus!
