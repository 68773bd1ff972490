//! Collision damage and death: a hit by an attack kills an enemy and leaves
//! a marker that fades after a fixed time.

use vstd::prelude::*;
use crate::components::{Duration, Spritesheet};
use crate::enemy::Enemy;
use crate::vec2::Vec3;

verus! {

/// Time that a marker of a dead enemy stays, in microseconds.
pub const DEAD_LIFETIME: i64 = 1_600_000;

/// Index of the animation that a marker plays.
pub const DEAD_ANIMATION: usize = 0;

/// What is left where an enemy died: a sprite with a countdown.
#[derive(Clone, Copy, Debug, PartialEq, Eq, Structural)]
pub struct DeadBundle {
    pub duration: Duration,
    pub animation: usize,
    pub spritesheet: Spritesheet,
    pub transform: Vec3,
}

/// The marker left at `position`.
pub open spec fn dead_at(spritesheet: Spritesheet, position: Vec3) -> DeadBundle {
    DeadBundle {
        duration: Duration(DEAD_LIFETIME),
        animation: DEAD_ANIMATION,
        spritesheet,
        transform: position,
    }
}

impl DeadBundle {
    pub fn new(spritesheet_handle: Spritesheet, position: Vec3) -> (r: DeadBundle)
        ensures
            r == dead_at(spritesheet_handle, position),
    {
        DeadBundle {
            duration: Duration(DEAD_LIFETIME),
            animation: DEAD_ANIMATION,
            spritesheet: spritesheet_handle,
            transform: position,
        }
    }
}

/// A collision that started between two entities.
#[derive(Clone, Copy, Debug, PartialEq, Eq, Structural)]
pub struct CollisionStarted(pub u64, pub u64);

/// Index of the first enemy from `start` on whose identity is `id`.
pub open spec fn find_from(enemies: Seq<Enemy>, id: u64, start: int) -> Option<int>
    decreases enemies.len() - start,
{
    if start < 0 || start >= enemies.len() {
        None
    } else if enemies[start].id == id {
        Some(start)
    } else {
        find_from(enemies, id, start + 1)
    }
}

/// Index of the enemy whose identity is `id`, if it is alive.
pub open spec fn find(enemies: Seq<Enemy>, id: u64) -> Option<int> {
    find_from(enemies, id, 0)
}

/// Index of the enemy that an event kills: the side that is a living enemy
/// while the other side is an attack, the first side being tried first.
pub open spec fn victim(enemies: Seq<Enemy>, attacks: Seq<u64>, event: CollisionStarted)
    -> Option<int> {
    if find(enemies, event.0) is Some && attacks.contains(event.1) {
        find(enemies, event.0)
    } else if find(enemies, event.1) is Some && attacks.contains(event.0) {
        find(enemies, event.1)
    } else {
        None
    }
}

/// The living enemies and the markers made so far.
pub struct Battle {
    pub enemies: Seq<Enemy>,
    pub dead: Seq<DeadBundle>,
}

/// The battle after one event: its victim, if it has one, leaves the living
/// and a marker is made where it stood. Any other event changes nothing.
pub open spec fn resolve_one(
    battle: Battle,
    attacks: Seq<u64>,
    event: CollisionStarted,
    spritesheet: Spritesheet,
) -> Battle {
    match victim(battle.enemies, attacks, event) {
        Some(i) => Battle {
            enemies: battle.enemies.remove(i),
            dead: battle.dead.push(dead_at(spritesheet, battle.enemies[i].position)),
        },
        None => battle,
    }
}

/// The battle after a batch of events, taken in order.
pub open spec fn resolve(
    battle: Battle,
    attacks: Seq<u64>,
    events: Seq<CollisionStarted>,
    spritesheet: Spritesheet,
) -> Battle
    decreases events.len(),
{
    if events.len() == 0 {
        battle
    } else {
        resolve_one(
            resolve(battle, attacks, events.drop_last(), spritesheet),
            attacks,
            events.last(),
            spritesheet,
        )
    }
}

/// No two enemies share an identity.
pub open spec fn distinct_ids(enemies: Seq<Enemy>) -> bool {
    forall|i: int, j: int|
        0 <= i < j < enemies.len() ==> (#[trigger] enemies[i]).id != (#[trigger] enemies[j]).id
}

/// What `find_from` returns is the first match from `start` on.
pub proof fn lemma_find_from(enemies: Seq<Enemy>, id: u64, start: int)
    requires
        0 <= start,
    ensures
        match find_from(enemies, id, start) {
            Some(i) => start <= i < enemies.len() && enemies[i].id == id && forall|j: int|
                start <= j < i ==> (#[trigger] enemies[j]).id != id,
            None => forall|j: int| start <= j < enemies.len() ==> (#[trigger] enemies[j]).id != id,
        },
    decreases enemies.len() - start,
{
    if start < enemies.len() && enemies[start].id != id {
        lemma_find_from(enemies, id, start + 1);
    }
}

/// Resolving events makes no enemy: whoever lives afterwards lived before.
pub proof fn lemma_resolve_keeps(
    battle: Battle,
    attacks: Seq<u64>,
    events: Seq<CollisionStarted>,
    spritesheet: Spritesheet,
)
    ensures
        forall|e: Enemy|
            #[trigger] resolve(battle, attacks, events, spritesheet).enemies.contains(e)
                ==> battle.enemies.contains(e),
    decreases events.len(),
{
    if events.len() > 0 {
        lemma_resolve_keeps(battle, attacks, events.drop_last(), spritesheet);
        let before = resolve(battle, attacks, events.drop_last(), spritesheet);
        let after = resolve_one(before, attacks, events.last(), spritesheet);
        match victim(before.enemies, attacks, events.last()) {
            Some(i) => {
                lemma_find_from(before.enemies, events.last().0, 0);
                lemma_find_from(before.enemies, events.last().1, 0);
                assert forall|e: Enemy| after.enemies.contains(e) implies before.enemies.contains(
                    e,
                ) by {
                    let k = choose|k: int| 0 <= k < after.enemies.len() && after.enemies[k] == e;
                    assert(before.enemies[if k < i { k } else { k + 1 }] == e);
                }
            },
            None => {},
        }
    }
}

/// An identity that no enemy has is not found.
pub proof fn lemma_absent_is_not_found(enemies: Seq<Enemy>, id: u64)
    requires
        forall|j: int| 0 <= j < enemies.len() ==> (#[trigger] enemies[j]).id != id,
    ensures
        find(enemies, id) is None,
{
    lemma_find_from(enemies, id, 0);
}

/// Among enemies with distinct identities, the one removed is found no more
/// and the others keep distinct identities.
pub proof fn lemma_removed_is_gone(enemies: Seq<Enemy>, i: int)
    requires
        distinct_ids(enemies),
        0 <= i < enemies.len(),
    ensures
        find(enemies.remove(i), enemies[i].id) is None,
        distinct_ids(enemies.remove(i)),
        enemies.remove(i).len() == enemies.len() - 1,
{
    let rest = enemies.remove(i);
    assert forall|j: int| 0 <= j < rest.len() implies (#[trigger] rest[j]).id != enemies[i].id by {
        assert(rest[j] == enemies[if j < i { j } else { j + 1 }]);
    }
    lemma_absent_is_not_found(rest, enemies[i].id);
    assert forall|a: int, b: int| 0 <= a < b < rest.len() implies (#[trigger] rest[a]).id != (
    #[trigger] rest[b]).id by {
        assert(rest[a] == enemies[if a < i { a } else { a + 1 }]);
        assert(rest[b] == enemies[if b < i { b } else { b + 1 }]);
    }
}

/// A hit kills once. An event between a living enemy and an attack, in
/// either order, where the attack is not itself a living enemy, makes
/// exactly one marker at the place where the enemy stood and removes that
/// enemy, which is then found no more.
pub proof fn lemma_hit_kills_once(
    battle: Battle,
    attacks: Seq<u64>,
    enemy: u64,
    attack: u64,
    attack_first: bool,
    spritesheet: Spritesheet,
)
    requires
        distinct_ids(battle.enemies),
        find(battle.enemies, enemy) is Some,
        find(battle.enemies, attack) is None,
        attacks.contains(attack),
    ensures
        ({
            let event = if attack_first {
                CollisionStarted(attack, enemy)
            } else {
                CollisionStarted(enemy, attack)
            };
            let i = find(battle.enemies, enemy).unwrap();
            let after = resolve_one(battle, attacks, event, spritesheet);
            &&& 0 <= i < battle.enemies.len()
            &&& battle.enemies[i].id == enemy
            &&& after.dead == battle.dead.push(dead_at(spritesheet, battle.enemies[i].position))
            &&& after.enemies == battle.enemies.remove(i)
            &&& find(after.enemies, enemy) is None
            &&& distinct_ids(after.enemies)
        }),
{
    lemma_find_from(battle.enemies, enemy, 0);
    let i = find(battle.enemies, enemy).unwrap();
    lemma_removed_is_gone(battle.enemies, i);
}

/// An event that names no living enemy changes nothing: no marker is made
/// and nobody is removed.
pub proof fn lemma_stale_event_is_ignored(
    battle: Battle,
    attacks: Seq<u64>,
    event: CollisionStarted,
    spritesheet: Spritesheet,
)
    requires
        find(battle.enemies, event.0) is None,
        find(battle.enemies, event.1) is None,
    ensures
        resolve_one(battle, attacks, event, spritesheet) == battle,
{
}

/// An event that names no attack, or no living enemy beside its attack,
/// changes nothing.
pub proof fn lemma_other_event_is_ignored(
    battle: Battle,
    attacks: Seq<u64>,
    event: CollisionStarted,
    spritesheet: Spritesheet,
)
    requires
        !(find(battle.enemies, event.0) is Some && attacks.contains(event.1)),
        !(find(battle.enemies, event.1) is Some && attacks.contains(event.0)),
    ensures
        resolve_one(battle, attacks, event, spritesheet) == battle,
{
}

/// A second hit on the same enemy makes no second marker. After an event
/// between a living enemy and an attack, a further event between the two,
/// in either order, changes nothing.
pub proof fn lemma_duplicate_hit_is_ignored(
    battle: Battle,
    attacks: Seq<u64>,
    enemy: u64,
    attack: u64,
    first_attack_first: bool,
    second_attack_first: bool,
    spritesheet: Spritesheet,
)
    requires
        distinct_ids(battle.enemies),
        find(battle.enemies, enemy) is Some,
        find(battle.enemies, attack) is None,
        attacks.contains(attack),
    ensures
        ({
            let first = if first_attack_first {
                CollisionStarted(attack, enemy)
            } else {
                CollisionStarted(enemy, attack)
            };
            let second = if second_attack_first {
                CollisionStarted(attack, enemy)
            } else {
                CollisionStarted(enemy, attack)
            };
            let once = resolve_one(battle, attacks, first, spritesheet);
            &&& resolve_one(once, attacks, second, spritesheet) == once
            &&& resolve(battle, attacks, seq![first, second], spritesheet) == once
            &&& once.dead.len() == battle.dead.len() + 1
        }),
{
    let first = if first_attack_first {
        CollisionStarted(attack, enemy)
    } else {
        CollisionStarted(enemy, attack)
    };
    let second = if second_attack_first {
        CollisionStarted(attack, enemy)
    } else {
        CollisionStarted(enemy, attack)
    };
    lemma_hit_kills_once(battle, attacks, enemy, attack, first_attack_first, spritesheet);
    let once = resolve_one(battle, attacks, first, spritesheet);
    lemma_find_from(battle.enemies, attack, 0);
    let i = find(battle.enemies, enemy).unwrap();
    assert forall|j: int| 0 <= j < once.enemies.len() implies (#[trigger] once.enemies[j]).id
        != attack by {
        assert(once.enemies[j] == battle.enemies[if j < i { j } else { j + 1 }]);
    }
    lemma_absent_is_not_found(once.enemies, attack);
    lemma_stale_event_is_ignored(once, attacks, second, spritesheet);
    let both = seq![first, second];
    assert(both.drop_last() =~= seq![first]);
    assert(seq![first].drop_last() =~= Seq::<CollisionStarted>::empty());
    assert(resolve(battle, attacks, Seq::empty(), spritesheet) == battle);
    assert(resolve(battle, attacks, seq![first], spritesheet) == once);
}

/// Over a whole batch, every marker made stands for one enemy removed, and
/// distinct identities stay distinct.
pub proof fn lemma_resolve_counts(
    battle: Battle,
    attacks: Seq<u64>,
    events: Seq<CollisionStarted>,
    spritesheet: Spritesheet,
)
    requires
        distinct_ids(battle.enemies),
    ensures
        ({
            let after = resolve(battle, attacks, events, spritesheet);
            &&& after.dead.len() - battle.dead.len() == battle.enemies.len() - after.enemies.len()
            &&& after.dead.len() <= battle.dead.len() + events.len()
            &&& after.dead.len() >= battle.dead.len()
            &&& distinct_ids(after.enemies)
        }),
    decreases events.len(),
{
    if events.len() > 0 {
        lemma_resolve_counts(battle, attacks, events.drop_last(), spritesheet);
        let before = resolve(battle, attacks, events.drop_last(), spritesheet);
        match victim(before.enemies, attacks, events.last()) {
            Some(i) => {
                lemma_find_from(before.enemies, events.last().0, 0);
                lemma_find_from(before.enemies, events.last().1, 0);
                lemma_removed_is_gone(before.enemies, i);
            },
            None => {},
        }
    }
}

/// The sum of the ticks.
pub open spec fn total(ticks: Seq<int>) -> int
    decreases ticks.len(),
{
    if ticks.len() == 0 {
        0
    } else {
        total(ticks.drop_last()) + ticks.last()
    }
}

/// A marker after each of the ticks in turn, if it is still there.
pub open spec fn aged_through(marker: DeadBundle, ticks: Seq<int>) -> Option<DeadBundle>
    decreases ticks.len(),
{
    if ticks.len() == 0 {
        Some(marker)
    } else {
        match aged_through(marker, ticks.drop_last()) {
            Some(m) => aged(m, ticks.last()),
            None => None,
        }
    }
}

/// A marker with time to live stays while the time passed is short of its
/// lifetime and is gone from the first tick on at which the time passed
/// reaches it. While it stays, only its countdown changes, by the time
/// passed.
pub proof fn lemma_marker_lifetime(marker: DeadBundle, ticks: Seq<int>)
    requires
        marker.duration.0 > 0,
        forall|i: int| 0 <= i < ticks.len() ==> 0 <= #[trigger] ticks[i],
    ensures
        total(ticks) >= 0,
        aged_through(marker, ticks) is Some <==> total(ticks) < marker.duration.0,
        aged_through(marker, ticks) matches Some(m) ==> m == (DeadBundle {
            duration: Duration((marker.duration.0 - total(ticks)) as i64),
            ..marker
        }),
    decreases ticks.len(),
{
    if ticks.len() > 0 {
        let earlier = ticks.drop_last();
        assert forall|i: int| 0 <= i < earlier.len() implies 0 <= #[trigger] earlier[i] by {
            assert(earlier[i] == ticks[i]);
        }
        lemma_marker_lifetime(marker, earlier);
    }
}

/// Index of the enemy whose identity is `id`, if it is alive.
pub fn find_enemy(enemies: &Vec<Enemy>, id: u64) -> (r: Option<usize>)
    ensures
        match r {
            Some(i) => find(enemies@, id) == Some(i as int),
            None => find(enemies@, id) is None,
        },
{
    let mut i: usize = 0;
    while i < enemies.len()
        invariant
            0 <= i <= enemies@.len(),
            find(enemies@, id) == find_from(enemies@, id, i as int),
        decreases enemies@.len() - i,
    {
        if enemies[i].id == id {
            return Some(i);
        }
        i = i + 1;
    }
    None
}

/// Whether `id` is the identity of an attack hitbox.
pub fn is_attack(attacks: &Vec<u64>, id: u64) -> (r: bool)
    ensures
        r == attacks@.contains(id),
{
    let mut i: usize = 0;
    while i < attacks.len()
        invariant
            0 <= i <= attacks@.len(),
            forall|j: int| 0 <= j < i ==> attacks@[j] != id,
        decreases attacks@.len() - i,
    {
        if attacks[i] == id {
            return true;
        }
        i = i + 1;
    }
    false
}

/// Index of the enemy that `event` kills, if it kills one.
pub fn find_victim(enemies: &Vec<Enemy>, attacks: &Vec<u64>, event: CollisionStarted) -> (r:
    Option<usize>)
    ensures
        match r {
            Some(i) => victim(enemies@, attacks@, event) == Some(i as int) && i < enemies@.len(),
            None => victim(enemies@, attacks@, event) is None,
        },
{
    proof {
        lemma_find_from(enemies@, event.0, 0);
        lemma_find_from(enemies@, event.1, 0);
    }
    let first = find_enemy(enemies, event.0);
    if first.is_some() && is_attack(attacks, event.1) {
        return first;
    }
    let second = find_enemy(enemies, event.1);
    if second.is_some() && is_attack(attacks, event.0) {
        return second;
    }
    None
}

/// Resolves one batch of collision events against the living enemies.
/// Each event between a living enemy and an attack, whichever side names
/// which, removes that enemy and makes one marker where it stood. An event
/// that names no such pair, or an enemy that an earlier event of the batch
/// removed, changes nothing. Returns the markers made, in the order of the
/// events that made them.
pub fn damage_enemies(
    enemies: &mut Vec<Enemy>,
    attacks: &Vec<u64>,
    events: &Vec<CollisionStarted>,
    spritesheet: Spritesheet,
) -> (dead: Vec<DeadBundle>)
    ensures
        (Battle { enemies: final(enemies)@, dead: dead@ }) == resolve(
            Battle { enemies: old(enemies)@, dead: Seq::empty() },
            attacks@,
            events@,
            spritesheet,
        ),
{
    let ghost start = Battle { enemies: enemies@, dead: Seq::empty() };
    let mut dead: Vec<DeadBundle> = Vec::new();
    let mut k: usize = 0;
    while k < events.len()
        invariant
            0 <= k <= events@.len(),
            (Battle { enemies: enemies@, dead: dead@ }) == resolve(
                start,
                attacks@,
                events@.take(k as int),
                spritesheet,
            ),
        decreases events@.len() - k,
    {
        let event = events[k];
        proof {
            let next = events@.take(k + 1);
            assert(next.drop_last() =~= events@.take(k as int));
        }
        match find_victim(enemies, attacks, event) {
            Some(i) => {
                let position = enemies[i].position;
                dead.push(DeadBundle::new(spritesheet, position));
                enemies.remove(i);
            },
            None => {},
        }
        k = k + 1;
    }
    assert(events@.take(events@.len() as int) =~= events@);
    dead
}

/// A marker after `dt` more microseconds: its remaining time, or nothing
/// once its time is spent.
pub open spec fn aged(marker: DeadBundle, dt: int) -> Option<DeadBundle> {
    if marker.duration.0 > dt {
        Some(DeadBundle { duration: Duration((marker.duration.0 - dt) as i64), ..marker })
    } else {
        None
    }
}

/// The markers that remain after `dt` more microseconds, in their order.
pub open spec fn aged_all(markers: Seq<DeadBundle>, dt: int) -> Seq<DeadBundle>
    decreases markers.len(),
{
    if markers.len() == 0 {
        Seq::empty()
    } else {
        let rest = aged_all(markers.drop_last(), dt);
        match aged(markers.last(), dt) {
            Some(m) => rest.push(m),
            None => rest,
        }
    }
}

/// Ages every marker by `dt` microseconds and removes those whose time is
/// spent.
pub fn death(dt: u32, markers: &mut Vec<DeadBundle>)
    ensures
        final(markers)@ == aged_all(old(markers)@, dt as int),
{
    let ghost before = markers@;
    let mut kept: Vec<DeadBundle> = Vec::new();
    let mut i: usize = 0;
    while i < markers.len()
        invariant
            0 <= i <= markers@.len(),
            markers@ == before,
            kept@ == aged_all(before.take(i as int), dt as int),
        decreases markers@.len() - i,
    {
        let marker = markers[i];
        proof {
            let next = before.take(i + 1);
            assert(next.drop_last() =~= before.take(i as int));
        }
        if marker.duration.0 > dt as i64 {
            kept.push(DeadBundle { duration: Duration(marker.duration.0 - dt as i64), ..marker });
        }
        i = i + 1;
    }
    assert(before.take(before.len() as int) =~= before);
    *markers = kept;
}

} // verus!
