//! The two phases of a tick, each a fixed chain of steps.

use vstd::prelude::*;
use crate::animation::{animate, animation_index};
use crate::attack::{attack, attack_step, triggered};
use crate::camera::{camera_fit_inside_current_level, fitted, view_fits, Camera, Level, Window};
use crate::combat::{
    aged_all, damage_enemies, death, lemma_resolve_keeps, resolve, Battle, CollisionStarted,
    DeadBundle,
};
use crate::components::Spritesheet;
use crate::config::Configuration;
use crate::dash::{applied, apply_force, dash, dash_view, next};
use crate::enemy::{
    all_in_limit, chased, enemies_follow_player, enemies_in_limit, enemy_at, spawn_enemies, spawn_point, Enemy,
    EnemyBundle, EnemySpawnTimer,
};
use crate::fixed::LIMIT;
use crate::input::{keyboard_input, stored_direction, Keys};
use crate::motion::{input_direction, integrate};
use crate::player::Player;
use crate::vec2::{lemma_half_shrinks, Vec2};

verus! {

/// The physics phase, which runs before the bodies are moved: input, then
/// dash, then the velocity of speed and dash together, then the attack's
/// slowdown on that velocity. Returns the velocity to give to the player's
/// body. Without a dash that velocity is no longer than the speed cap.
pub fn physics_phase(config: &Configuration, dt: u32, keys: Keys, player: &mut Player) -> (velocity:
    Vec2)
    requires
        config.wf(),
        old(player).wf(),
    ensures
        final(player).direction == stored_direction(keys.movement),
        final(player).speed@ == integrate(
            old(player).speed@,
            input_direction(keys.movement),
            *config,
            dt as int,
        ),
        final(player).speed@.len2() <= config.max_speed * config.max_speed,
        dash_view(final(player).dash) == next(
            dash_view(old(player).dash),
            keys.dash,
            input_direction(keys.movement),
            *config,
            dt as int,
        ),
        (velocity@, final(player).attack) == attack_step(
            applied(final(player).speed@, dash_view(final(player).dash)),
            triggered(old(player).attack, keys.attack, stored_direction(keys.movement)),
            dt as int,
        ),
        final(player).dash is None ==> velocity@.len2() <= config.max_speed * config.max_speed,
        final(player).wf(),
        final(player).position == old(player).position,
        final(player).life == old(player).life,
{
    keyboard_input(config, dt, keys, player);
    dash(config, dt, keys.dash, player);
    let combined = apply_force(player);
    proof {
        lemma_half_shrinks(combined@);
    }
    attack(dt, combined, player)
}

/// What the update phase works on: the player, if there is one yet, the
/// living enemies, the markers of the dead, the spawn timer and the camera.
pub struct World {
    pub player: Option<Player>,
    pub enemies: Vec<Enemy>,
    pub dead: Vec<DeadBundle>,
    pub spawn_timer: EnemySpawnTimer,
    pub camera: Camera,
}

impl World {
    /// The timer, the player and the places of the enemies are well formed.
    pub open spec fn wf(&self) -> bool {
        &&& self.spawn_timer.wf()
        &&& self.player matches Some(p) ==> p.wf()
        &&& all_in_limit(self.enemies@)
    }

    /// Whether the world is well formed.
    pub fn is_wf(&self) -> (r: bool)
        ensures
            r == self.wf(),
    {
        let player_ok = match self.player {
            Some(p) => p.is_wf(),
            None => true,
        };
        self.spawn_timer.is_wf() && player_ok && enemies_in_limit(&self.enemies)
    }
}

/// The sprite sheets that the update phase hands to what it makes.
#[derive(Clone, Copy, Debug, PartialEq, Eq, Structural)]
pub struct Sheets {
    pub enemy: Spritesheet,
    pub dead: Spritesheet,
}

/// What the update phase asks of the engine.
pub struct Update {
    /// Enemies to create.
    pub spawned: Vec<EnemyBundle>,
    /// The animation for the player's sprite, if there is a player.
    pub animation: Option<usize>,
}

/// The enemies as the pursuit step leaves them: steered toward the player,
/// or untouched while there is no player.
pub open spec fn pursued(enemies: Seq<Enemy>, player: Option<Player>, config: Configuration)
    -> Seq<Enemy> {
    match player {
        Some(p) => chased(enemies, p.position, config.pawn_speed as int),
        None => enemies,
    }
}

/// The update phase: spawn, then pursuit, then the batch of collisions,
/// then the ageing of markers, then the camera. Steps that need the player
/// are skipped while there is none. Markers made in this phase start to age
/// in the next.
pub fn update_phase(
    world: &mut World,
    config: &Configuration,
    dt: u32,
    window: Window,
    level: Level,
    attacks: &Vec<u64>,
    events: &Vec<CollisionStarted>,
    sheets: Sheets,
) -> (update: Update)
    requires
        config.wf(),
        old(world).wf(),
        view_fits(window, level),
    ensures
        update.spawned@.len() == old(world).spawn_timer.periods_within(dt as int),
        forall|i: int|
            0 <= i < update.spawned@.len() ==> (#[trigger] update.spawned@[i]) == enemy_at(
                sheets.enemy,
                spawn_point(),
            ),
        final(world).spawn_timer.elapsed == old(world).spawn_timer.elapsed_after(dt as int),
        final(world).spawn_timer.interval == old(world).spawn_timer.interval,
        ({
            let battle = resolve(
                Battle {
                    enemies: pursued(old(world).enemies@, old(world).player, *config),
                    dead: Seq::empty(),
                },
                attacks@,
                events@,
                sheets.dead,
            );
            &&& final(world).enemies@ == battle.enemies
            &&& final(world).dead@ == aged_all(old(world).dead@, dt as int) + battle.dead
        }),
        final(world).camera == match old(world).player {
            Some(p) => fitted(window, p.position, level, old(world).camera),
            None => old(world).camera,
        },
        update.animation == match old(world).player {
            Some(p) => Some(animation_index(p.direction, p.attack is Some)),
            None => None,
        },
        final(world).player == old(world).player,
        final(world).wf(),
{
    let spawned = spawn_enemies(&mut world.spawn_timer, dt, sheets.enemy);
    let mut animation: Option<usize> = None;
    let mut place = None;
    match world.player {
        Some(p) => {
            enemies_follow_player(config, p.position, &mut world.enemies);
            animation = Some(animate(&p));
            place = Some(p.position);
        },
        None => {},
    }
    let ghost steered = world.enemies@;
    let mut made = damage_enemies(&mut world.enemies, attacks, events, sheets.dead);
    proof {
        let start = Battle { enemies: steered, dead: Seq::empty() };
        let battle = resolve(start, attacks@, events@, sheets.dead);
        lemma_resolve_keeps(start, attacks@, events@, sheets.dead);
        assert forall|i: int| 0 <= i < world.enemies@.len() implies (
        #[trigger] world.enemies@[i]).position.planar().within(LIMIT as int) by {
            let e = battle.enemies[i];
            assert(resolve(start, attacks@, events@, sheets.dead).enemies.contains(e));
        }
    }
    death(dt, &mut world.dead);
    world.dead.append(&mut made);
    camera_fit_inside_current_level(window, place, level, &mut world.camera);
    Update { spawned, animation }
}

} // verus!
