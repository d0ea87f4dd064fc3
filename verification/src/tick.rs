//! One simulation step, with its parts in their fixed order.

use crate::collision::{arena, collided, landed, route_collisions, CollisionEvent};
use crate::gamepad::{devices_after, gamepad_connections, roster};
use crate::geometry::ArenaBounds;
use crate::input::GamepadEvent;
use crate::player::{
    respawn_players_who_leave_window, revived, sweep_events, swept, PlayerBundle, PlayerCount,
    PlayerEvent, PlayerRegistry,
};
use crate::projectile::{
    clean_up_offscreen_projectiles, contained, stray, ProjectileBundle, ProjectileRegistry,
};
use crate::rules::Rules;
use crate::table::sorted_keys;
use vstd::prelude::*;

verus! {

/// What one step hands to the collaborators that draw, sound and simulate.
pub struct TickReport {
    /// What happened to players, in order.
    pub events: Vec<PlayerEvent>,
    /// The projectiles that were removed, in order.
    pub despawned: Vec<u64>,
}

/// The state after one step, with what the step reports.
pub struct Ticked {
    pub players: Map<u64, PlayerBundle>,
    pub count: PlayerCount,
    pub projectiles: Map<u64, ProjectileBundle>,
    pub events: Seq<PlayerEvent>,
    pub despawned: Seq<u64>,
}

/// One step: everyone who died during the last step is active again; the
/// device events add and remove players; the jump resets of the collision
/// batch come before its damage pass; the bounds checks for players and
/// for projectiles come last.
pub open spec fn ticked(
    rules: Rules,
    bounds: ArenaBounds,
    devices: Seq<GamepadEvent>,
    collisions: Seq<CollisionEvent>,
    players: Map<u64, PlayerBundle>,
    count: PlayerCount,
    projectiles: Map<u64, ProjectileBundle>,
) -> Ticked {
    let r = devices_after(rules, roster(revived(players), count), devices);
    let a = collided(rules, arena(landed(rules, r.players, collisions), projectiles), collisions);
    Ticked {
        players: swept(rules, bounds, a.players),
        count: r.count,
        projectiles: contained(bounds, a.projectiles),
        events: r.events + a.events + sweep_events(sorted_keys(a.players.dom()), bounds, a.players),
        despawned: a.despawned + sorted_keys(a.projectiles.dom()).filter(
            stray(bounds, a.projectiles),
        ),
    }
}

/// Runs one simulation step on the two registries, under the rules of the
/// player registry.
pub fn tick(
    devices: &Vec<GamepadEvent>,
    collisions: &Vec<CollisionEvent>,
    bounds: &ArenaBounds,
    players: &mut PlayerRegistry,
    projectiles: &mut ProjectileRegistry,
) -> (report: TickReport)
    requires
        old(players).wf(),
        old(projectiles).wf(),
    ensures
        final(players).wf(),
        final(projectiles).wf(),
        final(players).rules() == old(players).rules(),
        final(projectiles).rules() == old(projectiles).rules(),
        final(projectiles).next_id() == old(projectiles).next_id(),
        ({
            let end = ticked(
                old(players).rules(),
                *bounds,
                devices@,
                collisions@,
                old(players)@,
                old(players).player_count(),
                old(projectiles)@,
            );
            &&& final(players)@ == end.players
            &&& final(players).player_count() == end.count
            &&& final(projectiles)@ == end.projectiles
            &&& report.events@ == end.events
            &&& report.despawned@ == end.despawned
        }),
{
    players.begin_tick();
    let mut events = gamepad_connections(devices, players);
    let mut routed = route_collisions(collisions, players, projectiles);
    let mut fallen = respawn_players_who_leave_window(bounds, players);
    let mut strays = clean_up_offscreen_projectiles(bounds, projectiles);
    events.append(&mut routed.events);
    events.append(&mut fallen);
    let mut despawned = routed.despawned;
    despawned.append(&mut strays);
    TickReport { events, despawned }
}

} // verus!
