//! The input device router and the systems that turn stick and button
//! readings into jumps, shots and movement.

use crate::geometry::Vec2;
use crate::input::{
    reading_of, Axis, AxisReading, Gamepad, GamepadAxis, GamepadAxisType, GamepadButton,
    GamepadButtonType, GamepadEvent, GamepadEventType, Input,
};
use crate::player::{
    bound, key_of, valid_players, PlayerAddedEvent, PlayerBundle, PlayerCount, PlayerEvent,
    PlayerIndex, PlayerRegistry, PlayerRemovedEvent,
};
use crate::projectile::{aimed, ProjectileBundle, ProjectileRegistry};
use crate::rules::Rules;
use crate::table::sorted_keys;
use vstd::prelude::*;

verus! {

/// A request to add a player for a device.
#[derive(Clone, Copy, Debug, PartialEq, Eq, Structural)]
pub struct AddPlayerEvent(pub Gamepad);

/// The button that makes a player jump.
pub open spec fn jump_button(gamepad: Gamepad) -> GamepadButton {
    GamepadButton { gamepad, button_type: GamepadButtonType::South }
}

/// The button that fires.
pub open spec fn fire_button(gamepad: Gamepad) -> GamepadButton {
    GamepadButton { gamepad, button_type: GamepadButtonType::RightTrigger2 }
}

/// The axis that moves a player sideways.
pub open spec fn move_axis(gamepad: Gamepad) -> GamepadAxis {
    GamepadAxis { gamepad, axis_type: GamepadAxisType::LeftStickX }
}

/// The horizontal axis of the aim.
pub open spec fn aim_x(gamepad: Gamepad) -> GamepadAxis {
    GamepadAxis { gamepad, axis_type: GamepadAxisType::RightStickX }
}

/// The vertical axis of the aim.
pub open spec fn aim_y(gamepad: Gamepad) -> GamepadAxis {
    GamepadAxis { gamepad, axis_type: GamepadAxisType::RightStickY }
}

/// The players, the next free index, and what has been announced so far.
pub struct Roster {
    pub players: Map<u64, PlayerBundle>,
    pub count: PlayerCount,
    pub events: Seq<PlayerEvent>,
}

/// The roster of a registry with nothing announced yet.
pub open spec fn roster(players: Map<u64, PlayerBundle>, count: PlayerCount) -> Roster {
    Roster { players, count, events: Seq::empty() }
}

/// The player that `gamepad` controls, where one does.
pub open spec fn holder(m: Map<u64, PlayerBundle>, gamepad: Gamepad) -> u64 {
    choose|k: u64| #[trigger] m.dom().contains(k) && m[k].gamepad.0 == gamepad
}

/// Whether a connecting `gamepad` gets a player: it controls none yet, and
/// an index is left to give.
pub open spec fn admits(r: Roster, gamepad: Gamepad) -> bool {
    !bound(r.players, gamepad) && r.count.0 < u32::MAX
}

/// A device connects: where it is admitted, a player with the defaults of
/// the rules joins under the next index and is announced.
pub open spec fn connect(rules: Rules, r: Roster, gamepad: Gamepad) -> Roster {
    if admits(r, gamepad) {
        let index = PlayerIndex(r.count.0);
        Roster {
            players: r.players.insert(key_of(index), PlayerBundle::fresh(rules, index, gamepad)),
            count: PlayerCount((r.count.0 + 1) as u32),
            events: r.events.push(PlayerEvent::Added(PlayerAddedEvent(index, gamepad))),
        }
    } else {
        r
    }
}

/// A device disconnects: the player it controls, if any, leaves at once,
/// and only its removal is announced.
pub open spec fn disconnect(r: Roster, gamepad: Gamepad) -> Roster {
    if bound(r.players, gamepad) {
        let k = holder(r.players, gamepad);
        Roster {
            players: r.players.remove(k),
            events: r.events.push(
                PlayerEvent::Removed(PlayerRemovedEvent(r.players[k].player_index)),
            ),
            ..r
        }
    } else {
        r
    }
}

/// One device event: connections and disconnections count, nothing else does.
pub open spec fn device_step(rules: Rules, r: Roster, e: GamepadEvent) -> Roster {
    match e.event_type {
        GamepadEventType::Connected => connect(rules, r, e.gamepad),
        GamepadEventType::Disconnected => disconnect(r, e.gamepad),
        _ => r,
    }
}

/// The roster after a batch of device events, taken in order.
pub open spec fn devices_after(rules: Rules, r: Roster, events: Seq<GamepadEvent>) -> Roster
    decreases events.len(),
{
    if events.len() == 0 {
        r
    } else {
        device_step(rules, devices_after(rules, r, events.drop_last()), events.last())
    }
}

/// The roster after a batch of requests to add players, taken in order.
pub open spec fn joined(rules: Rules, r: Roster, requests: Seq<AddPlayerEvent>) -> Roster
    decreases requests.len(),
{
    if requests.len() == 0 {
        r
    } else {
        connect(rules, joined(rules, r, requests.drop_last()), requests.last().0)
    }
}

/// A device has connected. Where no player is bound to it yet, a player
/// joins under the next index. Returns the index of the new player.
pub fn on_device_connected(gamepad: Gamepad, players: &mut PlayerRegistry) -> (r: Option<PlayerIndex>)
    requires
        old(players).wf(),
    ensures
        final(players).wf(),
        final(players).rules() == old(players).rules(),
        r.is_some() == admits(roster(old(players)@, old(players).player_count()), gamepad),
        r matches Some(index) ==> index.0 == old(players).player_count().0,
        final(players)@ == connect(
            old(players).rules(),
            roster(old(players)@, old(players).player_count()),
            gamepad,
        ).players,
        final(players).player_count() == connect(
            old(players).rules(),
            roster(old(players)@, old(players).player_count()),
            gamepad,
        ).count,
{
    let index = PlayerIndex(players.player_count().0);
    if players.spawn(index, gamepad) {
        Some(index)
    } else {
        None
    }
}

/// A device has disconnected. The player bound to it, if any, leaves the
/// registry at once, with whatever lives and health it had. Returns the
/// index of the player that left.
pub fn on_device_disconnected(gamepad: Gamepad, players: &mut PlayerRegistry) -> (r: Option<
    PlayerIndex,
>)
    requires
        old(players).wf(),
    ensures
        final(players).wf(),
        final(players).rules() == old(players).rules(),
        final(players).player_count() == old(players).player_count(),
        r.is_some() == bound(old(players)@, gamepad),
        r matches Some(index) ==> key_of(index) == holder(old(players)@, gamepad) && index == old(
            players,
        )@[holder(old(players)@, gamepad)].player_index,
        final(players)@ == disconnect(
            roster(old(players)@, old(players).player_count()),
            gamepad,
        ).players,
{
    match players.find_by_gamepad(gamepad) {
        Some(index) => {
            assert(key_of(index) == holder(players@, gamepad));
            players.remove(index);
            Some(index)
        },
        None => None,
    }
}

/// Adds a player for each request in turn, as `on_device_connected` does,
/// and announces each player that joined.
pub fn add_player(requests: &Vec<AddPlayerEvent>, players: &mut PlayerRegistry) -> (events: Vec<
    PlayerEvent,
>)
    requires
        old(players).wf(),
    ensures
        final(players).wf(),
        final(players).rules() == old(players).rules(),
        ({
            let end = joined(
                old(players).rules(),
                roster(old(players)@, old(players).player_count()),
                requests@,
            );
            &&& final(players)@ == end.players
            &&& final(players).player_count() == end.count
            &&& events@ == end.events
        }),
{
    let ghost rules = players.rules();
    let ghost start = roster(players@, players.player_count());
    let mut events: Vec<PlayerEvent> = Vec::new();
    let mut j: usize = 0;
    assert(requests@.take(0) =~= Seq::<AddPlayerEvent>::empty());
    while j < requests.len()
        invariant
            players.wf(),
            players.rules() == rules,
            rules == old(players).rules(),
            start == roster(old(players)@, old(players).player_count()),
            j <= requests@.len(),
            players@ == joined(rules, start, requests@.take(j as int)).players,
            players.player_count() == joined(rules, start, requests@.take(j as int)).count,
            events@ == joined(rules, start, requests@.take(j as int)).events,
        decreases requests@.len() - j,
    {
        assert(requests@.take(j + 1).drop_last() =~= requests@.take(j as int));
        let gamepad = requests[j].0;
        match on_device_connected(gamepad, players) {
            Some(index) => {
                events.push(PlayerEvent::Added(PlayerAddedEvent(index, gamepad)));
            },
            None => {},
        }
        j = j + 1;
    }
    assert(requests@.take(requests@.len() as int) =~= requests@);
    events
}

/// The input device router: takes the device events of one tick in order.
/// A connection adds a player for the device unless it controls one
/// already; a disconnection removes the player of the device; every other
/// event is passed over. Returns what happened to players, in order.
pub fn gamepad_connections(events: &Vec<GamepadEvent>, players: &mut PlayerRegistry) -> (out: Vec<
    PlayerEvent,
>)
    requires
        old(players).wf(),
    ensures
        final(players).wf(),
        final(players).rules() == old(players).rules(),
        ({
            let end = devices_after(
                old(players).rules(),
                roster(old(players)@, old(players).player_count()),
                events@,
            );
            &&& final(players)@ == end.players
            &&& final(players).player_count() == end.count
            &&& out@ == end.events
        }),
{
    let ghost rules = players.rules();
    let ghost start = roster(players@, players.player_count());
    let mut out: Vec<PlayerEvent> = Vec::new();
    let mut j: usize = 0;
    assert(events@.take(0) =~= Seq::<GamepadEvent>::empty());
    while j < events.len()
        invariant
            players.wf(),
            players.rules() == rules,
            rules == old(players).rules(),
            start == roster(old(players)@, old(players).player_count()),
            j <= events@.len(),
            players@ == devices_after(rules, start, events@.take(j as int)).players,
            players.player_count() == devices_after(rules, start, events@.take(j as int)).count,
            out@ == devices_after(rules, start, events@.take(j as int)).events,
        decreases events@.len() - j,
    {
        assert(events@.take(j + 1).drop_last() =~= events@.take(j as int));
        let gamepad = events[j].gamepad;
        match events[j].event_type {
            GamepadEventType::Connected => {
                match on_device_connected(gamepad, players) {
                    Some(index) => {
                        out.push(PlayerEvent::Added(PlayerAddedEvent(index, gamepad)));
                    },
                    None => {},
                }
            },
            GamepadEventType::Disconnected => {
                match on_device_disconnected(gamepad, players) {
                    Some(index) => {
                        out.push(PlayerEvent::Removed(PlayerRemovedEvent(index)));
                    },
                    None => {},
                }
            },
            _ => {},
        }
        j = j + 1;
    }
    assert(events@.take(events@.len() as int) =~= events@);
    out
}

/// Whether the player `k` of `m` jumps: its jump button went down and it
/// has a jump left.
pub open spec fn leaps(pressed: Set<GamepadButton>, m: Map<u64, PlayerBundle>) -> spec_fn(u64) -> bool {
    |k: u64|
        m.dom().contains(k) && pressed.contains(jump_button(m[k].gamepad.0))
            && m[k].available_jumps.0 > 0
}

/// The players after everyone who leaps has jumped.
pub open spec fn leapt(rules: Rules, pressed: Set<GamepadButton>, m: Map<u64, PlayerBundle>) -> Map<
    u64,
    PlayerBundle,
> {
    Map::new(
        |k: u64| m.dom().contains(k),
        |k: u64|
            if leaps(pressed, m)(k) {
                m[k].jumped(rules)
            } else {
                m[k]
            },
    )
}

/// Whether the player `k` of `m` is reached by the movement pass: it and
/// every player before it has a reading of its movement axis.
pub open spec fn steerable(readings: Seq<AxisReading>, m: Map<u64, PlayerBundle>, k: u64) -> bool {
    forall|other: u64| #[trigger]
        m.dom().contains(other) && other <= k ==> reading_of(
            readings,
            move_axis(m[other].gamepad.0),
        ) is Some
}

/// The players after the movement pass: the pass goes through the players
/// in ascending order of index and stops at the first whose movement axis
/// has no reading; everyone before that one is steered by its reading.
pub open spec fn walked(readings: Seq<AxisReading>, m: Map<u64, PlayerBundle>) -> Map<
    u64,
    PlayerBundle,
> {
    Map::new(
        |k: u64| m.dom().contains(k),
        |k: u64|
            if steerable(readings, m, k) {
                m[k].steered(reading_of(readings, move_axis(m[k].gamepad.0)).unwrap())
            } else {
                m[k]
            },
    )
}

/// The projectiles, the next id to give, and the ids given so far in a pass.
pub struct Magazine {
    pub projectiles: Map<u64, ProjectileBundle>,
    pub next_id: u64,
    pub fired: Seq<u64>,
}

/// Where the player `p` aims, if it pulls the trigger: its fire button went
/// down and both axes of its aim have a reading.
pub open spec fn aim(readings: Seq<AxisReading>, pressed: Set<GamepadButton>, p: PlayerBundle) -> Option<
    Vec2,
> {
    if pressed.contains(fire_button(p.gamepad.0)) {
        match (reading_of(readings, aim_x(p.gamepad.0)), reading_of(readings, aim_y(p.gamepad.0))) {
            (Some(x), Some(y)) => Some(Vec2 { x, y }),
            _ => None,
        }
    } else {
        None
    }
}

/// One shot by `owner` from `origin` along `direction`: where the aim is
/// outside the dead zone and an id is left, a projectile is launched under
/// the next id.
pub open spec fn shoot(rules: Rules, s: Magazine, origin: Vec2, direction: Vec2, owner: PlayerIndex) -> Magazine {
    if aimed(rules, direction) && s.next_id < u64::MAX {
        Magazine {
            projectiles: s.projectiles.insert(
                s.next_id,
                ProjectileBundle::launched(rules, s.next_id, origin, direction, Some(owner)),
            ),
            next_id: (s.next_id + 1) as u64,
            fired: s.fired.push(s.next_id),
        }
    } else {
        s
    }
}

/// The shots of the players `keys` of `m`, taken in the order of `keys`.
pub open spec fn volley(
    rules: Rules,
    readings: Seq<AxisReading>,
    pressed: Set<GamepadButton>,
    m: Map<u64, PlayerBundle>,
    keys: Seq<u64>,
    s: Magazine,
) -> Magazine
    decreases keys.len(),
{
    if keys.len() == 0 {
        s
    } else {
        let rest = volley(rules, readings, pressed, m, keys.drop_last(), s);
        let k = keys.last();
        match aim(readings, pressed, m[k]) {
            Some(direction) => shoot(rules, rest, m[k].position, direction, m[k].player_index),
            None => rest,
        }
    }
}

/// The jump system: every player whose jump button went down during this
/// tick jumps, where it has a jump left. Returns who jumped, in ascending
/// order of index.
pub fn player_jump(buttons: &Input, players: &mut PlayerRegistry) -> (jumpers: Vec<PlayerIndex>)
    requires
        old(players).wf(),
    ensures
        final(players).wf(),
        final(players).rules() == old(players).rules(),
        final(players).player_count() == old(players).player_count(),
        final(players)@ == leapt(old(players).rules(), buttons@, old(players)@),
        jumpers@.len() == sorted_keys(old(players)@.dom()).filter(
            leaps(buttons@, old(players)@),
        ).len(),
        forall|t: int|
            0 <= t < jumpers@.len() ==> key_of(#[trigger] jumpers@[t]) == sorted_keys(
                old(players)@.dom(),
            ).filter(leaps(buttons@, old(players)@))[t],
{
    let list = players.index_list();
    let n = list.len();
    let ghost keys = players.indices();
    let ghost before = players@;
    let ghost rules = players.rules();
    let ghost pick = leaps(buttons@, before);
    let mut jumpers: Vec<PlayerIndex> = Vec::new();
    let mut j: usize = 0;
    proof {
        players.lemma_indices();
        reveal(Seq::filter);
    }
    assert(keys.take(0).filter(pick) =~= Seq::<u64>::empty());
    while j < n
        invariant
            players.wf(),
            players.rules() == rules,
            rules == old(players).rules(),
            players.player_count() == old(players).player_count(),
            keys == old(players).indices(),
            before == old(players)@,
            pick == leaps(buttons@, before),
            valid_players(rules, old(players).player_count(), before),
            n == list@.len(),
            n == keys.len(),
            j <= n,
            forall|t: int| 0 <= t < n ==> key_of(#[trigger] list@[t]) == keys[t],
            forall|a: int, b: int| 0 <= a < b < n ==> #[trigger] keys[a] < #[trigger] keys[b],
            forall|t: int| 0 <= t < n ==> before.dom().contains(#[trigger] keys[t]),
            forall|k: u64| players@.dom().contains(k) <==> before.dom().contains(k),
            forall|t: int|
                0 <= t < n ==> players@[#[trigger] keys[t]] == (if t < j {
                    leapt(rules, buttons@, before)[keys[t]]
                } else {
                    before[keys[t]]
                }),
            jumpers@.len() == keys.take(j as int).filter(pick).len(),
            forall|t: int|
                0 <= t < jumpers@.len() ==> key_of(#[trigger] jumpers@[t]) == keys.take(j as int).filter(
                    pick,
                )[t],
        decreases n - j,
    {
        let index = list[j];
        let ghost k = keys[j as int];
        let ghost mid = players@;
        assert(key_of(list@[j as int]) == k);
        assert(mid[k] == before[k]);
        proof {
            assert(keys.take(j + 1) =~= keys.take(j as int).push(k));
            keys.take(j as int).lemma_filter_push(k, pick);
        }
        let p = players.get(index).unwrap();
        let button = GamepadButton { gamepad: p.gamepad.0, button_type: GamepadButtonType::South };
        if buttons.just_pressed(button) {
            if players.consume_jump(index) {
                jumpers.push(index);
            }
        }
        assert forall|t: int| 0 <= t < n implies players@[#[trigger] keys[t]] == (if t < j + 1 {
            leapt(rules, buttons@, before)[keys[t]]
        } else {
            before[keys[t]]
        }) by {
            if t != j {
                assert(keys[t] != k);
                assert(players@[keys[t]] == mid[keys[t]]);
            }
        }
        j = j + 1;
    }
    proof {
        assert(keys.take(n as int) =~= keys);
        assert forall|k: u64| players@.dom().contains(k) implies #[trigger] players@[k] == leapt(
            rules,
            buttons@,
            before,
        )[k] by {
            assert(before.dom().contains(k));
            let t = choose|t: int| 0 <= t < keys.len() && keys[t] == k;
            assert(players@[keys[t]] == leapt(rules, buttons@, before)[keys[t]]);
        }
        assert(players@ =~= leapt(rules, buttons@, before));
    }
    jumpers
}

/// The movement system: goes through the players in ascending order of
/// index and steers each by the reading of its movement axis. The pass
/// ends at the first player whose axis has no reading.
pub fn player_movement(axes: &Axis, players: &mut PlayerRegistry)
    requires
        old(players).wf(),
    ensures
        final(players).wf(),
        final(players).rules() == old(players).rules(),
        final(players).player_count() == old(players).player_count(),
        final(players)@ == walked(axes@, old(players)@),
{
    let list = players.index_list();
    let n = list.len();
    let ghost keys = players.indices();
    let ghost before = players@;
    let ghost rules = players.rules();
    let mut j: usize = 0;
    let mut silent = false;
    proof {
        players.lemma_indices();
    }
    while j < n && !silent
        invariant
            players.wf(),
            players.rules() == rules,
            rules == old(players).rules(),
            players.player_count() == old(players).player_count(),
            keys == old(players).indices(),
            before == old(players)@,
            valid_players(rules, old(players).player_count(), before),
            n == list@.len(),
            n == keys.len(),
            j <= n,
            silent ==> j < n && reading_of(axes@, move_axis(before[keys[j as int]].gamepad.0)) is None,
            forall|t: int| 0 <= t < n ==> key_of(#[trigger] list@[t]) == keys[t],
            forall|a: int, b: int| 0 <= a < b < n ==> #[trigger] keys[a] < #[trigger] keys[b],
            forall|t: int| 0 <= t < n ==> before.dom().contains(#[trigger] keys[t]),
            forall|k: u64| #[trigger] before.dom().contains(k) ==> keys.contains(k),
            forall|k: u64| players@.dom().contains(k) <==> before.dom().contains(k),
            forall|t: int|
                0 <= t < j ==> reading_of(axes@, move_axis(before[#[trigger] keys[t]].gamepad.0)) is Some,
            forall|t: int|
                0 <= t < n ==> players@[#[trigger] keys[t]] == (if t < j {
                    before[keys[t]].steered(
                        reading_of(axes@, move_axis(before[keys[t]].gamepad.0)).unwrap(),
                    )
                } else {
                    before[keys[t]]
                }),
        decreases n - j, if silent { 0int } else { 1int },
    {
        let index = list[j];
        let ghost k = keys[j as int];
        let ghost mid = players@;
        assert(key_of(list@[j as int]) == k);
        assert(mid[k] == before[k]);
        let p = players.get(index).unwrap();
        let axis = GamepadAxis { gamepad: p.gamepad.0, axis_type: GamepadAxisType::LeftStickX };
        match axes.get(axis) {
            Some(x) => {
                players.steer(index, x);
                assert forall|t: int| 0 <= t < n implies players@[#[trigger] keys[t]] == (if t < j
                    + 1 {
                    before[keys[t]].steered(
                        reading_of(axes@, move_axis(before[keys[t]].gamepad.0)).unwrap(),
                    )
                } else {
                    before[keys[t]]
                }) by {
                    if t != j {
                        assert(keys[t] != k);
                        assert(players@[keys[t]] == mid[keys[t]]);
                    }
                }
                j = j + 1;
            },
            None => {
                silent = true;
            },
        }
    }
    proof {
        let goal = walked(axes@, before);
        assert forall|k: u64| players@.dom().contains(k) implies #[trigger] players@[k] == goal[k] by {
            assert(before.dom().contains(k));
            let t = choose|t: int| 0 <= t < keys.len() && keys[t] == k;
            assert(players@[keys[t]] == (if t < j {
                before[keys[t]].steered(
                    reading_of(axes@, move_axis(before[keys[t]].gamepad.0)).unwrap(),
                )
            } else {
                before[keys[t]]
            }));
            if t < j {
                assert forall|other: u64| #[trigger]
                    before.dom().contains(other) && other <= k implies reading_of(
                    axes@,
                    move_axis(before[other].gamepad.0),
                ) is Some by {
                    let u = choose|u: int| 0 <= u < keys.len() && keys[u] == other;
                    if u > t {
                        assert(keys[t] < keys[u]);
                    }
                    assert(reading_of(axes@, move_axis(before[keys[u]].gamepad.0)) is Some);
                }
                assert(steerable(axes@, before, k));
            } else {
                assert(silent);
                let stop = keys[j as int];
                if j < t {
                    assert(keys[j as int] < keys[t]);
                }
                assert(before.dom().contains(stop) && stop <= k);
                assert(!steerable(axes@, before, k));
            }
        }
        assert(players@ =~= goal);
    }
}

/// The fire system: goes through the players in ascending order of index.
/// A player whose fire button went down during this tick, and whose aim has
/// a reading on both axes, fires a projectile from its position along its
/// aim, under the rules of the projectile registry. An aim inside the dead
/// zone fires nothing. Returns the ids of the new projectiles, in order.
pub fn player_fire(
    axes: &Axis,
    buttons: &Input,
    players: &PlayerRegistry,
    projectiles: &mut ProjectileRegistry,
) -> (fired: Vec<u64>)
    requires
        players.wf(),
        old(projectiles).wf(),
    ensures
        final(projectiles).wf(),
        final(projectiles).rules() == old(projectiles).rules(),
        ({
            let end = volley(
                old(projectiles).rules(),
                axes@,
                buttons@,
                players@,
                sorted_keys(players@.dom()),
                Magazine {
                    projectiles: old(projectiles)@,
                    next_id: old(projectiles).next_id(),
                    fired: Seq::empty(),
                },
            );
            &&& final(projectiles)@ == end.projectiles
            &&& final(projectiles).next_id() == end.next_id
            &&& fired@ == end.fired
        }),
{
    let list = players.index_list();
    let n = list.len();
    let ghost keys = players.indices();
    let ghost rules = projectiles.rules();
    let ghost start = Magazine {
        projectiles: projectiles@,
        next_id: projectiles.next_id(),
        fired: Seq::empty(),
    };
    let mut fired: Vec<u64> = Vec::new();
    let mut j: usize = 0;
    proof {
        players.lemma_indices();
    }
    assert(keys.take(0) =~= Seq::<u64>::empty());
    while j < n
        invariant
            players.wf(),
            projectiles.wf(),
            projectiles.rules() == rules,
            rules == old(projectiles).rules(),
            keys == players.indices(),
            start == (Magazine {
                projectiles: old(projectiles)@,
                next_id: old(projectiles).next_id(),
                fired: Seq::empty(),
            }),
            n == list@.len(),
            n == keys.len(),
            j <= n,
            forall|t: int| 0 <= t < n ==> key_of(#[trigger] list@[t]) == keys[t],
            forall|t: int| 0 <= t < n ==> players@.dom().contains(#[trigger] keys[t]),
            projectiles@ == volley(rules, axes@, buttons@, players@, keys.take(j as int), start).projectiles,
            projectiles.next_id() == volley(
                rules,
                axes@,
                buttons@,
                players@,
                keys.take(j as int),
                start,
            ).next_id,
            fired@ == volley(rules, axes@, buttons@, players@, keys.take(j as int), start).fired,
        decreases n - j,
    {
        let index = list[j];
        let ghost k = keys[j as int];
        assert(key_of(list@[j as int]) == k);
        assert(keys.take(j + 1).drop_last() =~= keys.take(j as int));
        let p = players.get(index).unwrap();
        let pad = p.gamepad.0;
        if buttons.just_pressed(GamepadButton { gamepad: pad, button_type: GamepadButtonType::RightTrigger2 }) {
            let x = axes.get(GamepadAxis { gamepad: pad, axis_type: GamepadAxisType::RightStickX });
            let y = axes.get(GamepadAxis { gamepad: pad, axis_type: GamepadAxisType::RightStickY });
            match (x, y) {
                (Some(x), Some(y)) => {
                    match projectiles.spawn(p.position, Vec2 { x, y }, Some(p.player_index)) {
                        Some(id) => {
                            fired.push(id);
                        },
                        None => {},
                    }
                },
                _ => {},
            }
        }
        j = j + 1;
    }
    assert(keys.take(n as int) =~= keys);
    fired
}

} // verus!
