//! What the head-up display shows of each player: decided here, drawn
//! elsewhere.

use crate::player::{
    key_of, PlayerBundle, PlayerEvent, PlayerIndex, PlayerRegistry,
};
use vstd::prelude::*;

verus! {

/// The health field of a display row.
#[derive(Clone, Copy, Debug, PartialEq, Eq, Structural)]
pub enum HealthText {
    /// The health left in the current life.
    Value(i32),
    /// Nothing: the player is out of the game.
    Blank,
}

/// The lives field of a display row.
#[derive(Clone, Copy, Debug, PartialEq, Eq, Structural)]
pub enum LivesText {
    /// The lives left, the current one included.
    Value(u32),
    /// The player is out of the game.
    Dead,
}

/// The display row of one player.
#[derive(Clone, Copy, Debug, PartialEq, Eq, Structural)]
pub struct HudRow {
    pub player_index: PlayerIndex,
    pub health: HealthText,
    pub lives: LivesText,
}

/// The player that an event is about.
pub open spec fn subject(e: PlayerEvent) -> PlayerIndex {
    match e {
        PlayerEvent::Added(a) => a.0,
        PlayerEvent::Damaged(d) => d.0,
        PlayerEvent::Died(d) => d.0,
        PlayerEvent::Removed(r) => r.0,
    }
}

/// The row of `index`: its health and lives while it is in the registry,
/// a blank health and `Dead` once it has left.
pub open spec fn hud_row(m: Map<u64, PlayerBundle>, index: PlayerIndex) -> HudRow {
    if m.dom().contains(key_of(index)) {
        HudRow {
            player_index: index,
            health: HealthText::Value(m[key_of(index)].health.0),
            lives: LivesText::Value(m[key_of(index)].lives.0),
        }
    } else {
        HudRow { player_index: index, health: HealthText::Blank, lives: LivesText::Dead }
    }
}

/// Which of `sprites` pictures shows the player `index`: the pictures are
/// handed out in turn and start over when they run out.
pub open spec fn sprite_of(index: PlayerIndex, sprites: usize) -> int {
    index.0 as int % sprites as int
}

/// Which of `sprites` pictures shows the player `index`.
pub fn sprite_slot(index: PlayerIndex, sprites: usize) -> (slot: usize)
    requires
        sprites > 0,
    ensures
        slot == sprite_of(index, sprites),
        slot < sprites,
{
    index.0 as usize % sprites
}

/// The player that `e` is about.
pub fn event_subject(e: &PlayerEvent) -> (index: PlayerIndex)
    ensures
        index == subject(*e),
{
    match e {
        PlayerEvent::Added(a) => a.0,
        PlayerEvent::Damaged(d) => d.0,
        PlayerEvent::Died(d) => d.0,
        PlayerEvent::Removed(r) => r.0,
    }
}

/// The rows to redraw after `events`: one for each event, in order, showing
/// the player that the event is about as the registry now has it.
pub fn update_player_ui(events: &Vec<PlayerEvent>, players: &PlayerRegistry) -> (rows: Vec<HudRow>)
    requires
        players.wf(),
    ensures
        rows@ == events@.map_values(|e: PlayerEvent| hud_row(players@, subject(e))),
{
    let mut rows: Vec<HudRow> = Vec::new();
    let mut i: usize = 0;
    while i < events.len()
        invariant
            players.wf(),
            i <= events@.len(),
            rows@ == events@.take(i as int).map_values(
                |e: PlayerEvent| hud_row(players@, subject(e)),
            ),
        decreases events@.len() - i,
    {
        let index = event_subject(&events[i]);
        let row = match players.get(index) {
            Some(p) => HudRow {
                player_index: index,
                health: HealthText::Value(p.health.0),
                lives: LivesText::Value(p.lives.0),
            },
            None => HudRow { player_index: index, health: HealthText::Blank, lives: LivesText::Dead },
        };
        rows.push(row);
        assert(rows@ =~= events@.take(i + 1).map_values(
            |e: PlayerEvent| hud_row(players@, subject(e)),
        ));
        i = i + 1;
    }
    assert(events@.take(events@.len() as int) =~= events@);
    rows
}

} // verus!
