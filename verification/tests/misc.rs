use brawl_arena::geometry::{ArenaBounds, Vec2};
use brawl_arena::gilrs_plugin::{
    convert_axis, convert_button, convert_event, convert_gamepad_id, gilrs_event_startup_system,
    gilrs_event_system, Axis, Button, Event, EventType,
};
use brawl_arena::greet::{greet_people, GreetTimer, HelloPlugin, GREET_PERIOD};
use brawl_arena::hud::{
    event_subject, sprite_slot, update_player_ui, HealthText, HudRow, LivesText,
};
use brawl_arena::input::{
    Gamepad, GamepadAxisType, GamepadButtonType, GamepadEventRaw, GamepadEventType,
};
use brawl_arena::my_defaults::{Features, MyDefaultPlugins, PluginKind};
use brawl_arena::player::{
    DamageTaken, PlayerAddedEvent, PlayerDamageEvent, PlayerDeathEvent, PlayerEvent, PlayerIndex,
    PlayerRegistry, PlayerRemovedEvent,
};
use brawl_arena::rules::Rules;
use brawl_arena::table::Table;
use brawl_arena::terrain::{add_block, setup_map, window_bounds, Block};

fn two_players() -> PlayerRegistry {
    let mut reg = PlayerRegistry::new(Rules::default()).unwrap();
    assert!(reg.spawn(PlayerIndex(0), Gamepad { id: 0 }));
    assert!(reg.spawn(PlayerIndex(1), Gamepad { id: 1 }));
    reg
}

#[test]
fn greeting_comes_every_two_seconds() {
    let reg = two_players();
    let mut timer = HelloPlugin.build();
    assert_eq!(GREET_PERIOD, 2_000_000_000);
    assert_eq!(greet_people(1_999_999_999, &mut timer, &reg), vec![]);
    assert_eq!(greet_people(1, &mut timer, &reg), vec![PlayerIndex(0), PlayerIndex(1)]);
    assert_eq!(greet_people(0, &mut timer, &reg), vec![]);
    assert_eq!(greet_people(5_000_000_000, &mut timer, &reg), vec![PlayerIndex(0), PlayerIndex(1)]);
    // One second is left over from the last tick.
    assert_eq!(greet_people(999_999_999, &mut timer, &reg), vec![]);
    assert_eq!(greet_people(1, &mut timer, &reg), vec![PlayerIndex(0), PlayerIndex(1)]);
}

#[test]
fn timer_keeps_the_remainder() {
    assert!(GreetTimer::new(0).is_none());
    let mut timer = GreetTimer::new(10).unwrap();
    assert!(!timer.tick(9));
    assert!(timer.tick(1));
    assert!(!timer.tick(0));
    assert!(timer.tick(25));
    assert!(!timer.tick(4));
    assert!(timer.tick(1));
    // The longest step that a timer of this period can count: 4294967295 rounds and 5 more.
    assert!(timer.can_tick(42_949_672_955));
    assert!(timer.tick(42_949_672_955));
    assert!(!timer.tick(4));
    assert!(timer.tick(1));
}

#[test]
fn timer_counts_at_most_the_rounds_that_fit() {
    let mut timer = GreetTimer::new(10).unwrap();
    assert!(timer.can_tick(0));
    assert!(timer.can_tick(42_949_672_959));
    assert!(!timer.can_tick(42_949_672_960));
    assert!(!timer.can_tick(u64::MAX));
    assert!(!timer.tick(7));
    // Seven are counted already: the limit comes seven earlier.
    assert!(timer.can_tick(42_949_672_952));
    assert!(!timer.can_tick(42_949_672_953));

    let slow = GreetTimer::new(u64::MAX).unwrap();
    assert!(slow.can_tick(u64::MAX));
    let standard = HelloPlugin.build();
    assert!(standard.can_tick(8_589_934_591_999_999_999));
    assert!(!standard.can_tick(8_589_934_592_000_000_000));
}

#[test]
fn plugin_group_lists_base_parts_then_enabled_ones() {
    let none = Features {
        render: false,
        sprite: false,
        pbr: false,
        ui: false,
        text: false,
        audio: false,
        gltf: false,
        winit: false,
        wgpu: false,
    };
    let base = vec![
        PluginKind::Log,
        PluginKind::Core,
        PluginKind::Transform,
        PluginKind::Diagnostics,
        PluginKind::Input,
        PluginKind::Window,
        PluginKind::Asset,
        PluginKind::Scene,
    ];
    assert_eq!(MyDefaultPlugins.build(none), base);
    let some = Features { sprite: true, audio: true, wgpu: true, ..none };
    let mut expected = base.clone();
    expected.push(PluginKind::Sprite);
    expected.push(PluginKind::Audio);
    expected.push(PluginKind::Wgpu);
    assert_eq!(MyDefaultPlugins.build(some), expected);
    let all = Features {
        render: true,
        sprite: true,
        pbr: true,
        ui: true,
        text: true,
        audio: true,
        gltf: true,
        winit: true,
        wgpu: true,
    };
    let mut expected = base;
    for kind in [
        PluginKind::Render,
        PluginKind::Sprite,
        PluginKind::Pbr,
        PluginKind::Ui,
        PluginKind::Text,
        PluginKind::Audio,
        PluginKind::Gltf,
        PluginKind::Winit,
        PluginKind::Wgpu,
    ] {
        expected.push(kind);
    }
    assert_eq!(MyDefaultPlugins.build(all), expected);
}

#[test]
fn driver_names_are_translated() {
    assert_eq!(convert_gamepad_id(7), Gamepad { id: 7 });
    assert_eq!(convert_button(Button::South), Some(GamepadButtonType::South));
    assert_eq!(convert_button(Button::RightTrigger2), Some(GamepadButtonType::RightTrigger2));
    assert_eq!(convert_button(Button::DPadRight), Some(GamepadButtonType::DPadRight));
    assert_eq!(convert_button(Button::Mode), Some(GamepadButtonType::Mode));
    assert_eq!(convert_button(Button::Unknown), None);
    assert_eq!(convert_axis(Axis::LeftStickX), Some(GamepadAxisType::LeftStickX));
    assert_eq!(convert_axis(Axis::RightZ), Some(GamepadAxisType::RightZ));
    assert_eq!(convert_axis(Axis::DPadY), Some(GamepadAxisType::DPadY));
    assert_eq!(convert_axis(Axis::Unknown), None);
}

#[test]
fn driver_reports_become_raw_events() {
    let raw = |id: usize, event_type: GamepadEventType| GamepadEventRaw {
        gamepad: Gamepad { id },
        event_type,
    };
    assert_eq!(
        gilrs_event_startup_system(&vec![3, 0]),
        vec![raw(3, GamepadEventType::Connected), raw(0, GamepadEventType::Connected)]
    );
    let reports = vec![
        Event { id: 1, event: EventType::Connected },
        Event { id: 1, event: EventType::ButtonPressed(Button::South) },
        Event { id: 1, event: EventType::ButtonChanged(Button::South, 1000) },
        Event { id: 1, event: EventType::ButtonChanged(Button::Unknown, 1000) },
        Event { id: 2, event: EventType::AxisChanged(Axis::RightStickY, -250) },
        Event { id: 2, event: EventType::AxisChanged(Axis::Unknown, 9) },
        Event { id: 2, event: EventType::ButtonReleased(Button::South) },
        Event { id: 2, event: EventType::ButtonRepeated(Button::South) },
        Event { id: 2, event: EventType::Dropped },
        Event { id: 1, event: EventType::Disconnected },
    ];
    assert_eq!(
        gilrs_event_system(&reports),
        vec![
            raw(1, GamepadEventType::Connected),
            raw(1, GamepadEventType::ButtonChanged(GamepadButtonType::South, 1000)),
            raw(2, GamepadEventType::AxisChanged(GamepadAxisType::RightStickY, -250)),
            raw(1, GamepadEventType::Disconnected),
        ]
    );
    assert_eq!(convert_event(Event { id: 5, event: EventType::Dropped }), None);
    assert_eq!(gilrs_event_system(&vec![]), vec![]);
}

#[test]
fn display_rows_follow_the_registry() {
    let mut reg = two_players();
    reg.apply_damage(PlayerIndex(0), 10);
    let events = vec![
        PlayerEvent::Damaged(PlayerDamageEvent(PlayerIndex(0), DamageTaken(10))),
        PlayerEvent::Died(PlayerDeathEvent(PlayerIndex(1))),
        PlayerEvent::Removed(PlayerRemovedEvent(PlayerIndex(4))),
        PlayerEvent::Added(PlayerAddedEvent(PlayerIndex(1), Gamepad { id: 1 })),
    ];
    let rows = update_player_ui(&events, &reg);
    assert_eq!(
        rows,
        vec![
            HudRow {
                player_index: PlayerIndex(0),
                health: HealthText::Value(10),
                lives: LivesText::Value(2),
            },
            HudRow {
                player_index: PlayerIndex(1),
                health: HealthText::Value(20),
                lives: LivesText::Value(2),
            },
            HudRow { player_index: PlayerIndex(4), health: HealthText::Blank, lives: LivesText::Dead },
            HudRow {
                player_index: PlayerIndex(1),
                health: HealthText::Value(20),
                lives: LivesText::Value(2),
            },
        ]
    );
    assert_eq!(event_subject(&events[2]), PlayerIndex(4));
}

#[test]
fn terrain_follows_the_window() {
    let blocks = setup_map(600_000, 400_000).unwrap();
    assert_eq!(blocks.len(), 12);
    let at = |x: i32, y: i32| Vec2 { x, y };
    let plain = at(1000, 1000);
    assert_eq!(
        blocks[0],
        Block { translation: at(0, 188_000), half_extents: at(600_000, 12_000), scale: plain, sprite: false }
    );
    assert_eq!(
        blocks[1],
        Block {
            translation: at(0, -188_000),
            half_extents: at(1000, 4000),
            scale: at(600_000, 2000),
            sprite: true
        }
    );
    assert_eq!(
        blocks[2],
        Block { translation: at(-288_000, 0), half_extents: at(12_000, 400_000), scale: plain, sprite: false }
    );
    assert_eq!(
        blocks[3],
        Block { translation: at(288_000, 0), half_extents: at(12_000, 400_000), scale: plain, sprite: false }
    );
    let platforms: Vec<Vec2> = blocks[4..].iter().map(|b| b.translation).collect();
    assert_eq!(
        platforms,
        vec![
            at(-300_000, -88_000),
            at(300_000, -88_000),
            at(0, 12_000),
            at(-300_000, 112_000),
            at(300_000, 112_000),
            at(0, 212_000),
            at(-300_000, 312_000),
            at(300_000, 312_000),
        ]
    );
    for b in &blocks[4..] {
        assert_eq!(b.half_extents, at(200_000, 12_000));
        assert_eq!(b.scale, plain);
        assert!(!b.sprite);
    }
    assert!(setup_map(-1, 5).is_none());
    assert!(setup_map(5, 1_000_000_001).is_none());
    assert!(setup_map(0, 0).is_some());
    assert!(setup_map(1_000_000_000, 1_000_000_000).is_some());
}

#[test]
fn small_arena_has_four_platforms() {
    let at = |x: i32, y: i32| Vec2 { x, y };
    let blocks = add_block();
    assert_eq!(
        blocks,
        vec![
            Block {
                translation: at(1000, -100_000),
                half_extents: at(192_000, 4000),
                scale: at(50_000, 1000),
                sprite: true
            },
            Block {
                translation: at(-110_000, 0),
                half_extents: at(60_000, 4000),
                scale: at(16_000, 1000),
                sprite: true
            },
            Block {
                translation: at(110_000, 0),
                half_extents: at(60_000, 4000),
                scale: at(16_000, 1000),
                sprite: true
            },
            Block {
                translation: at(0, 100_000),
                half_extents: at(60_000, 4000),
                scale: at(16_000, 1000),
                sprite: true
            },
        ]
    );
}

#[test]
fn window_bounds_are_half_the_window() {
    assert_eq!(
        window_bounds(600_000, 401_001),
        Some(ArenaBounds { half_width: 300_000, half_height: 200_500 })
    );
    assert_eq!(window_bounds(-1, 0), None);
    assert_eq!(window_bounds(0, -1), None);
}

#[test]
fn table_keeps_records_by_id() {
    let mut t: Table<u8> = Table::new();
    assert_eq!(t.len(), 0);
    t.insert(5, 50);
    t.insert(1, 10);
    t.insert(9, 90);
    t.insert(5, 55);
    assert_eq!(t.len(), 3);
    assert_eq!(t.key_at(0), 1);
    assert_eq!(t.key_at(1), 5);
    assert_eq!(t.key_at(2), 9);
    assert_eq!(*t.value_at(1), 55);
    assert_eq!(t.get(5), Some(&55));
    assert_eq!(t.get(2), None);
    assert!(t.contains_key(9));
    assert!(!t.contains_key(0));
    assert_eq!(t.remove(5), Some(55));
    assert_eq!(t.remove(5), None);
    assert_eq!(t.len(), 2);
    assert_eq!(t.key_at(1), 9);
}

#[test]
fn sprites_are_handed_out_in_turn() {
    assert_eq!(sprite_slot(PlayerIndex(0), 13), 0);
    assert_eq!(sprite_slot(PlayerIndex(12), 13), 12);
    assert_eq!(sprite_slot(PlayerIndex(13), 13), 0);
    assert_eq!(sprite_slot(PlayerIndex(30), 13), 4);
    assert_eq!(sprite_slot(PlayerIndex(7), 1), 0);
    assert_eq!(sprite_slot(PlayerIndex(u32::MAX), 13), 8);
}
