use platformer_core::animation::Animation;
use platformer_core::animation::AnimationSetting;
use platformer_core::animation::FrameStep;
use platformer_core::components::CoefficientCombineRule;
use platformer_core::components::ColliderBundle;
use platformer_core::components::EntityKind;
use platformer_core::components::Friction;
use platformer_core::components::RigidBody;
use platformer_core::components::SensorBundle;
use platformer_core::components::UiButton;
use platformer_core::components::UiText;
use platformer_core::contact::ContactEvent;
use platformer_core::level::camera_window_size;
use platformer_core::level::move_to_next_level;
use platformer_core::level::move_to_specific_level;
use platformer_core::level::LevelStep;
use platformer_core::pickup::star_despawn;
use platformer_core::pickup::Pickup;
use platformer_core::player::convert_player_level_to_collider_size;
use platformer_core::player::horizontal_velocity;
use platformer_core::player::jump_velocity;
use platformer_core::player::split_velocity;
use platformer_core::player::MaximumSplit;
use platformer_core::player::Player;
use platformer_core::sensor::GroundDetection;
use platformer_core::state::GameEvent;
use platformer_core::state::GameState;
use std::collections::HashSet;

#[test]
fn collider_size_shrinks_with_the_level() {
    let sizes: Vec<u8> = (0..8).map(convert_player_level_to_collider_size).collect();
    assert_eq!(sizes, vec![16, 13, 10, 7, 5, 3, 3, 3]);
    assert_eq!(convert_player_level_to_collider_size(255), 3);
    assert_eq!(Player { level: 2 }.collider_size(), 10);
}

#[test]
fn player_split_raises_the_level() {
    assert_eq!(Player::default(), Player { level: 0 });
    assert_eq!(Player { level: 0 }.split(), Some(Player { level: 1 }));
    assert_eq!(Player { level: 254 }.split(), Some(Player { level: 255 }));
    assert_eq!(Player { level: 255 }.split(), None);
}

#[test]
fn sprite_index_stops_at_five() {
    assert_eq!(Player { level: 0 }.sprite_index(), 0);
    assert_eq!(Player { level: 5 }.sprite_index(), 5);
    assert_eq!(Player { level: 6 }.sprite_index(), 5);
    assert_eq!(Player { level: 255 }.sprite_index(), 5);
}

#[test]
fn horizontal_velocity_is_right_minus_left() {
    assert_eq!(horizontal_velocity(false, false), 0);
    assert_eq!(horizontal_velocity(false, true), 120);
    assert_eq!(horizontal_velocity(true, false), -120);
    assert_eq!(horizontal_velocity(true, true), 0);
}

#[test]
fn jump_needs_the_key_and_the_ground() {
    let ground = GroundDetection { on_ground: true };
    let air = GroundDetection { on_ground: false };
    assert_eq!(jump_velocity(true, &ground), Some(300));
    assert_eq!(jump_velocity(true, &air), None);
    assert_eq!(jump_velocity(false, &ground), None);
    assert_eq!(jump_velocity(false, &air), None);
}

#[test]
fn split_halves_fly_apart() {
    assert_eq!(split_velocity(true), (120, 200));
    assert_eq!(split_velocity(false), (-120, 200));
}

#[test]
fn maximum_split_defaults_to_eight() {
    let m = MaximumSplit::new(None, 1);
    assert_eq!((m.current(), m.max()), (1, 8));
    let n = MaximumSplit::new(Some(3), 2);
    assert_eq!((n.current(), n.max()), (2, 3));
    let huge = MaximumSplit::new(Some(1), usize::MAX);
    assert_eq!(huge.current(), i32::MAX);
    assert!(!huge.can_split());
}

#[test]
fn maximum_split_doubles_until_the_limit() {
    let mut m = MaximumSplit::new(None, 1);
    assert!(m.split_into_two());
    assert!(m.split_into_two());
    assert!(m.split_into_two());
    assert_eq!(m.current(), 8);
    assert!(!m.can_split());
    assert!(!m.split_into_two());
    assert_eq!((m.current(), m.max()), (8, 8));
}

#[test]
fn maximum_split_refuses_past_an_odd_or_negative_limit() {
    let mut odd = MaximumSplit::new(Some(5), 3);
    assert!(!odd.split_into_two());
    assert_eq!(odd.current(), 3);
    let mut negative = MaximumSplit::new(Some(-1), 0);
    assert!(!negative.split_into_two());
    let mut none = MaximumSplit::new(Some(0), 0);
    assert!(none.split_into_two());
    assert_eq!(none.current(), 0);
}

fn setting(indices: &[usize], looped: bool) -> AnimationSetting {
    AnimationSetting { indices: indices.to_vec(), fps: 12, looped }
}

#[test]
fn looped_animation_starts_over() {
    let s = Animation::TwinkleStar.setting();
    assert_eq!(s.indices, vec![0, 1, 2, 3]);
    assert_eq!(s.fps, 12);
    assert!(s.looped);
    assert_eq!(s.animate_sprite(0), FrameStep::Show(1));
    assert_eq!(s.animate_sprite(2), FrameStep::Show(3));
    assert_eq!(s.animate_sprite(3), FrameStep::Show(0));
}

#[test]
fn one_shot_animation_ends_after_the_last_frame() {
    for animation in [Animation::DespawnStar, Animation::DespawnDoor] {
        let s = animation.setting();
        assert_eq!(s.indices, vec![1, 2]);
        assert_eq!(s.fps, 18);
        assert!(!s.looped);
        assert_eq!(s.animate_sprite(animation.first_frame()), FrameStep::Show(2));
        assert_eq!(s.animate_sprite(2), FrameStep::Despawn);
    }
}

#[test]
fn unknown_frame_counts_as_the_first() {
    let s = setting(&[4, 5, 6], false);
    assert_eq!(s.position(9), 0);
    assert_eq!(s.animate_sprite(9), FrameStep::Show(5));
    let single = setting(&[7], false);
    assert_eq!(single.animate_sprite(3), FrameStep::Despawn);
    assert_eq!(setting(&[7], true).animate_sprite(3), FrameStep::Show(7));
}

#[test]
fn position_is_the_first_place_of_a_repeated_frame() {
    let s = setting(&[1, 2, 1, 3], true);
    assert_eq!(s.position(1), 0);
    assert_eq!(s.position(3), 3);
    assert_eq!(s.animate_sprite(1), FrameStep::Show(2));
}

#[test]
fn animation_sheets() {
    assert_eq!(Animation::TwinkleStar.first_frame(), 0);
    assert_eq!(Animation::DespawnStar.first_frame(), 1);
    assert_eq!(Animation::DespawnDoor.first_frame(), 1);
    assert_eq!(Animation::TwinkleStar.tile_size(), 16);
    assert_eq!(Animation::DespawnStar.tile_size(), 32);
    assert_eq!(Animation::DespawnDoor.tile_size(), 32);
}

#[test]
fn stars_twinkle_out_of_step() {
    let frames: Vec<usize> = (0..6).map(Animation::twinkle_start).collect();
    assert_eq!(frames, vec![0, 1, 2, 3, 0, 1]);
    assert_eq!(Animation::twinkle_start(u32::MAX), 3);
}

#[test]
fn begin_of_contact_presses_the_first_shape_that_can_be_pressed() {
    assert_eq!(ContactEvent::Started(1, 2).press(true, false), Some(1));
    assert_eq!(ContactEvent::Started(1, 2).press(false, true), Some(2));
    assert_eq!(ContactEvent::Started(1, 2).press(true, true), Some(1));
    assert_eq!(ContactEvent::Started(1, 2).press(false, false), None);
    assert_eq!(ContactEvent::Stopped(1, 2).press(true, true), None);
    assert_eq!(ContactEvent::Stopped(1, 2).shapes(), (1, 2));
}

#[test]
fn next_level_or_win() {
    assert_eq!(move_to_next_level(0, 3), LevelStep::Enter(1));
    assert_eq!(move_to_next_level(1, 3), LevelStep::Enter(2));
    assert_eq!(move_to_next_level(2, 3), LevelStep::Win);
    assert_eq!(move_to_next_level(7, 3), LevelStep::Win);
    assert_eq!(move_to_next_level(0, 0), LevelStep::Win);
    assert_eq!(move_to_next_level(usize::MAX, usize::MAX), LevelStep::Win);
    assert_eq!(LevelStep::Win.selection(), 0);
    assert_eq!(LevelStep::Enter(2).selection(), 2);
}

#[test]
fn specific_level_or_win() {
    assert_eq!(move_to_specific_level(0, 3), LevelStep::Enter(0));
    assert_eq!(move_to_specific_level(2, 3), LevelStep::Enter(2));
    assert_eq!(move_to_specific_level(3, 3), LevelStep::Win);
    assert_eq!(move_to_specific_level(9, 3), LevelStep::Win);
}

#[test]
fn camera_window_is_the_longer_side_within_limits() {
    assert_eq!(camera_window_size(512, 400), 512);
    assert_eq!(camera_window_size(400, 512), 512);
    assert_eq!(camera_window_size(100, 200), 360);
    assert_eq!(camera_window_size(2000, 200), 960);
    assert_eq!(camera_window_size(360, 360), 360);
    assert_eq!(camera_window_size(960, 10), 960);
    assert_eq!(camera_window_size(-5, i32::MIN), 360);
    assert_eq!(camera_window_size(i32::MAX, 0), 960);
}

#[test]
fn game_states_follow_each_other() {
    assert_eq!(GameState::default(), GameState::Title);
    assert_eq!(GameState::Title.on(GameEvent::StartPressed), GameState::Load);
    assert_eq!(GameState::Load.on(GameEvent::WorldLoaded), GameState::Spawn);
    assert_eq!(GameState::Spawn.on(GameEvent::Tick), GameState::Play);
    assert_eq!(GameState::Play.on(GameEvent::StarsCollected), GameState::LevelClear);
    assert_eq!(GameState::Play.on(GameEvent::RestartPressed), GameState::Spawn);
    assert_eq!(GameState::LevelClear.on(GameEvent::RestartPressed), GameState::Spawn);
    assert_eq!(
        GameState::LevelClear.on(GameEvent::ContinuePressed { last: false }),
        GameState::Spawn
    );
    assert_eq!(GameState::LevelClear.on(GameEvent::ContinuePressed { last: true }), GameState::Win);
    assert_eq!(GameState::Win.on(GameEvent::ContinuePressed { last: true }), GameState::Title);
}

#[test]
fn choosing_a_level_works_from_every_state() {
    for state in [
        GameState::Title,
        GameState::Load,
        GameState::Spawn,
        GameState::Play,
        GameState::LevelClear,
        GameState::Win,
    ] {
        assert_eq!(state.on(GameEvent::LevelChosen { exists: true }), GameState::Spawn);
        assert_eq!(state.on(GameEvent::LevelChosen { exists: false }), GameState::Win);
    }
}

#[test]
fn events_that_mean_nothing_change_nothing() {
    assert_eq!(GameState::Title.on(GameEvent::Tick), GameState::Title);
    assert_eq!(GameState::Title.on(GameEvent::RestartPressed), GameState::Title);
    assert_eq!(GameState::Load.on(GameEvent::StartPressed), GameState::Load);
    assert_eq!(GameState::Play.on(GameEvent::Tick), GameState::Play);
    assert_eq!(GameState::Play.on(GameEvent::ContinuePressed { last: false }), GameState::Play);
    assert_eq!(GameState::Win.on(GameEvent::RestartPressed), GameState::Win);
    assert_eq!(GameState::Spawn.on(GameEvent::StarsCollected), GameState::Spawn);
}

fn ids(list: &[u64]) -> HashSet<u64> {
    list.iter().copied().collect()
}

#[test]
fn star_is_collected_once() {
    let players = ids(&[1, 2]);
    let stars = ids(&[10, 11]);
    let events = vec![
        ContactEvent::Started(1, 10),
        ContactEvent::Started(2, 10),
        ContactEvent::Started(11, 2),
        ContactEvent::Stopped(1, 11),
        ContactEvent::Started(1, 2),
        ContactEvent::Started(10, 11),
        ContactEvent::Started(1, 99),
    ];
    assert_eq!(
        star_despawn(&events, &players, &stars),
        vec![Pickup { player: 1, star: 10 }, Pickup { player: 2, star: 11 }]
    );
}

#[test]
fn one_player_may_collect_two_stars() {
    let events = vec![ContactEvent::Started(10, 1), ContactEvent::Started(1, 11)];
    assert_eq!(
        star_despawn(&events, &ids(&[1]), &ids(&[10, 11])),
        vec![Pickup { player: 1, star: 10 }, Pickup { player: 1, star: 11 }]
    );
    assert_eq!(star_despawn(&vec![], &ids(&[1]), &ids(&[10])), vec![]);
}

#[test]
fn identifiers_name_kinds() {
    assert_eq!(EntityKind::from_identifier("Player"), EntityKind::Player);
    assert_eq!(EntityKind::from_identifier("Horizontal_Door"), EntityKind::HorizontalDoor);
    assert_eq!(EntityKind::from_identifier("Vertical_Door"), EntityKind::VerticalDoor);
    assert_eq!(EntityKind::from_identifier("Star"), EntityKind::Star);
    assert_eq!(EntityKind::from_identifier("Switch"), EntityKind::Switch);
    assert_eq!(EntityKind::from_identifier("player"), EntityKind::Other);
    assert_eq!(EntityKind::from_identifier(""), EntityKind::Other);
    assert_eq!(EntityKind::from_identifier("Ui_data"), EntityKind::Other);
}

#[test]
fn bodies_of_the_kinds() {
    assert_eq!(
        ColliderBundle::from_identifier("Player"),
        Some(ColliderBundle {
            half_width: 16,
            half_height: 16,
            rigid_body: RigidBody::Dynamic,
            friction: Friction { coefficient: 0, combine_rule: CoefficientCombineRule::Min },
        })
    );
    assert_eq!(
        ColliderBundle::from_identifier("Horizontal_Door"),
        Some(ColliderBundle {
            half_width: 20,
            half_height: 6,
            rigid_body: RigidBody::Fixed,
            friction: Friction { coefficient: 1, combine_rule: CoefficientCombineRule::Average },
        })
    );
    assert_eq!(
        ColliderBundle::from_identifier("Vertical_Door"),
        Some(ColliderBundle {
            half_width: 6,
            half_height: 20,
            rigid_body: RigidBody::Fixed,
            friction: Friction { coefficient: 1, combine_rule: CoefficientCombineRule::Average },
        })
    );
    assert_eq!(ColliderBundle::from_identifier("Star"), None);
    assert_eq!(ColliderBundle::from_identifier("Anything"), None);
}

#[test]
fn sensors_of_the_kinds() {
    let sensor = SensorBundle { half_width: 4, half_height: 4 };
    assert_eq!(SensorBundle::from_identifier("Star"), sensor);
    assert_eq!(SensorBundle::from_identifier("Switch"), sensor);
    assert_eq!(SensorBundle::of(EntityKind::Star), Some(sensor));
    assert_eq!(SensorBundle::of(EntityKind::Switch), Some(sensor));
    assert_eq!(SensorBundle::of(EntityKind::Player), None);
    assert_eq!(SensorBundle::of(EntityKind::Other), None);
    assert!(EntityKind::Star.has_sensor());
    assert!(EntityKind::Switch.has_sensor());
    assert!(!EntityKind::Player.has_sensor());
    assert!(!EntityKind::HorizontalDoor.has_sensor());
    assert!(!EntityKind::from_identifier("Ui_data").has_sensor());
}

#[test]
fn missing_ui_fields_are_empty() {
    assert_eq!(UiButton::from_field(Some(String::from("X"))).0, "X");
    assert_eq!(UiButton::from_field(None).0, "");
    assert_eq!(UiText::from_field(Some(String::from("Split"))).0, "Split");
    assert_eq!(UiText::from_field(None).0, "");
}
