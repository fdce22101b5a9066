use zoom_keys::keys::{KeyMap, RawEvent, VolumeAction};
use zoom_keys::zoom::ZoomController;

fn raw(ev: &evdev::InputEvent) -> RawEvent {
    RawEvent { kind: ev.event_type().0, code: ev.code(), value: ev.value() }
}

fn run_actions(zoom: &mut ZoomController, actions: &[VolumeAction]) -> Vec<i32> {
    actions.iter().map(|a| zoom.handle(*a)).collect()
}

#[test]
fn table_has_33_levels_from_100_to_133() {
    let zoom = ZoomController::new();
    let levels = zoom.levels();
    assert_eq!(levels.len(), 33);
    assert_eq!(levels[0], 100);
    assert_eq!(levels[1], 101);
    assert_eq!(levels[31], 131);
    assert_eq!(levels[32], 133);
    for w in levels.windows(2) {
        assert!(w[0] <= w[1]);
    }
}

#[test]
fn new_controller_starts_at_index_zero() {
    let zoom = ZoomController::new();
    assert_eq!(zoom.index(), 0);
    assert_eq!(zoom.level(), 100);
}

#[test]
fn up_at_top_stays_and_reissues_top_level() {
    let mut zoom = ZoomController::new();
    for _ in 0..32 {
        zoom.handle(VolumeAction::Up);
    }
    assert_eq!(zoom.index(), 32);
    let sent = zoom.handle(VolumeAction::Up);
    assert_eq!(zoom.index(), 32);
    assert_eq!(sent, 133);
}

#[test]
fn down_at_bottom_stays_and_reissues_bottom_level() {
    let mut zoom = ZoomController::new();
    let sent = zoom.handle(VolumeAction::Down);
    assert_eq!(zoom.index(), 0);
    assert_eq!(sent, 100);
}

#[test]
fn up_up_up_down_ends_at_index_two() {
    let mut zoom = ZoomController::new();
    let sent = run_actions(
        &mut zoom,
        &[VolumeAction::Up, VolumeAction::Up, VolumeAction::Up, VolumeAction::Down],
    );
    assert_eq!(zoom.index(), 2);
    assert_eq!(sent, vec![101, 102, 103, 102]);
    assert_eq!(*sent.last().unwrap(), zoom.levels()[2]);
}

#[test]
fn failed_setter_leaves_new_index_and_loop_goes_on() {
    let mut zoom = ZoomController::new();
    let mut attempts: Vec<i32> = Vec::new();
    let mut apply = |level: i32| -> Result<(), String> {
        attempts.push(level);
        Err(format!("cannot set zoom_absolute={}", level))
    };
    let first = zoom.handle(VolumeAction::Up);
    assert!(apply(first).is_err());
    assert_eq!(zoom.index(), 1);
    let second = zoom.handle(VolumeAction::Up);
    assert!(apply(second).is_err());
    assert_eq!(zoom.index(), 2);
    assert_eq!(attempts, vec![101, 102]);
}

#[test]
fn saturation_is_applied_step_by_step() {
    let mut zoom = ZoomController::new();
    run_actions(&mut zoom, &[VolumeAction::Down, VolumeAction::Up]);
    assert_eq!(zoom.index(), 1);

    let mut zoom = ZoomController::new();
    run_actions(&mut zoom, &vec![VolumeAction::Up; 40]);
    assert_eq!(zoom.index(), 32);
    run_actions(&mut zoom, &vec![VolumeAction::Down; 5]);
    assert_eq!(zoom.index(), 27);

    let mut zoom = ZoomController::new();
    run_actions(&mut zoom, &[VolumeAction::Up, VolumeAction::Up, VolumeAction::Down]);
    assert_eq!(zoom.index(), 1);
}

#[test]
fn default_map_uses_k_and_j_keys() {
    let map = KeyMap::new();
    assert_eq!(map.key_type, 1);
    assert_eq!(map.up_code, evdev::KeyCode::KEY_K.code());
    assert_eq!(map.down_code, evdev::KeyCode::KEY_J.code());
    assert_eq!(map.up_code, 37);
    assert_eq!(map.down_code, 36);
}

#[test]
fn up_key_press_gives_one_up_release_and_repeat_give_none() {
    let map = KeyMap::new();
    let k = evdev::KeyCode::KEY_K.code();
    let press = raw(&evdev::InputEvent::new(1, k, 1));
    let release = raw(&evdev::InputEvent::new(1, k, 0));
    let repeat = raw(&evdev::InputEvent::new(1, k, 2));
    assert_eq!(map.action(&press), Some(VolumeAction::Up));
    assert_eq!(map.action(&release), None);
    assert_eq!(map.action(&repeat), None);
    assert_eq!(map.actions(&vec![press]), vec![VolumeAction::Up]);
    assert_eq!(map.actions(&vec![release, repeat]), vec![]);
}

#[test]
fn down_key_press_gives_down() {
    let map = KeyMap::new();
    let j = evdev::KeyCode::KEY_J.code();
    assert_eq!(map.action(&raw(&evdev::InputEvent::new(1, j, 1))), Some(VolumeAction::Down));
    assert_eq!(map.action(&raw(&evdev::InputEvent::new(1, j, 0))), None);
}

#[test]
fn other_keys_and_event_types_are_ignored() {
    let map = KeyMap::new();
    let a = evdev::KeyCode::KEY_A.code();
    assert_eq!(map.action(&RawEvent { kind: 1, code: a, value: 1 }), None);
    // a relative axis event that happens to carry the K code
    assert_eq!(map.action(&RawEvent { kind: 2, code: 37, value: 1 }), None);
    assert_eq!(map.action(&RawEvent { kind: 0, code: 0, value: 0 }), None);
}

#[test]
fn batch_keeps_arrival_order() {
    let map = KeyMap::new();
    let evs = vec![
        RawEvent { kind: 1, code: 36, value: 1 },
        RawEvent { kind: 0, code: 0, value: 0 },
        RawEvent { kind: 1, code: 37, value: 1 },
        RawEvent { kind: 1, code: 37, value: 0 },
        RawEvent { kind: 1, code: 37, value: 1 },
        RawEvent { kind: 1, code: 36, value: 2 },
    ];
    assert_eq!(
        map.actions(&evs),
        vec![VolumeAction::Down, VolumeAction::Up, VolumeAction::Up]
    );
    assert_eq!(map.actions(&vec![]), vec![]);
}

#[test]
fn chosen_codes_and_shared_code_prefers_up() {
    let map = KeyMap::with_codes(103, 108);
    assert_eq!(map.key_type, 1);
    assert_eq!(map.action(&RawEvent { kind: 1, code: 103, value: 1 }), Some(VolumeAction::Up));
    assert_eq!(map.action(&RawEvent { kind: 1, code: 108, value: 1 }), Some(VolumeAction::Down));
    assert_eq!(map.action(&RawEvent { kind: 1, code: 37, value: 1 }), None);
    let same = KeyMap::with_codes(50, 50);
    assert_eq!(same.action(&RawEvent { kind: 1, code: 50, value: 1 }), Some(VolumeAction::Up));
}
