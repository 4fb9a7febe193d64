use fan_control::config::target::Target;
use fan_control::node::{Inputs, IsValid};

fn target(idle_temp: u8, idle_speed: u8, load_temp: u8, load_speed: u8) -> Target {
    Target {
        name: "linear".to_string(),
        input: Some("temp1".into()),
        idle_temp,
        idle_speed,
        load_temp,
        load_speed,
        idle_has_been_reatch: false,
    }
}

#[test]
fn test_update() {
    let _ = env_logger::try_init();

    let mut target = Target {
        name: "linear".to_string(),
        input: Some("temp1".into()),
        idle_temp: 40,
        idle_speed: 10,
        load_temp: 70,
        load_speed: 100,
        idle_has_been_reatch: false,
    };

    assert!(target.update(55).unwrap() == 100);
    assert!(target.update(30).unwrap() == 10);
    assert!(target.update(55).unwrap() == 100);
    assert!(target.update(70).unwrap() == 100);
}

#[test]
fn update_follows_the_table_row_by_row() {
    // idle, value above idle_temp: under load, load speed
    let mut t = target(60, 20, 40, 90);
    assert_eq!(t.update(61), Ok(90));
    assert!(t.idle_has_been_reatch);

    // idle, value not above idle_temp: idle, idle speed
    let mut t = target(60, 20, 40, 90);
    assert_eq!(t.update(60), Ok(20));
    assert!(!t.idle_has_been_reatch);

    // under load, value below load_temp: idle, idle speed
    let mut t = target(60, 20, 40, 90);
    t.idle_has_been_reatch = true;
    assert_eq!(t.update(39), Ok(20));
    assert!(!t.idle_has_been_reatch);

    // under load, value not below load_temp: under load, load speed
    let mut t = target(60, 20, 40, 90);
    t.idle_has_been_reatch = true;
    assert_eq!(t.update(40), Ok(90));
    assert!(t.idle_has_been_reatch);
}

#[test]
fn update_keeps_its_state_inside_the_band() {
    let mut t = target(60, 20, 40, 90);
    assert_eq!(t.update(50), Ok(20));
    assert_eq!(t.update(61), Ok(90));
    assert_eq!(t.update(50), Ok(90));
    assert_eq!(t.update(45), Ok(90));
    assert_eq!(t.update(39), Ok(20));
    assert_eq!(t.update(50), Ok(20));
}

#[test]
fn update_rises_then_falls() {
    let mut t = target(60, 20, 40, 90);
    assert_eq!(t.update(75), Ok(90));
    assert!(t.idle_has_been_reatch);
    assert_eq!(t.update(10), Ok(20));
    assert!(!t.idle_has_been_reatch);
}

#[test]
fn update_repeated_with_the_same_value_gives_the_same_speed() {
    for value in [-5, 0, 39, 40, 41, 59, 60, 61, 200] {
        for latch in [false, true] {
            let mut t = target(60, 20, 40, 90);
            t.idle_has_been_reatch = latch;
            let first = t.update(value);
            let state = t.idle_has_been_reatch;
            let second = t.update(value);
            assert_eq!(first, second);
            assert_eq!(state, t.idle_has_been_reatch);
        }
    }
}

#[test]
fn update_chatters_where_the_thresholds_are_crossed() {
    // idle_temp below load_temp: a value between the two flips the state.
    let mut t = target(40, 10, 70, 100);
    assert_eq!(t.update(55), Ok(100));
    assert_eq!(t.update(55), Ok(10));
    assert_eq!(t.update(55), Ok(100));
    assert_eq!(t.update(55), Ok(10));
}

#[test]
fn update_takes_negative_and_large_values() {
    let mut t = target(60, 20, 40, 90);
    assert_eq!(t.update(i32::MIN), Ok(20));
    assert_eq!(t.update(i32::MAX), Ok(90));
    assert_eq!(t.update(i32::MIN), Ok(20));
}

#[test]
fn update_changes_nothing_but_the_state() {
    let mut t = target(60, 20, 40, 90);
    t.update(100).unwrap();
    assert_eq!(t.name, "linear");
    assert_eq!(t.input.as_deref(), Some("temp1"));
    assert_eq!((t.idle_temp, t.idle_speed, t.load_temp, t.load_speed), (60, 20, 40, 90));
}

#[test]
fn cache_holds_the_thresholds_in_decimal() {
    let cache = target(40, 10, 70, 100).cache();
    assert_eq!(cache.idle_temp, "40");
    assert_eq!(cache.idle_speed, "10");
    assert_eq!(cache.load_temp, "70");
    assert_eq!(cache.load_speed, "100");

    let cache = target(0, 9, 255, 101).cache();
    assert_eq!(cache.idle_temp, "0");
    assert_eq!(cache.idle_speed, "9");
    assert_eq!(cache.load_temp, "255");
    assert_eq!(cache.load_speed, "101");
}

#[test]
fn cache_reads_back_as_the_thresholds() {
    for n in 0..=255u8 {
        let cache = target(n, n, n, n).cache();
        assert_eq!(cache.idle_temp.parse::<u8>(), Ok(n));
        assert_eq!(cache.idle_temp, n.to_string());
    }
}

#[test]
fn has_band_asks_for_the_drop_out_below_the_trip() {
    assert!(target(60, 20, 40, 90).has_band());
    assert!(target(41, 20, 40, 90).has_band());
    assert!(!target(40, 20, 40, 90).has_band());
    assert!(!target(40, 10, 70, 100).has_band());
}

#[test]
fn target_is_valid_with_an_input() {
    let mut t = target(60, 20, 40, 90);
    assert!(t.is_valid());
    assert_eq!(t.get_inputs(), vec![&"temp1".to_string()]);
    t.clear_inputs();
    assert!(!t.is_valid());
    assert!(t.get_inputs().is_empty());
    assert_eq!(t.name, "linear");
    assert_eq!(t.idle_temp, 60);
}
