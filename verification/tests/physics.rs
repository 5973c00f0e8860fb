use triangle_demo::frac::{added, coarsened, decayed, eq_value, Frac};
use triangle_demo::input::{apply_event, Key, Keys, WindowEvent};
use triangle_demo::physics::{coarsened_state, initial_state, step_physics, SimState};

fn no_keys() -> Keys {
    Keys { left: false, right: false, up: false, down: false }
}

#[test]
fn decay_scales_by_nine_tenths() {
    // an arbitrary velocity: 3/7 becomes exactly 27/70
    let v = Frac { num: 3, den: 7 };
    let d = decayed(v).unwrap();
    assert_eq!(d, Frac { num: 27, den: 70 });
    // a negative one: -5/4 becomes exactly -45/40
    let v = Frac { num: -5, den: 4 };
    let d = decayed(v).unwrap();
    assert_eq!(d, Frac { num: -45, den: 40 });
}

#[test]
fn decay_never_reaches_zero() {
    // repeated decay shrinks the value but the numerator stays nonzero
    let mut v = Frac { num: 1, den: 100 };
    for _ in 0..10 {
        v = decayed(v).unwrap();
        assert_ne!(v.num, 0);
    }
    assert_eq!(v, Frac { num: 3486784401, den: 1000000000000 });
}

#[test]
fn decay_out_of_range_is_none() {
    assert_eq!(decayed(Frac { num: i64::MAX, den: 1 }), None);
    assert_eq!(decayed(Frac { num: i64::MIN, den: 1 }), None);
    assert_eq!(decayed(Frac { num: 1, den: u64::MAX }), None);
}

#[test]
fn added_is_exact() {
    let a = Frac { num: 1, den: 2 };
    let b = Frac { num: 1, den: 3 };
    assert_eq!(added(a, b), Some(Frac { num: 5, den: 6 }));
    let a = Frac { num: -1, den: 2 };
    let b = Frac { num: 1, den: 100 };
    assert_eq!(added(a, b), Some(Frac { num: -98, den: 200 }));
}

#[test]
fn added_out_of_range_is_none() {
    let a = Frac { num: 1, den: u64::MAX };
    let b = Frac { num: 1, den: 2 };
    assert_eq!(added(a, b), None);
    let a = Frac { num: i64::MAX, den: 1 };
    let b = Frac { num: i64::MAX, den: 1 };
    assert_eq!(added(a, b), None);
}

#[test]
fn eq_value_compares_rationals() {
    assert!(eq_value(Frac { num: 1, den: 2 }, Frac { num: 2, den: 4 }));
    assert!(eq_value(Frac { num: -98, den: 200 }, Frac { num: -49, den: 100 }));
    assert!(!eq_value(Frac { num: 1, den: 2 }, Frac { num: 1, den: 3 }));
    assert!(eq_value(Frac { num: 0, den: 5 }, Frac { num: 0, den: 9 }));
}

#[test]
fn coarsened_is_exact_when_denominator_fits() {
    let f = Frac { num: -49, den: 100 };
    assert_eq!(coarsened(f, 100), f);
    assert_eq!(coarsened(f, 1_000_000), f);
}

#[test]
fn coarsened_rounds_toward_zero() {
    // 123456/1000000 on thousandths: 123/1000; the negative mirrors it
    assert_eq!(coarsened(Frac { num: 123456, den: 1_000_000 }, 1000), Frac {
        num: 123,
        den: 1000,
    });
    assert_eq!(coarsened(Frac { num: -123456, den: 1_000_000 }, 1000), Frac {
        num: -123,
        den: 1000,
    });
    // 9/1000 is below the resolution of hundredths and collapses to zero
    assert_eq!(coarsened(Frac { num: 9, den: 1000 }, 100), Frac { num: 0, den: 100 });
    assert_eq!(coarsened(Frac { num: 1, den: u64::MAX }, 1_000_000_000), Frac {
        num: 0,
        den: 1_000_000_000,
    });
}

#[test]
fn coarsened_state_bounds_every_denominator() {
    let s = SimState {
        x: Frac { num: -96200, den: 200000 },
        y: Frac { num: -1, den: 2 },
        x_speed: Frac { num: 9, den: 1000 },
        y_speed: Frac { num: 0, den: 10 },
        keys: no_keys(),
    };
    let r = coarsened_state(s, 100);
    assert_eq!(r.x, Frac { num: -48, den: 100 });
    assert_eq!(r.y, Frac { num: -1, den: 2 });
    assert_eq!(r.x_speed, Frac { num: 0, den: 100 });
    assert_eq!(r.y_speed, Frac { num: 0, den: 10 });
    assert_eq!(r.keys, s.keys);
}

#[test]
fn held_right_overrides_decayed_speed() {
    // whatever the previous speed, one step with "right" held gives exactly 1/100
    let s = SimState {
        x: Frac { num: 0, den: 1 },
        y: Frac { num: 0, den: 1 },
        x_speed: Frac { num: 123, den: 7 },
        y_speed: Frac { num: 0, den: 1 },
        keys: Keys { right: true, ..no_keys() },
    };
    let t = step_physics(s).unwrap();
    assert_eq!(t.x_speed, Frac { num: 1, den: 100 });
}

#[test]
fn held_left_and_vertical_keys_override() {
    let s = SimState {
        x: Frac { num: 0, den: 1 },
        y: Frac { num: 0, den: 1 },
        x_speed: Frac { num: 0, den: 1 },
        y_speed: Frac { num: 0, den: 1 },
        keys: Keys { left: true, up: true, ..no_keys() },
    };
    let t = step_physics(s).unwrap();
    assert_eq!(t.x_speed, Frac { num: -1, den: 100 });
    assert_eq!(t.y_speed, Frac { num: 1, den: 100 });
    let s = SimState { keys: Keys { down: true, ..no_keys() }, ..s };
    let t = step_physics(s).unwrap();
    assert_eq!(t.y_speed, Frac { num: -1, den: 100 });
}

#[test]
fn opposing_keys_right_and_up_win() {
    // both horizontal keys held: right is examined last and wins;
    // both vertical keys held: up is examined last and wins
    let s = SimState {
        x: Frac { num: 0, den: 1 },
        y: Frac { num: 0, den: 1 },
        x_speed: Frac { num: 0, den: 1 },
        y_speed: Frac { num: 0, den: 1 },
        keys: Keys { left: true, right: true, up: true, down: true },
    };
    let t = step_physics(s).unwrap();
    assert_eq!(t.x_speed, Frac { num: 1, den: 100 });
    assert_eq!(t.y_speed, Frac { num: 1, den: 100 });
}

#[test]
fn no_keys_velocity_decays() {
    let s = SimState {
        x: Frac { num: 0, den: 1 },
        y: Frac { num: 0, den: 1 },
        x_speed: Frac { num: 1, den: 100 },
        y_speed: Frac { num: -3, den: 50 },
        keys: no_keys(),
    };
    let t = step_physics(s).unwrap();
    assert_eq!(t.x_speed, Frac { num: 9, den: 1000 });
    assert_eq!(t.y_speed, Frac { num: -27, den: 500 });
}

#[test]
fn position_update_is_pure_addition() {
    // position' = position + velocity', with the same-step updated velocity
    let s = SimState {
        x: Frac { num: 1, den: 4 },
        y: Frac { num: -1, den: 8 },
        x_speed: Frac { num: 1, den: 10 },
        y_speed: Frac { num: 0, den: 1 },
        keys: no_keys(),
    };
    let t = step_physics(s).unwrap();
    // x_speed decays to 9/100, then x = 1/4 + 9/100 = (100 + 36)/400
    assert_eq!(t.x_speed, Frac { num: 9, den: 100 });
    assert_eq!(t.x, added(s.x, t.x_speed).unwrap());
    assert!(eq_value(t.x, Frac { num: 34, den: 100 }));
    assert_eq!(t.y, added(s.y, t.y_speed).unwrap());
    assert!(eq_value(t.y, s.y));
}

#[test]
fn step_out_of_range_is_none() {
    let s = SimState {
        x: Frac { num: 0, den: 1 },
        y: Frac { num: 0, den: 1 },
        x_speed: Frac { num: i64::MAX, den: 3 },
        y_speed: Frac { num: 0, den: 1 },
        keys: no_keys(),
    };
    assert_eq!(step_physics(s), None);
}

#[test]
fn scenario_press_right_then_release() {
    // start at (-1/2, -1/2) with zero velocity; press "right" and step:
    // velocity becomes (1/100, 0), position (-49/100, -1/2);
    // release "right" and step again: velocity (9/1000, 0),
    // position (-481/1000, -1/2)
    let s0 = initial_state();
    assert!(eq_value(s0.x, Frac { num: -1, den: 2 }));
    assert!(eq_value(s0.y, Frac { num: -1, den: 2 }));
    assert_eq!(s0.x_speed.num, 0);
    assert_eq!(s0.y_speed.num, 0);

    let keys = apply_event(s0.keys, WindowEvent::KeyPressed(Key::Right));
    let s1 = step_physics(SimState { keys, ..s0 }).unwrap();
    assert_eq!(s1.x_speed, Frac { num: 1, den: 100 });
    assert_eq!(s1.y_speed.num, 0);
    assert!(eq_value(s1.x, Frac { num: -49, den: 100 }));
    assert!(eq_value(s1.y, Frac { num: -1, den: 2 }));

    let keys = apply_event(s1.keys, WindowEvent::KeyReleased(Key::Right));
    let s2 = step_physics(SimState { keys, ..s1 }).unwrap();
    assert!(eq_value(s2.x_speed, Frac { num: 9, den: 1000 }));
    assert_eq!(s2.y_speed.num, 0);
    assert!(eq_value(s2.x, Frac { num: -481, den: 1000 }));
    assert!(eq_value(s2.y, Frac { num: -1, den: 2 }));
}
