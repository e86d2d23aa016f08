use mon_gen::statmod::{StatModifiers, clamp};

#[test]
fn stat_stage_clamps() {
    let mut m = StatModifiers::new();
    m.attack_delta(4);
    assert_eq!(m.attack_stage(), 4);
    m.attack_delta(4);
    assert_eq!(m.attack_stage(), 6);
    m.attack_delta(-20);
    assert_eq!(m.attack_stage(), -6);
    m.defense_delta(-2);
    assert_eq!(m.defense_stage(), -2);
    m.sp_attack_delta(3);
    assert_eq!(m.sp_attack_stage(), 3);
    m.sp_defense_delta(7);
    assert_eq!(m.sp_defense_stage(), 6);
    m.speed_delta(1);
    assert_eq!(m.speed_stage(), 1);
}

#[test]
fn stat_accuracy_evasion_follow_speed() {
    let mut m = StatModifiers::new();
    m.speed_delta(2);
    m.accuracy_delta(1);
    assert_eq!(m.accuracy_stage(), 3);
    m.evasion_delta(-1);
    assert_eq!(m.evasion_stage(), 1);
}

#[test]
fn stat_critical() {
    let mut m = StatModifiers::new();
    m.critical_delta(2);
    assert_eq!(m.critical_stage(), 0);
    m.attack_delta(2);
    assert_eq!(m.critical_stage(), 2);
    m.critical_delta(-3);
    let mut n = StatModifiers::new();
    n.critical_delta(-3);
    assert!(m != n);
}

#[test]
fn stat_apply_uses_attack_stage() {
    let mut delta = StatModifiers::new();
    delta.attack_delta(2);
    delta.defense_delta(-1);
    let mut m = StatModifiers::new();
    m.apply(&delta);
    assert_eq!(m.attack_stage(), 2);
    assert_eq!(m.defense_stage(), 2);
    assert_eq!(m.sp_attack_stage(), 2);
    assert_eq!(m.sp_defense_stage(), 2);
    assert_eq!(m.speed_stage(), 2);
    assert_eq!(m.accuracy_stage(), 4);
    assert_eq!(m.evasion_stage(), 4);
}

#[test]
fn stat_ratios() {
    assert_eq!(StatModifiers::base_ratio(-6), (2, 8));
    assert_eq!(StatModifiers::base_ratio(0), (2, 2));
    assert_eq!(StatModifiers::base_ratio(3), (5, 2));
    assert_eq!(StatModifiers::evasion_accuracy_ratio(-2), (3, 5));
    assert_eq!(StatModifiers::evasion_accuracy_ratio(6), (9, 3));
    let mut m = StatModifiers::new();
    m.speed_delta(-1);
    assert_eq!(m.speed_ratio(), (2, 3));
    assert_eq!(clamp(9, -6, 6), 6);
    assert_eq!(clamp(-9, -6, 6), -6);
    assert_eq!(clamp(1, -6, 6), 1);
}

#[test]
fn opposite_stages_invert() {
    for stage in -6..=6i8 {
        let (n, d) = StatModifiers::base_ratio(stage);
        assert_eq!(StatModifiers::base_ratio(-stage), (d, n));
        let (n, d) = StatModifiers::evasion_accuracy_ratio(stage);
        assert_eq!(StatModifiers::evasion_accuracy_ratio(-stage), (d, n));
    }
}
