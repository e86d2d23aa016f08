use mon_gen::attack::{AttackMeta, Target, TargetType};
use mon_gen::calculate::{
    accuracy_delta,
    attack_delta,
    battle_flags_toggle,
    critical_hit,
    damage_fixed,
    defense_delta,
    for_targets,
    is_critical,
    nothing,
    retreat,
};
use mon_gen::command::CommandAttack;
use rand::rngs::StdRng;
use rand::{Rng, SeedableRng};
use mon_gen::effect::{Damage, DamageMeta, Effect, FlagsChange, NoneReason, Ratio, Retreat};
use mon_gen::lingering::{DeathAllTurns, LingeringType};
use mon_gen::messages::battle_modifier_message;
use mon_gen::monster::{learned_attacks, Monster, MonsterAttack, MonsterValues, StatBytes, Stats};
use mon_gen::party::Party;
use mon_gen::runner::{BattleEffects, BattleFlags, BattleState};

fn fighter(target: TargetType) -> Monster {
    let values = MonsterValues {
        species: 25,
        form: 0,
        level: 10,
        personality: 0,
        gender: 0,
        nature: 0,
        experience: 1000,
        stats: Stats { health: 30, attack: 20, defense: 20, sp_attack: 20, sp_defense: 20, speed: 20 },
        yields: StatBytes { health: 0, attack: 0, defense: 0, sp_attack: 0, sp_defense: 0, speed: 0 },
        individuals: StatBytes { health: 0, attack: 0, defense: 0, sp_attack: 0, sp_defense: 0, speed: 0 },
    };
    let meta = AttackMeta { element: 0, category: 0, power: 40, limit: 10, priority: 0, target };
    Monster::from_values(String::from("Pika"), values, vec![MonsterAttack::new(1, meta)])
}

fn state(target: TargetType) -> BattleState {
    let first = Party::new(vec![fighter(target), fighter(target), fighter(target)], 0, 3);
    let second = Party::new(vec![fighter(target), fighter(target), fighter(target)], 1, 3);
    BattleState::new(vec![first, second])
}

fn command(member: usize, target_party: usize, target_member: usize) -> CommandAttack {
    CommandAttack { party: 0, member, attack_index: 0, target_party, target_member }
}

#[test]
fn battle_effects_order() {
    let mut effects = BattleEffects::new();
    assert!(effects.effects_empty());
    effects.effect_add(Effect::Retreat(Retreat { party: 0, active: 1 }));
    effects.effect_add(Effect::NoChange(NoneReason::Miss));
    effects.effect_add_front(Effect::NoChange(NoneReason::Turn));
    assert!(!effects.effects_empty());
    assert_eq!(effects.effect_take(), Effect::NoChange(NoneReason::Turn));
    assert_eq!(effects.effect_take(), Effect::Retreat(Retreat { party: 0, active: 1 }));
    assert_eq!(effects.effect_take(), Effect::NoChange(NoneReason::Miss));
    assert!(effects.effects_empty());
    effects.effect_add(Effect::NoChange(NoneReason::Escape));
    effects.effects_clear();
    assert!(effects.effects_empty());
}

#[test]
fn battle_state_flags_and_lingering() {
    let mut s = state(Target::SIDE_ENEMY | Target::RANGE_ADJACENT);
    assert_eq!(s.flags(), 0);
    assert_eq!(s.parties().len(), 2);
    s.flags_set(BattleFlags::SPEED_REVERSE);
    assert_eq!(s.flags(), 0b10);
    s.lingering_add(LingeringType::DeathAllTurns(DeathAllTurns::new(3)));
    s.lingering_add(LingeringType::DeathAllTurns(DeathAllTurns::new(1)));
    s.lingering_remove(0);
    assert_eq!(s.lingering().len(), 1);
    match &s.lingering()[0] {
        LingeringType::DeathAllTurns(d) => assert_eq!(d.turns(), 1),
    }
}

#[test]
fn targets_single() {
    let s = state(Target::SIDE_ENEMY | Target::RANGE_ADJACENT);
    assert_eq!(for_targets(&command(0, 1, 1), 0, &s), vec![(1, 1)]);
}

#[test]
fn targets_multi_enemies() {
    let s = state(Target::MULTI | Target::SIDE_ENEMY | Target::RANGE_ALL);
    assert_eq!(for_targets(&command(0, 1, 0), 0, &s), vec![(1, 0), (1, 1), (1, 2)]);
    let near = state(Target::MULTI | Target::SIDE_ENEMY | Target::RANGE_ADJACENT);
    assert_eq!(for_targets(&command(0, 1, 0), 0, &near), vec![(1, 0), (1, 1)]);
    let far = state(Target::MULTI | Target::SIDE_ENEMY | Target::RANGE_OPPOSITE);
    assert_eq!(for_targets(&command(0, 1, 0), 0, &far), vec![(1, 2)]);
}

#[test]
fn targets_multi_allies_and_self() {
    let without_self = state(Target::MULTI | Target::SIDE_ALL | Target::RANGE_ADJACENT);
    assert_eq!(
        for_targets(&command(1, 1, 0), 0, &without_self),
        vec![(0, 0), (0, 2), (1, 0), (1, 1), (1, 2)]
    );
    let with_self = state(Target::MULTI | Target::SIDE_ALLY | Target::RANGE_ALL | Target::TARGET_SELF);
    assert_eq!(for_targets(&command(1, 0, 0), 0, &with_self), vec![(0, 0), (0, 1), (0, 2)]);
}

#[test]
fn damage_fixed_per_target() {
    let s = state(Target::MULTI | Target::SIDE_ENEMY | Target::RANGE_ADJACENT);
    let mut effects = BattleEffects::new();
    damage_fixed(&mut effects, &command(0, 1, 1), 0, &s, 20);
    let expect = |active: usize| {
        Effect::Damage(Damage {
            party: 1,
            active,
            member: 1,
            meta: DamageMeta { amount: 20, type_bonus: Ratio { num: 1, den: 1 }, critical: false },
        })
    };
    assert_eq!(effects.effect_take(), expect(0));
    assert_eq!(effects.effect_take(), expect(1));
    assert!(effects.effects_empty());
}

#[test]
fn retreat_and_nothing() {
    let s = state(Target::SIDE_ALLY | Target::RANGE_ADJACENT | Target::TARGET_SELF);
    let mut effects = BattleEffects::new();
    retreat(&mut effects, &command(2, 0, 2), 0, &s);
    nothing(&mut effects);
    assert_eq!(effects.effect_take(), Effect::Retreat(Retreat { party: 0, active: 2 }));
    assert_eq!(effects.effect_take(), Effect::NoChange(NoneReason::Nothing));
    assert!(effects.effects_empty());
}

#[test]
fn flags_toggle_effect() {
    let mut s = state(Target::SIDE_ENEMY | Target::RANGE_ADJACENT);
    s.flags_set(BattleFlags::PRIORITY_REVERSE | BattleFlags::SPEED_REVERSE);
    let mut effects = BattleEffects::new();
    battle_flags_toggle(&mut effects, &s, BattleFlags::SPEED_REVERSE);
    assert_eq!(effects.effect_take(), Effect::FlagsChange(FlagsChange { flags: 0b01 }));
}

#[test]
fn stat_deltas_are_clamped() {
    let mut effects = BattleEffects::new();
    attack_delta(&mut effects, &command(0, 1, 2), 2);
    defense_delta(&mut effects, &command(0, 1, 0), -9);
    accuracy_delta(&mut effects, &command(0, 0, 1), 7);
    match effects.effect_take() {
        Effect::Modifier(m) => {
            assert_eq!((m.party(), m.active()), (1, 2));
            assert_eq!(m.modifiers().attack_stage(), 2);
            assert_eq!(m.modifiers().defense_stage(), 0);
        }
        other => panic!("unexpected effect {:?}", other),
    }
    match effects.effect_take() {
        Effect::Modifier(m) => {
            assert_eq!((m.party(), m.active()), (1, 0));
            assert_eq!(m.modifiers().defense_stage(), -6);
        }
        other => panic!("unexpected effect {:?}", other),
    }
    match effects.effect_take() {
        Effect::Modifier(m) => {
            assert_eq!((m.party(), m.active()), (0, 1));
            assert_eq!(m.modifiers().accuracy_stage(), 6);
            assert_eq!(m.modifiers().attack_stage(), 0);
        }
        other => panic!("unexpected effect {:?}", other),
    }
}

#[test]
fn critical_rates() {
    // Stage 0 takes the byte modulo 32.
    assert!(critical_hit(0, false, 32));
    assert!(critical_hit(0, false, 33));
    assert!(!critical_hit(0, false, 34));
    assert!(critical_hit(0, true, 34));
    assert!(!critical_hit(0, true, 35));
    // Stage 1 modulo 16, stage 2 modulo 8, higher stages modulo 4.
    assert!(critical_hit(1, false, 17));
    assert!(!critical_hit(1, false, 18));
    assert!(critical_hit(2, true, 10));
    assert!(!critical_hit(2, true, 11));
    assert!(critical_hit(3, false, 5));
    assert!(critical_hit(5, true, 6));
    assert!(!critical_hit(5, true, 7));
}

#[test]
fn learned_attacks_latest_first() {
    let learnable = vec![
        (1, vec![vec![1, 2], vec![10]]),
        (5, vec![vec![3], vec![11]]),
        (9, vec![vec![4, 5], vec![12]]),
        (20, vec![vec![6], vec![13]]),
    ];
    // Each attack goes in front as it is learned, from the latest level down.
    assert_eq!(learned_attacks(&learnable, 10, 0), vec![1, 3, 5, 4]);
    assert_eq!(learned_attacks(&learnable, 5, 0), vec![2, 1, 3]);
    assert_eq!(learned_attacks(&learnable, 4, 1), vec![10]);
    assert_eq!(learned_attacks(&learnable, 100, 1), vec![10, 11, 12, 13]);
    assert_eq!(learned_attacks(&learnable, 100, 0), vec![3, 5, 4, 6]);
}

#[test]
fn death_all_turns_counts_down() {
    let mut d = DeathAllTurns::new(3);
    d.after_create(&vec![vec![0, 2], vec![1]]);
    assert_eq!(d.turns(), 3);
    assert!(!d.state_change());
    assert!(!d.state_change());
    assert!(d.state_change());
    assert_eq!(d.turns(), 0);
    assert!(d.after_turn());
}

#[test]
fn lingering_type_delegates() {
    let mut l = LingeringType::DeathAllTurns(DeathAllTurns::new(2));
    l.after_create(&vec![vec![0]]);
    assert!(l.after_turn());
    assert!(!l.state_change());
    assert!(l.state_change());
    match &l {
        LingeringType::DeathAllTurns(d) => assert_eq!(d.turns(), 0),
    }
}

#[test]
fn modifier_messages() {
    assert_eq!(battle_modifier_message("Mew", "attack", 2, 2, -6, 6), "Mew's attack rose sharply!");
    assert_eq!(battle_modifier_message("Mew", "defense", -1, 0, -6, 6), "Mew's defense fell!");
    assert_eq!(battle_modifier_message("Mew", "speed", -3, -2, -6, 6), "Mew's speed severely fell!");
    assert_eq!(battle_modifier_message("Mew", "speed", -2, -6, -6, 6), "Mew's speed won't go any lower!");
    assert_eq!(battle_modifier_message("Mew", "accuracy", 5, 6, -6, 6), "Mew's accuracy won't go any higher!");
    assert_eq!(battle_modifier_message("Mew", "evasion", 3, 1, -6, 6), "Mew's evasion rose drastically!");
}

#[test]
fn critical_from_random_byte() {
    for seed in 0..20u64 {
        let mut rng = StdRng::seed_from_u64(seed);
        let byte: u8 = rng.clone().gen();
        for stage in 0..4i8 {
            let mut r = rng.clone();
            assert_eq!(is_critical(stage, stage % 2 == 0, &mut r), critical_hit(stage, stage % 2 == 0, byte));
        }
        let _ = rng.gen::<u8>();
    }
}
