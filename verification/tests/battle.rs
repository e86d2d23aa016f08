use mon_gen::attack::{AttackMeta, Target};
use mon_gen::monster::{Monster, MonsterAttack, MonsterValues, StatBytes, Stats};
use mon_gen::party::Party;
use mon_gen::battle::{Battle, BattleError};
use mon_gen::types::StatType;

fn deoxys(level: u8) -> Monster {
    let values = MonsterValues {
        species: 386,
        form: 0,
        level,
        personality: 0,
        gender: 0,
        nature: 0,
        experience: 0,
        stats: Stats { health: 50, attack: 80, defense: 30, sp_attack: 80, sp_defense: 30, speed: 90 },
        yields: StatBytes { health: 0, attack: 1, defense: 0, sp_attack: 1, sp_defense: 0, speed: 1 },
        individuals: StatBytes { health: 1, attack: 2, defense: 3, sp_attack: 4, sp_defense: 5, speed: 6 },
    };
    let meta = AttackMeta {
        element: 0,
        category: 0,
        power: 40,
        limit: 35,
        priority: 0,
        target: Target::SIDE_ENEMY | Target::RANGE_ADJACENT,
    };
    Monster::from_values(String::from("Deoxys"), values, vec![MonsterAttack::new(0, meta)])
}


// Validate that correct errors are being returned.
#[test]
fn battle_command_error() {
    let party_data0: Vec<Monster> = (1..=3).map(deoxys).collect();
    let mut party_data1: Vec<Monster> = (4..=9).map(deoxys).collect();

    party_data1[4].health_lose(StatType::MAX);

    let parties = vec![Party::new(party_data0, 0, 3), Party::new(party_data1, 0, 3)];

    let mut battle = Battle::new(parties).unwrap();

    assert_eq!(battle.command_add_escape(0), BattleError::NoError);
    assert_eq!(battle.command_add_escape(1), BattleError::NoError);

    // Changing who to switch to.
    assert_eq!(battle.command_add_switch(1, 0, 3), BattleError::NoError);
    assert_eq!(battle.command_add_switch(1, 0, 5), BattleError::NoError);
    assert_eq!(battle.command_add_switch(1, 0, 4), BattleError::SwitchHealth);

    // Switching to a member already queued to switch in.
    assert_eq!(battle.command_add_switch(1, 1, 3), BattleError::NoError);
    assert_eq!(battle.command_add_switch(1, 1, 5), BattleError::SwitchQueued);

    // Attempt to switch to the same member.
    assert_eq!(battle.command_add_switch(1, 2, 1), BattleError::NoError);
    assert_eq!(battle.command_add_switch(1, 2, 2), BattleError::SwitchActive);

    // Target an opposing party.
    assert_eq!(battle.command_add_attack(0, 0, 0, 1, 0), BattleError::NoError);
    assert_eq!(battle.command_add_attack(0, 0, 0, 1, 2), BattleError::AttackTarget);
    assert_eq!(battle.command_add_attack(0, 0, 0, 1, 1), BattleError::NoError);
    assert_eq!(battle.command_add_attack(0, 1, 0, 1, 0), BattleError::NoError);
    assert_eq!(battle.command_add_attack(0, 1, 0, 1, 2), BattleError::NoError);
    assert_eq!(battle.command_add_attack(0, 1, 0, 1, 1), BattleError::NoError);
    assert_eq!(battle.command_add_attack(0, 2, 0, 1, 0), BattleError::AttackTarget);
    assert_eq!(battle.command_add_attack(0, 2, 0, 1, 2), BattleError::NoError);
    assert_eq!(battle.command_add_attack(0, 2, 0, 1, 1), BattleError::NoError);
}

// An attack with no uses left is refused, and an attack may not target its own party unless it
// hits allies.
#[test]
fn battle_attack_limit_and_ally() {
    let mut tired = deoxys(5);
    tired.attack_limit_take(0, 35);
    let parties = vec![Party::new(vec![tired, deoxys(6)], 0, 2), Party::new(vec![deoxys(7)], 1, 1)];
    let mut battle = Battle::new(parties).unwrap();
    assert_eq!(battle.command_add_attack(0, 0, 0, 1, 0), BattleError::AttackLimit);
    assert_eq!(battle.command_add_attack(0, 1, 0, 0, 0), BattleError::AttackTarget);
    assert_eq!(battle.command_add_attack(0, 1, 0, 1, 0), BattleError::NoError);
    assert!(!battle.queue().ready());
}

// Reserved for damage effectiveness checks.
#[test]
fn battle_damage() {}

// An escape is one command for the whole party: the party counts as fully commanded.
#[test]
fn battle_escape_covers_party() {
    let parties = vec![Party::new((1..=3).map(deoxys).collect(), 0, 3), Party::new(vec![deoxys(4)], 1, 1)];
    let mut battle = Battle::new(parties).unwrap();
    assert_eq!(battle.command_add_attack(0, 1, 0, 1, 0), BattleError::NoError);
    assert_eq!(battle.command_add_escape(0), BattleError::NoError);
    assert!(battle.queue().command_get(0, 1).is_none());
    assert_eq!(battle.command_add_escape(1), BattleError::NoError);
    assert!(battle.queue().ready());
}
