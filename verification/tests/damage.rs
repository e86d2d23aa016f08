use mon_gen::attack::{AttackMeta, Target};
use mon_gen::battle::Battle;
use mon_gen::calculate::damage_fixed;
use mon_gen::command::{CommandAttack, CommandType};
use mon_gen::effect::{Damage, DamageMeta, Effect, NoneReason, Ratio};
use mon_gen::monster::{Monster, MonsterAttack, MonsterValues, StatBytes, Stats};
use mon_gen::party::Party;
use mon_gen::runner::{BattleEffects, BattleExecution, BattlePartyMember};

fn monster(level: u8, health: u16, speed: u16) -> Monster {
    let values = MonsterValues {
        species: 151,
        form: 0,
        level,
        personality: 0,
        gender: 0,
        nature: 0,
        experience: 0,
        stats: Stats { health, attack: 50, defense: 50, sp_attack: 50, sp_defense: 50, speed },
        yields: StatBytes { health: 0, attack: 0, defense: 0, sp_attack: 0, sp_defense: 0, speed: 0 },
        individuals: StatBytes { health: 0, attack: 0, defense: 0, sp_attack: 0, sp_defense: 0, speed: 0 },
    };
    let meta = AttackMeta {
        element: 0,
        category: 0,
        power: 0,
        limit: 10,
        priority: 0,
        target: Target::SIDE_ENEMY | Target::RANGE_ADJACENT,
    };
    Monster::from_values(String::from("Mew"), values, vec![MonsterAttack::new(0, meta)])
}

fn effects_of(effects: &mut BattleEffects) -> Vec<Effect> {
    let mut v = Vec::new();
    while !effects.effects_empty() {
        v.push(effects.effect_take());
    }
    v
}

fn attack(party: usize, target_party: usize) -> CommandType {
    CommandType::Attack(CommandAttack { party, member: 0, attack_index: 0, target_party, target_member: 0 })
}

// Fixed damage always does promised amount except for unaffected elements.
#[test]
fn battle_damage_fixed() {
    let parties = vec![Party::new(vec![monster(100, 300, 50)], 0, 1), Party::new(vec![monster(100, 300, 100)], 1, 1)];
    let mut battle = Battle::new(parties).unwrap();
    battle.command_add_attack(0, 0, 0, 1, 0);
    battle.command_add_attack(1, 0, 0, 0, 0);

    assert_eq!(battle.execute(), BattleExecution::Command);
    assert_eq!(*battle.current_command(), attack(1, 0));
    assert!(battle.attack_pending());
    battle.effects_give(vec![Effect::NoChange(NoneReason::Nothing)]);
    assert_eq!(battle.execute(), BattleExecution::Effect);
    assert_eq!(*battle.current_effect(), Effect::NoChange(NoneReason::Nothing));

    assert_eq!(battle.execute(), BattleExecution::Command);
    assert_eq!(*battle.current_command(), attack(0, 1));
    let command = CommandAttack { party: 0, member: 0, attack_index: 0, target_party: 1, target_member: 0 };
    let mut fixed = BattleEffects::new();
    damage_fixed(&mut fixed, &command, 0, battle.state(), 40);
    battle.effects_give(effects_of(&mut fixed));

    assert_eq!(battle.execute(), BattleExecution::Effect);
    assert_eq!(
        *battle.current_effect(),
        Effect::Damage(Damage {
            party: 1,
            member: 0,
            active: 0,
            meta: DamageMeta { amount: 40, type_bonus: Ratio { num: 1, den: 1 }, critical: false },
        })
    );
    assert_eq!(battle.parties()[1].member(0).health(), 260);
}

// Knock out moves have guaranteed kill except for unaffected elements.
#[test]
fn battle_damage_knock_out() {
    let parties = vec![Party::new(vec![monster(1, 30, 50)], 0, 1), Party::new(vec![monster(100, 300, 100)], 1, 1)];
    let mut battle = Battle::new(parties).unwrap();
    battle.command_add_attack(0, 0, 0, 1, 0);
    battle.command_add_attack(1, 0, 0, 0, 0);

    assert_eq!(battle.execute(), BattleExecution::Command);
    assert_eq!(*battle.current_command(), attack(1, 0));
    battle.effects_give(vec![Effect::NoChange(NoneReason::Nothing)]);
    assert_eq!(battle.execute(), BattleExecution::Effect);
    assert_eq!(*battle.current_effect(), Effect::NoChange(NoneReason::Nothing));

    assert_eq!(battle.execute(), BattleExecution::Command);
    assert_eq!(*battle.current_command(), attack(0, 1));
    let health = battle.parties()[1].member(0).health();
    battle.effects_give(vec![Effect::Damage(Damage {
        party: 1,
        member: 0,
        active: 0,
        meta: DamageMeta { amount: health, type_bonus: Ratio { num: 1, den: 1 }, critical: false },
    })]);

    assert_eq!(battle.execute(), BattleExecution::Death(BattlePartyMember { party: 1, member: 0 }));
    assert_eq!(battle.execute(), BattleExecution::Finished(0));
}

// A retreat waits for the member that replaces the retreating one, then switches it in.
#[test]
fn battle_retreat_switches_in_replacement() {
    let parties = vec![
        Party::new(vec![monster(10, 30, 100), monster(20, 40, 10)], 0, 1),
        Party::new(vec![monster(30, 300, 50)], 1, 1),
    ];
    let mut battle = Battle::with_seed(parties, 3);
    assert_eq!(battle.command_add_retreat(1), mon_gen::battle::BattleError::Rejected);
    assert_eq!(battle.command_add_post_switch(0, 0, 1), mon_gen::battle::BattleError::Rejected);
    battle.command_add_attack(0, 0, 0, 1, 0);
    battle.command_add_attack(1, 0, 0, 0, 0);

    assert_eq!(battle.execute(), BattleExecution::Command);
    assert_eq!(*battle.current_command(), attack(0, 1));
    battle.effects_give(vec![Effect::Retreat(mon_gen::effect::Retreat { party: 0, active: 0 })]);
    let waiting = BattleExecution::RetreatWaiting(BattlePartyMember { party: 0, member: 0 });
    assert_eq!(battle.execute(), waiting);
    assert_eq!(battle.execute(), waiting);
    assert_eq!(battle.command_add_retreat(0), mon_gen::battle::BattleError::SwitchActive);
    assert_eq!(battle.command_add_retreat(1), mon_gen::battle::BattleError::NoError);
    assert_eq!(battle.execute(), BattleExecution::Effect);
    assert_eq!(battle.parties()[0].member(0).level(), 20);
    assert_eq!(battle.parties()[0].member(1).level(), 10);

    assert_eq!(battle.execute(), BattleExecution::Command);
    assert_eq!(*battle.current_command(), attack(1, 0));
}
