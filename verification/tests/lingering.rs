use mon_gen::attack::{AttackMeta, Target};
use mon_gen::battle::{Battle, BattleError};
use mon_gen::command::CommandType;
use mon_gen::effect::{Effect, LingeringAdd, LingeringChange, NoneReason};
use mon_gen::lingering::{DeathAllTurns, LingeringType};
use mon_gen::monster::{Monster, MonsterAttack, MonsterValues, StatBytes, Stats};
use mon_gen::party::Party;
use mon_gen::runner::{BattleExecution, BattlePartyMember};

fn mew(speed: u16) -> Monster {
    let values = MonsterValues {
        species: 151,
        form: 0,
        level: 100,
        personality: 0,
        gender: 0,
        nature: 0,
        experience: 0,
        stats: Stats { health: 300, attack: 50, defense: 50, sp_attack: 50, sp_defense: 50, speed },
        yields: StatBytes { health: 0, attack: 0, defense: 0, sp_attack: 0, sp_defense: 0, speed: 0 },
        individuals: StatBytes { health: 0, attack: 0, defense: 0, sp_attack: 0, sp_defense: 0, speed: 0 },
    };
    let meta = |limit| AttackMeta {
        element: 0,
        category: 2,
        power: 0,
        limit,
        priority: 0,
        target: Target::SIDE_ENEMY | Target::RANGE_ADJACENT,
    };
    // Attack 0 stands for Splash, attack 1 for Perish Song.
    Monster::from_values(String::from("Mew"), values, vec![MonsterAttack::new(0, meta(40)), MonsterAttack::new(1, meta(5))])
}

/// The effects that the attack of the command started last produces.
fn give_effects(battle: &mut Battle) {
    if !battle.attack_pending() {
        return;
    }
    let effects = match *battle.current_command() {
        CommandType::Attack(a) if a.attack_index == 1 => {
            let mut song = DeathAllTurns::new(5);
            song.after_create(&vec![vec![0], vec![0]]);
            vec![Effect::LingeringAdd(LingeringAdd { lingering: LingeringType::DeathAllTurns(song) })]
        }
        _ => vec![Effect::NoChange(NoneReason::Nothing)],
    };
    battle.effects_give(effects);
}

fn command_attack_none(battle: &mut Battle) {
    assert_eq!(battle.execute(), BattleExecution::Command);
    give_effects(battle);
    assert_eq!(battle.execute(), BattleExecution::Effect);
    assert_eq!(*battle.current_effect(), Effect::NoChange(NoneReason::Nothing));
}

// Validate death all in 5 turns.
#[test]
fn lingering_death_turns() {
    let parties = vec![Party::new(vec![mew(100)], 0, 1), Party::new(vec![mew(50)], 1, 1)];
    let mut battle = Battle::new(parties).unwrap();
    battle.command_add_attack(0, 0, 1, 1, 0);
    battle.command_add_attack(1, 0, 0, 0, 0);

    assert_eq!(battle.execute(), BattleExecution::Command);
    give_effects(&mut battle);
    assert_eq!(battle.execute(), BattleExecution::Effect);

    command_attack_none(&mut battle);

    assert_eq!(battle.execute(), BattleExecution::Command);
    assert_eq!(battle.execute(), BattleExecution::Effect);

    assert_eq!(battle.execute(), BattleExecution::Waiting);

    // Nothing happens for 3 turns.
    for _ in 0..3 {
        assert_eq!(battle.command_add_attack(0, 0, 0, 1, 0), BattleError::NoError);
        assert_eq!(battle.command_add_attack(1, 0, 0, 0, 0), BattleError::NoError);

        command_attack_none(&mut battle);
        command_attack_none(&mut battle);

        assert_eq!(battle.execute(), BattleExecution::Command);
        assert_eq!(battle.execute(), BattleExecution::Effect);

        assert_eq!(battle.execute(), BattleExecution::Waiting);
    }

    // On 5th turn, all targets die.
    assert_eq!(battle.command_add_attack(0, 0, 0, 1, 0), BattleError::NoError);
    assert_eq!(battle.command_add_attack(1, 0, 0, 0, 0), BattleError::NoError);

    command_attack_none(&mut battle);
    command_attack_none(&mut battle);

    assert_eq!(battle.execute(), BattleExecution::Command);
    assert_eq!(battle.execute(), BattleExecution::Effect);
    assert_eq!(battle.execute(), BattleExecution::Effect);
    assert_eq!(*battle.current_effect(), Effect::LingeringChange(LingeringChange { index: 0 }));

    assert_eq!(battle.execute(), BattleExecution::Death(BattlePartyMember { party: 0, member: 0 }));

    assert_eq!(battle.execute(), BattleExecution::Death(BattlePartyMember { party: 1, member: 0 }));
}
