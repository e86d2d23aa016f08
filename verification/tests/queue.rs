use mon_gen::attack::{AttackMeta, Target};
use mon_gen::monster::{Monster, MonsterAttack, MonsterValues, StatBytes, Stats};
use mon_gen::party::Party;
use mon_gen::types::StatType;
use mon_gen::queue::BattleQueue;
use std::cmp::Ordering;
use mon_gen::command::{CommandAttack, CommandEscape, CommandSwitch, CommandType};

fn deoxys(level: u8) -> Monster {
    deoxys_with_speed(level, 90)
}

fn deoxys_with_speed(level: u8, speed: StatType) -> Monster {
    let values = MonsterValues {
        species: 386,
        form: 0,
        level,
        personality: 0,
        gender: 0,
        nature: 0,
        experience: 0,
        stats: Stats { health: 50, attack: 80, defense: 30, sp_attack: 80, sp_defense: 30, speed },
        yields: StatBytes { health: 0, attack: 1, defense: 0, sp_attack: 1, sp_defense: 0, speed: 1 },
        individuals: StatBytes { health: 1, attack: 2, defense: 3, sp_attack: 4, sp_defense: 5, speed: 6 },
    };
    let meta = AttackMeta {
        element: 0,
        category: 0,
        power: 40,
        limit: 35,
        priority: 0,
        target: Target::SIDE_ENEMY | Target::RANGE_ADJACENT,
    };
    Monster::from_values(String::from("Deoxys"), values, vec![MonsterAttack::new(0, meta)])
}


fn party_of(levels: &[u8], out: usize) -> Party {
    Party::new(levels.iter().map(|l| deoxys(*l)).collect(), 0, out)
}

// Make sure ready flag is working correctly when override commands.
#[test]
fn queue_ready() {
    let parties = vec![party_of(&[1, 2, 3], 3), party_of(&[4, 5, 6], 3), party_of(&[7, 8, 9], 3)];

    let mut queue = BattleQueue::new(&parties);

    let mut escape: CommandEscape = CommandEscape { party: 0 };

    // Add a command to each party but not each party member.
    queue.command_add(CommandType::Escape(escape), 0, 0);
    escape.party = 1;
    queue.command_add(CommandType::Escape(escape), 1, 0);
    escape.party = 2;
    queue.command_add(CommandType::Escape(escape), 2, 0);
    assert!(!queue.ready());

    // Add a party command, overriding member commands.
    escape.party = 0;
    queue.command_add_party(CommandType::Escape(escape), 0);
    assert!(!queue.ready());

    escape.party = 1;
    queue.command_add_party(CommandType::Escape(escape), 1);
    assert!(!queue.ready());

    escape.party = 2;
    queue.command_add_party(CommandType::Escape(escape), 2);
    assert!(queue.ready());

    // Add a member command, override party commands.
    escape.party = 0;
    queue.command_add(CommandType::Escape(escape), 0, 2);
    assert!(!queue.ready());

    escape.party = 1;
    queue.command_add(CommandType::Escape(escape), 1, 2);
    assert!(!queue.ready());

    escape.party = 2;
    queue.command_add(CommandType::Escape(escape), 2, 2);
    assert!(!queue.ready());

    // Fill the rest of the members.
    escape.party = 0;
    queue.command_add(CommandType::Escape(escape), 0, 0);
    queue.command_add(CommandType::Escape(escape), 0, 1);
    assert!(!queue.ready());

    escape.party = 1;
    queue.command_add(CommandType::Escape(escape), 1, 0);
    queue.command_add(CommandType::Escape(escape), 1, 1);
    assert!(!queue.ready());

    escape.party = 2;
    queue.command_add(CommandType::Escape(escape), 2, 0);
    queue.command_add(CommandType::Escape(escape), 2, 1);
    assert!(queue.ready());
}

#[test]
fn queue_command() {
    let parties = vec![
        party_of(&[7, 8], 1),
        party_of(&[11, 12], 1),
        party_of(&[1, 2], 1),
        party_of(&[3, 4], 1),
    ];

    let mut queue = BattleQueue::new(&parties);
    let mut attack: CommandAttack = CommandAttack {
        party: 2,
        member: 0,
        attack_index: 0,
        target_party: 0,
        target_member: 0,
    };
    let switch: CommandSwitch = CommandSwitch { party: 0, member: 0, target: 1 };
    let mut escape: CommandEscape = CommandEscape { party: 0 };

    // Ensure priority command order.
    queue.command_add(CommandType::Switch(switch), 0, 0);
    escape.party = 1;
    queue.command_add(CommandType::Escape(escape), 1, 0);
    queue.command_add(CommandType::Attack(attack), 2, 0);
    escape.party = 3;
    queue.command_add(CommandType::Escape(escape), 3, 0);
    assert!(queue.ready());

    escape.party = 1;
    assert_eq!(queue.command_consume(&parties, 0), CommandType::Escape(escape));
    assert!(queue.ready());
    escape.party = 3;
    assert_eq!(queue.command_consume(&parties, 0), CommandType::Escape(escape));
    assert!(queue.ready());
    assert_eq!(queue.command_consume(&parties, 0), CommandType::Switch(switch));
    assert!(queue.ready());
    assert_eq!(queue.command_consume(&parties, 0), CommandType::Attack(attack));
    assert!(!queue.ready());

    // Ensure higher speed monsters go first.
    attack.party = 0;
    queue.command_add(CommandType::Attack(attack), 0, 0);
    attack.party = 1;
    queue.command_add(CommandType::Attack(attack), 1, 0);
    attack.party = 2;
    queue.command_add(CommandType::Attack(attack), 2, 0);
    attack.party = 3;
    queue.command_add(CommandType::Attack(attack), 3, 0);
    assert!(queue.ready());
}

// Faster members attack first; with the speed order reversed, slower ones do.
#[test]
fn queue_speed_order() {
    let make = |speed: StatType| Party::new(vec![deoxys_with_speed(10, speed)], 0, 1);
    let parties = vec![make(50), make(120), make(80)];
    let attack = |party: usize| CommandType::Attack(CommandAttack {
        party,
        member: 0,
        attack_index: 0,
        target_party: 0,
        target_member: 0,
    });

    let mut queue = BattleQueue::new(&parties);
    for party in 0..3 {
        queue.command_add(attack(party), party, 0);
    }
    assert!(queue.ready());
    assert_eq!(queue.command_consume(&parties, 0), attack(1));
    assert_eq!(queue.command_consume(&parties, 0), attack(2));
    assert_eq!(queue.command_consume(&parties, 0), attack(0));
    assert!(!queue.ready());

    for party in 0..3 {
        queue.command_add(attack(party), party, 0);
    }
    assert_eq!(queue.command_consume(&parties, 0b10), attack(0));
    assert_eq!(queue.command_consume(&parties, 0b10), attack(2));
    assert_eq!(queue.command_consume(&parties, 0b10), attack(1));
    assert!(!queue.ready());
}

// Commands other than attacks compare without reading the parties.
#[test]
fn command_cmp_without_parties() {
    let e1 = CommandType::Escape(CommandEscape { party: 1 });
    let e3 = CommandType::Escape(CommandEscape { party: 3 });
    let s = CommandType::Switch(CommandSwitch { party: 0, member: 0, target: 1 });
    let a = CommandType::Attack(CommandAttack { party: 2, member: 0, attack_index: 0, target_party: 0, target_member: 0 });
    assert_eq!(e1.cmp(&e3, &[], 0), Ordering::Less);
    assert_eq!(e3.cmp(&s, &[], 0), Ordering::Less);
    assert_eq!(s.cmp(&a, &[], 0), Ordering::Less);
    assert_eq!(e3.cmp(&e1, &[], 0), Ordering::Greater);
    assert_eq!(s.cmp(&e3, &[], 0), Ordering::Greater);
    assert_eq!(a.cmp(&s, &[], 0), Ordering::Greater);
}
