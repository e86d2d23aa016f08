use mon_gen::attack::{AttackMeta, Target};
use mon_gen::monster::{Monster, MonsterAttack, MonsterValues, StatBytes, Stats};
use mon_gen::party::Party;
use mon_gen::types::StatType;

fn deoxys(level: u8) -> Monster {
    let values = MonsterValues {
        species: 386,
        form: 0,
        level,
        personality: 0,
        gender: 0,
        nature: 0,
        experience: 0,
        stats: Stats { health: 50, attack: 80, defense: 30, sp_attack: 80, sp_defense: 30, speed: 90 },
        yields: StatBytes { health: 0, attack: 1, defense: 0, sp_attack: 1, sp_defense: 0, speed: 1 },
        individuals: StatBytes { health: 1, attack: 2, defense: 3, sp_attack: 4, sp_defense: 5, speed: 6 },
    };
    let meta = AttackMeta {
        element: 0,
        category: 0,
        power: 40,
        limit: 35,
        priority: 0,
        target: Target::SIDE_ENEMY | Target::RANGE_ADJACENT,
    };
    Monster::from_values(String::from("Deoxys"), values, vec![MonsterAttack::new(0, meta)])
}

#[test]
fn party_active_order() {
    let mut party_data: Vec<Monster> = (1..=6).map(deoxys).collect();
    party_data[5].health_lose(StatType::MAX);

    // Basic case.
    {
        let party = Party::new(party_data, 0, 2);
        assert!(party.active_count() == 2);
        assert!(party.active_member_index(0) == Some(0));
        assert!(party.active_member_index(1) == Some(1));
        assert!(party.member_waiting_count() == 3);
        party_data = party.into_members();
    }

    // First member not alive.
    party_data[0].health_lose(StatType::MAX);
    {
        let party = Party::new(party_data, 0, 2);
        assert!(party.active_count() == 2);
        assert!(party.active_member_index(0) == Some(1));
        assert!(party.active_member_index(1) == Some(2));
        assert!(party.member_waiting_count() == 2);
        party_data = party.into_members();
    }

    // Gaps between alive members.
    party_data[2].health_lose(StatType::MAX);
    {
        let party = Party::new(party_data, 0, 2);
        assert!(party.active_count() == 2);
        assert!(party.active_member_index(0) == Some(1));
        assert!(party.active_member_index(1) == Some(3));
        assert!(party.member_waiting_count() == 1);
        party_data = party.into_members();
    }

    // Less alive members than needed active.
    party_data[3].health_lose(StatType::MAX);
    party_data[4].health_lose(StatType::MAX);
    {
        let party = Party::new(party_data, 0, 2);
        assert!(party.active_count() == 1);
        assert!(party.active_member_index(0) == Some(1));
        assert!(party.member_waiting_count() == 0);
    }
}

#[test]
fn party_switch_twice_restores() {
    let mut party = Party::new(vec![deoxys(1), deoxys(2), deoxys(3)], 0, 1);
    party.switch_active(0, 2);
    assert_eq!(party.member(0).level(), 3);
    assert_eq!(party.member(2).level(), 1);
    party.switch_active(0, 2);
    let levels: Vec<u8> = party.members().iter().map(|m| m.level()).collect();
    assert_eq!(levels, vec![1, 2, 3]);
}
