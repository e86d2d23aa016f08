use mon_gen::attack::{AttackMeta, Target};
use mon_gen::monster::{Monster, MonsterAttack, MonsterValues, StatBytes, Stats};

fn meta(limit: u8) -> AttackMeta {
    AttackMeta { element: 1, category: 0, power: 40, limit, priority: 0, target: Target::SIDE_ENEMY | Target::RANGE_ADJACENT }
}

fn monster(level: u8, experience: u32) -> Monster {
    let values = MonsterValues {
        species: 1,
        form: 0,
        level,
        personality: 7,
        gender: 1,
        nature: 3,
        experience,
        stats: Stats { health: 40, attack: 20, defense: 20, sp_attack: 20, sp_defense: 20, speed: 20 },
        yields: StatBytes { health: 0, attack: 0, defense: 0, sp_attack: 0, sp_defense: 0, speed: 0 },
        individuals: StatBytes { health: 0, attack: 0, defense: 0, sp_attack: 0, sp_defense: 0, speed: 0 },
    };
    Monster::from_values(String::from("Mew"), values, vec![MonsterAttack::new(3, meta(5))])
}

fn cubic_growth() -> Vec<u32> {
    (0..=100u32).map(|n| n * n * n).collect()
}

#[test]
fn monster_health() {
    let mut m = monster(5, 125);
    assert_eq!(m.health(), 40);
    m.health_lose(15);
    assert_eq!(m.health(), 25);
    m.health_gain(100);
    assert_eq!(m.health(), 40);
    m.health_lose(1000);
    assert_eq!(m.health(), 0);
    m.health_restore();
    assert_eq!(m.health(), 40);
    assert_eq!(m.nick(), "Mew");
}

#[test]
fn monster_experience_levels() {
    let growth = cubic_growth();
    let mut m = monster(5, 125);
    m.experience_add(100, &growth);
    assert_eq!(m.level(), 6);
    assert_eq!(m.experience_total(), 225);
    m.experience_add(400, &growth);
    assert_eq!(m.level(), 8);

    let mut top = monster(99, 970_299);
    top.experience_add(50_000, &growth);
    assert_eq!(top.level(), 100);
    assert_eq!(top.experience_total(), 1_000_000);
    top.experience_add(5, &growth);
    assert_eq!(top.experience_total(), 1_000_000);
}

#[test]
fn monster_attack_limits() {
    let mut attack = MonsterAttack::new(9, meta(3));
    assert_eq!(attack.limit_left(), 3);
    attack.limit_left_take(2);
    assert_eq!(attack.limit_left(), 1);
    attack.limit_left_take(2);
    assert_eq!(attack.limit_left(), 0);
    assert_eq!(attack.limit_max(), 3);
    assert_eq!(MonsterAttack::new(9, meta(254)).limit_max(), 254);

    let mut m = monster(5, 125);
    m.attack_limit_take(0, 4);
    assert_eq!(m.attacks()[0].limit_left(), 1);
    m.attack_remove(0);
    assert!(m.attacks().is_empty());
    assert!(!m.recruited());
}

#[test]
fn monster_from_draws_learns_latest_attacks() {
    let values = MonsterValues {
        species: 2,
        form: 1,
        level: 12,
        personality: 9,
        gender: 0,
        nature: 4,
        experience: 1728,
        stats: Stats { health: 33, attack: 18, defense: 17, sp_attack: 16, sp_defense: 15, speed: 14 },
        yields: StatBytes { health: 0, attack: 0, defense: 0, sp_attack: 0, sp_defense: 0, speed: 0 },
        individuals: StatBytes { health: 1, attack: 2, defense: 3, sp_attack: 4, sp_defense: 5, speed: 6 },
    };
    let learnable: Vec<(u8, Vec<Vec<u16>>)> = vec![
        (1, vec![vec![0], vec![1, 2]]),
        (5, vec![vec![0], vec![3]]),
        (10, vec![vec![0], vec![4, 5]]),
        (20, vec![vec![0], vec![6]]),
    ];
    let metas: Vec<AttackMeta> = (0..7u8).map(|k| meta(10 + k)).collect();
    let m = Monster::from_draws(String::from("Eevee"), values, &learnable, &metas);
    let ids: Vec<u16> = m.attacks().iter().map(|a| a.attack_type()).collect();
    assert_eq!(ids, vec![1, 3, 5, 4]);
    let limits: Vec<u8> = m.attacks().iter().map(|a| a.limit_left()).collect();
    assert_eq!(limits, vec![11, 13, 15, 14]);
    assert_eq!(m.health(), 33);
    assert_eq!(m.level(), 12);
    assert_eq!(m.form(), 1);
    assert_eq!(m.nick(), "Eevee");
    assert!(!m.recruited());
}
