use mon_gen::build::species::{
    Species, SpeciesAbilities, SpeciesAttacks, SpeciesAttacksList, SpeciesClassifiers,
    SpeciesFormAttack, SpeciesFormChange, SpeciesFormValue, SpeciesLearnableAttack,
    SpeciesStatistics, SpeciesStatisticsGroup, SpeciesStatisticsValue,
};
use mon_gen::build::util::IdNamePair;
use mon_gen::build::{CodeGenerate, CodeGenerateGroup, Error};

fn strings(s: &[&str]) -> Vec<String> {
    s.iter().map(|x| x.to_string()).collect()
}

fn group<T: Clone>(form: &str, v: T) -> SpeciesStatisticsGroup<T> {
    SpeciesStatisticsGroup {
        form: form.to_string(),
        health: v.clone(),
        attack: v.clone(),
        defense: v.clone(),
        sp_attack: v.clone(),
        sp_defense: v.clone(),
        speed: v,
    }
}

fn learnable(level: u8, attacks: &[&str]) -> SpeciesLearnableAttack {
    SpeciesLearnableAttack { level, attacks: SpeciesAttacks::Attacks(strings(attacks)) }
}

fn deoxys() -> Species {
    Species {
        name: "Deoxys".to_string(),
        internal: None,
        id: 0,
        description: "DNA".to_string(),
        kind: "DNA".to_string(),
        forms: vec![],
        elements: SpeciesFormChange::NoChange(strings(&["Psychic"])),
        experience: 270,
        height: SpeciesFormChange::NoChange("1.7".to_string()),
        weight: SpeciesFormChange::NoChange("60.8".to_string()),
        rareness: 3,
        friendship: 0,
        hatch: 120,
        groups: strings(&["Undiscovered"]),
        gender: "Genderless".to_string(),
        growth: "Slow".to_string(),
        color: "Red".to_string(),
        habitat: "Rare".to_string(),
        evolutions: vec![],
        abilities: SpeciesAbilities { default: strings(&["Pressure"]), hidden: vec![] },
        statistics: SpeciesStatistics {
            base: SpeciesStatisticsValue::NoChange(group("", 50)),
            ev_yield: SpeciesStatisticsValue::NoChange(group("", None)),
        },
        attacks: SpeciesAttacksList {
            learnable: vec![learnable(7, &["Wrap"]), learnable(1, &["Leer", "Tackle"])],
            inheritable: vec![],
        },
    }
}

fn syntax(r: Result<(), Error>) -> String {
    match r {
        Err(Error::SyntaxError(s)) => s,
        other => panic!("expected a syntax error, got {:?}", other),
    }
}

#[test]
fn species_entry_without_forms() {
    let mut out = String::new();
    assert!(Species::gen_rust_group(&[deoxys()], &mut out).is_ok());
    let entry = "\tSpecies\n\t{\n\t\tname: b\"Deoxys\\0\",\n\t\tdescription: b\"DNA\\0\",\n\t\tkind: b\"DNA\\0\",\n\
\t\tgender: GenderRatio::Genderless,\n\t\tgrowth: Growth::Slow,\n\t\tcolor: Color::Red,\n\t\thabitat: Habitat::Rare,\n\
\t\trareness: 3,\n\t\tfriendship: 0,\n\t\thatch: 120,\n\t\texperience_yield: 270,\n\
\t\tforms: &[b\"Normal Forme\0\"\n],\n\
\t\telements: &[&[Element::Psychic, ], ],\n\
\t\tgroups: &[Group::Undiscovered, ],\n\
\t\theight: &[1.7 as MetricType, ],\n\
\t\tweight: &[60.8 as MetricType, ],\n\
\t\tbase_health: &[50, ],\n\t\tbase_attack: &[50, ],\n\t\tbase_defense: &[50, ],\n\
\t\tbase_spattack: &[50, ],\n\t\tbase_spdefense: &[50, ],\n\t\tbase_speed: &[50, ],\n\
\t\tyield_health: &[0, ],\n\t\tyield_attack: &[0, ],\n\t\tyield_defense: &[0, ],\n\
\t\tyield_spattack: &[0, ],\n\t\tyield_spdefense: &[0, ],\n\t\tyield_speed: &[0, ],\n\
\t\tattacks_learnable: &[(1, &[&[AttackType::Leer, AttackType::Tackle, ]]), (7, &[&[AttackType::Wrap, ]]), ],\n\
\t},\n";
    assert!(out.contains(entry), "{}", out);
    assert!(out.contains("];\n\npub mod form\n{\n}\n\n// Validate that every species has properties for each of their forms.\n"));
    let mut out = String::new();
    assert!(Species::gen_constants_group(&[deoxys()], &mut out).is_ok());
    assert_eq!(out, "MON_SPECIES_DEOXYS=0\n");
}

#[test]
fn species_entry_with_forms() {
    let mut sp = deoxys();
    sp.forms = vec![
        IdNamePair::new(1, "Attack Forme".to_string(), Some("Attack".to_string())),
        IdNamePair::new(0, "Normal Forme".to_string(), Some("Normal".to_string())),
    ];
    sp.height = SpeciesFormChange::Change(vec![
        SpeciesFormValue { form: "Attack".to_string(), value: "1.7".to_string() },
        SpeciesFormValue { form: "Normal".to_string(), value: "1.6".to_string() },
    ]);
    sp.statistics.base = SpeciesStatisticsValue::FormChange(vec![group("Normal", 50), group("Attack", 180)]);
    sp.attacks.learnable.push(SpeciesLearnableAttack {
        level: 9,
        attacks: SpeciesAttacks::FormAttacks(vec![
            SpeciesFormAttack { form: Some("Attack".to_string()), attacks: strings(&["Taunt"]) },
            SpeciesFormAttack { form: None, attacks: strings(&["Pursuit"]) },
        ]),
    });
    let mut out = String::new();
    assert!(Species::gen_rust_group(&[sp.clone()], &mut out).is_ok(), "{:?}", out);
    assert!(out.contains("\t\tforms: &[b\"Normal Forme\\0\", b\"Attack Forme\\0\", ],\n"));
    assert!(out.contains("\t\telements: &[&[Element::Psychic, ], &[Element::Psychic, ], ],\n"));
    assert!(out.contains("\t\theight: &[1.6 as MetricType, 1.7 as MetricType, ],\n"));
    assert!(out.contains("\t\tbase_attack: &[50, 180, ],\n"));
    assert!(out.contains("(9, &[&[AttackType::Pursuit, ], &[AttackType::Taunt, ], ], ), ],\n"));
    assert!(out.contains("pub mod form\n{\n\t#[repr(u8)]\n\t#[derive(Debug, Eq, PartialEq, Ord, PartialOrd, Copy, Clone)]\n\tpub enum DeoxysForm\n\t{\n\t\tAttack = 1,\n\t\tNormal = 0,\n\t}\n\n}\n"));
    let mut out = String::new();
    assert!(Species::gen_constants_group(&[sp.clone()], &mut out).is_ok());
    assert_eq!(out, "MON_SPECIES_DEOXYS=0\nMON_SPECIES_DEOXYS_FORM_ATTACK=1\nMON_SPECIES_DEOXYS_FORM_NORMAL=0\n");

    let mut bad = sp.clone();
    bad.height = SpeciesFormChange::Change(vec![SpeciesFormValue { form: "Speed".to_string(), value: "1".to_string() }]);
    let mut out = String::new();
    assert_eq!(
        syntax(Species::gen_rust_group(&[bad], &mut out)),
        "Unknown form `Speed` in attribute `height` for `Deoxys`."
    );
    let mut bad = sp.clone();
    bad.height = SpeciesFormChange::Change(vec![
        SpeciesFormValue { form: "Attack".to_string(), value: "1".to_string() },
        SpeciesFormValue { form: "Attack".to_string(), value: "2".to_string() },
    ]);
    let mut out = String::new();
    assert_eq!(
        syntax(Species::gen_rust_group(&[bad], &mut out)),
        "Missing value for form `Normal Forme` in attribute `height` for `Deoxys`."
    );
    let mut bad = sp.clone();
    bad.statistics.base = SpeciesStatisticsValue::FormChange(vec![group("Normal", 50), group("Speed", 1)]);
    let mut out = String::new();
    assert_eq!(
        syntax(Species::gen_rust_group(&[bad], &mut out)),
        "Unknown form `Speed` in attribute `` for `statistics.base`."
    );
    let mut bad = sp.clone();
    bad.attacks.learnable.push(SpeciesLearnableAttack {
        level: 20,
        attacks: SpeciesAttacks::FormAttacks(vec![
            SpeciesFormAttack { form: None, attacks: vec![] },
            SpeciesFormAttack { form: None, attacks: vec![] },
        ]),
    });
    let mut out = String::new();
    assert_eq!(
        syntax(Species::gen_rust_group(&[bad], &mut out)),
        "Only 1 default attack list is allowed at level 20 for `Deoxys`."
    );
    let mut bad = sp.clone();
    bad.attacks.learnable.push(SpeciesLearnableAttack {
        level: 21,
        attacks: SpeciesAttacks::FormAttacks(vec![SpeciesFormAttack { form: Some("Speed".to_string()), attacks: vec![] }]),
    });
    let mut out = String::new();
    assert_eq!(
        syntax(Species::gen_rust_group(&[bad], &mut out)),
        "Invalid form `Speed` at level 21 for `Deoxys`."
    );
}

#[test]
fn species_validity() {
    assert!(Species::is_valid(&[deoxys()]).is_ok());
    let mut sp = deoxys();
    sp.attacks.learnable = vec![learnable(5, &["Wrap"])];
    assert_eq!(
        syntax(Species::is_valid(&[sp])),
        "Invalid learnable attacks for species `Deoxys`.\n\t\t\t\t\tMust have an attack learnable at level 1."
    );
    let mut sp = deoxys();
    sp.id = 1;
    assert_eq!(syntax(Species::is_valid(&[sp])), "Invalid or missing index `0`.");
}

#[test]
fn species_classifiers_code() {
    let pair = |id: u64, name: &str| IdNamePair::new(id, name.to_string(), None);
    let c = SpeciesClassifiers {
        growth: vec![pair(0, "Slow")],
        groups: vec![pair(0, "Monster")],
        colors: vec![pair(0, "Red")],
        habitats: vec![pair(0, "Cave")],
    };
    assert!(c.is_valid().is_ok());
    let mut out = String::new();
    assert!(c.gen_constants(&mut out).is_ok());
    assert_eq!(out, "MON_GROWTH_SLOW=0\nMON_GROUP_MONSTER=0\nMON_COLOR_RED=0\nMON_HABITAT_CAVE=0\n");
    let mut out = String::new();
    assert!(c.gen_rust(&mut out).is_ok());
    assert!(out.starts_with("//! Generated code for species classifiers.\n"));
    assert!(out.ends_with("pub enum Habitat\n{\n\tCave = 0,\n}\n\n"));
}
