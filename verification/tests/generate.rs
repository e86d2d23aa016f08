use mon_gen::build::attacks::{push_replace, Attack, AttackClassifiers, Target};
use mon_gen::build::elements::{Element, ElementFile};
use mon_gen::build::gender::{GenderClassifiers, IdNamePairRatio};
use mon_gen::build::locations::LocationClassifiers;
use mon_gen::build::monster::MonsterClassifiers;
use mon_gen::build::util::{
    gen_constants, gen_rust_enum, gen_rust_utf_literal, sequential, valid, write_disclaimer,
    write_indent, write_utf8_escaped, IdNamePair,
};
use mon_gen::build::{
    build_needed, generate, generate_group, identifier_checked, CodeGenerate, CodeGenerateGroup,
    Error, ParserErrorSpan, TomlParserError,
};

fn pair(id: u64, name: &str) -> IdNamePair {
    IdNamePair::new(id, name.to_string(), None)
}

fn syntax(r: Result<(), Error>) -> String {
    match r {
        Err(Error::SyntaxError(s)) => s,
        other => panic!("expected a syntax error, got {:?}", other),
    }
}

#[test]
fn util_identifiers() {
    assert!(valid("Fire"));
    assert!(valid("Type_2"));
    assert!(!valid("2Type"));
    assert!(!valid("_hidden"));
    assert!(!valid("Mr Mime"));
    assert!(!valid(""));
}

#[test]
fn util_writers() {
    let mut out = String::new();
    write_disclaimer(&mut out, "genders");
    assert_eq!(
        out,
        "//! Generated code for genders.\n// Edit at your own risk. Files may be modified by build script.\n\n"
    );
    let mut out = String::new();
    write_indent(&mut out, 3);
    assert_eq!(out, "\t\t\t");
    let mut out = String::new();
    write_utf8_escaped(&mut out, "Poké");
    assert_eq!(out, "b\"Pok\\xc3\\xa9\\0\"");
    let mut out = String::new();
    write_utf8_escaped(&mut out, "a\"b\\");
    assert_eq!(out, "b\"a\\\"b\\\\\\0\"");
}

#[test]
fn util_sequential() {
    assert!(sequential(&[pair(1, "B"), pair(0, "A")], 255).is_ok());
    assert_eq!(syntax(sequential(&[pair(0, "A"), pair(2, "C")], 255)), "Invalid or missing index `1`.");
    assert_eq!(syntax(sequential(&[pair(0, "A"), pair(1, "B"), pair(2, "C")], 2)), "Invalid or missing index `0`.");
}

#[test]
fn util_enum_and_constants() {
    let ids = [pair(0, "Male"), pair(1, "Female")];
    let mut out = String::new();
    assert!(gen_rust_enum(&mut out, "Gender", "u8", &ids).is_ok());
    assert_eq!(
        out,
        "#[repr(u8)]\n#[derive(Debug, Eq, PartialEq, Ord, PartialOrd, Copy, Clone)]\npub enum Gender\n{\n\tMale = 0,\n\tFemale = 1,\n}\n\n"
    );
    let mut out = String::new();
    assert!(gen_constants(&mut out, "GENDER", &ids).is_ok());
    assert_eq!(out, "MON_GENDER_MALE=0\nMON_GENDER_FEMALE=1\n");
    let mut out = String::new();
    gen_rust_utf_literal(&mut out, &[pair(1, "B"), pair(0, "A")], 1);
    assert_eq!(out, "\tb\"A\\0\",\n\tb\"B\\0\",\n");
}

#[test]
fn gender_ratio_parse() {
    let r = |s: &str| IdNamePairRatio::new(0, "R".to_string(), None, s.to_string()).get_ratio();
    assert_eq!(r("1:7"), Some(vec![1, 7]));
    assert_eq!(r("+3"), Some(vec![3]));
    assert_eq!(r("1:x"), None);
    assert_eq!(r(""), None);
    assert_eq!(r("1::2"), None);
}

#[test]
fn gender_classifiers_code() {
    let classifiers = GenderClassifiers {
        genders: vec![pair(0, "Male"), pair(1, "Female")],
        gender_ratios: vec![IdNamePairRatio::new(0, "Half".to_string(), None, "1:1".to_string())],
    };
    assert!(classifiers.is_valid().is_ok());
    let mut out = String::new();
    assert!(classifiers.gen_rust(&mut out).is_ok());
    assert!(out.starts_with("//! Generated code for genders classifiers.\n"));
    assert!(out.ends_with(
        "\nimpl Gender\n{\n\tpub fn rand<R: Rng>(rng: &mut R, ratio: GenderRatio) -> Self\n\t{\n\t\tmatch ratio\n\t\t{\n\t\t\tGenderRatio::Half => rng.choose(&[Gender::Male,Gender::Female,]).unwrap().clone(),\n\t\t}\n\t}\n}\n"
    ));
    let mut out = String::new();
    assert!(classifiers.gen_constants(&mut out).is_ok());
    assert_eq!(out, "MON_GENDER_MALE=0\nMON_GENDER_FEMALE=1\nMON_GENDER_RATIO_HALF=0\n");

    let bad = GenderClassifiers {
        genders: vec![pair(0, "Male")],
        gender_ratios: vec![IdNamePairRatio::new(0, "Odd".to_string(), None, "1:a".to_string())],
    };
    let mut out = String::new();
    assert_eq!(syntax(bad.gen_rust(&mut out)), "Invalid ratio syntax");
}

fn element(id: u8, name: &str, weak: &[&str], resist: &[&str], immune: &[&str]) -> Element {
    let v = |s: &[&str]| s.iter().map(|x| x.to_string()).collect::<Vec<String>>();
    Element::new(id, name.to_string(), None, v(weak), v(resist), v(immune))
}

#[test]
fn elements_code() {
    let file = ElementFile {
        element: vec![
            element(0, "Water", &["Grass"], &["Water"], &[]),
            element(1, "Grass", &["Water"], &["Water"], &[]),
        ],
    };
    assert!(file.is_valid().is_ok());
    let mut out = String::new();
    assert!(file.gen_rust(&mut out).is_ok());
    let expected_tail = "\t\tconst EFFECTS: [EffectType; 4] = [\n\
\t\t\t// Water\n\
\t\t\t0.5 as EffectType, // Water\n\
\t\t\t0.5 as EffectType, // Grass\n\
\t\t\t// Grass\n\
\t\t\t2 as EffectType, // Water\n\
\t\t\t1 as EffectType, // Grass\n\
\t\t];\n\
\t\tEFFECTS[((*self as usize) * Element::count() as usize + (against as usize))]\n\t}\n}\n";
    assert!(out.ends_with(expected_tail), "{}", out);
    assert!(out.contains("\tpub const fn count() -> Id\n\t{\n\t\t2\n\t}\n"));
    assert!(out.contains("const NAMES: [&'static [u8]; 2] = [\n\t\t\tb\"Water\\0\",\n\t\t\tb\"Grass\\0\",\n\t\t];"));
    assert!(out.contains("IterVariants!\n{\n\t(ElementVariants) pub enum Element\n\t{\n\t\tWater = 0,\n\t\tGrass = 1,\n\t}\n}\n"));

    let bad = ElementFile {
        element: vec![element(0, "Water", &["Grass"], &[], &[]), element(1, "Fire", &[], &["Ice"], &[])],
    };
    let mut out = String::new();
    assert_eq!(syntax(bad.gen_rust(&mut out)), "Unable to find element weakness 'Grass' from 'Water'");
    assert_eq!(out, "");
    let bad = ElementFile { element: vec![element(0, "Fire", &[], &["Ice"], &[])] };
    assert_eq!(syntax(bad.gen_rust(&mut out)), "Unable to find element resistance 'Ice' from 'Fire'");
    let bad = ElementFile { element: vec![element(0, "Fire", &[], &[], &["Ice"])] };
    assert_eq!(syntax(bad.gen_rust(&mut out)), "Unable to find element immunity 'Ice' from 'Fire'");
}

#[test]
fn elements_immunity_wins() {
    let file = ElementFile {
        element: vec![element(0, "Ghost", &["Ghost"], &["Ghost"], &["Ghost"])],
    };
    let mut out = String::new();
    assert!(file.gen_rust(&mut out).is_ok());
    assert!(out.contains("\t\t\t// Ghost\n\t\t\t0 as EffectType, // Ghost\n"));
}

fn attack(id: u16, name: &str, side: &str, range: &str, effect: Option<&str>) -> Attack {
    Attack::new(
        id,
        name.to_string(),
        None,
        "A test.".to_string(),
        "Normal".to_string(),
        "Physical".to_string(),
        40,
        "1".to_string(),
        35,
        -1,
        Target::new(side.to_string(), range.to_string(), true, false),
        effect.map(|e| e.to_string()),
    )
}

#[test]
fn attacks_replace() {
    let mut out = String::new();
    push_replace(&mut out, "miss_or(data, |data| { damage(data) })", "data", "x, y");
    assert_eq!(out, "miss_or(x, y, |x, y| { damage(x, y) })");
    let mut out = String::new();
    push_replace(&mut out, "dddata", "data", "-");
    assert_eq!(out, "dd-");
}

#[test]
fn attacks_validity() {
    assert!(Attack::is_valid(&[attack(0, "Tackle", "Enemy", "Adjacent", None)]).is_ok());
    assert_eq!(
        syntax(Attack::is_valid(&[attack(0, "Tackle", "Foe", "Adjacent", None)])),
        "Invalid attribute 'side' for attack 'Tackle'"
    );
    assert_eq!(
        syntax(Attack::is_valid(&[attack(0, "Tackle", "All", "Far", None)])),
        "Invalid attribute 'range' for attack 'Tackle'"
    );
    assert_eq!(
        syntax(Attack::is_valid(&[attack(1, "Tackle", "All", "All", None)])),
        "Invalid or missing index `0`."
    );
    let t = Target::default();
    assert_eq!(format!("{:?}", t).contains("Enemy"), true);
}

#[test]
fn attacks_code() {
    let group = [attack(0, "Tackle", "Enemy", "Adjacent", None), attack(1, "Growl", "Ally", "All", Some("lower(data)"))];
    let mut out = String::new();
    assert!(Attack::gen_rust_group(&group, &mut out).is_ok());
    assert!(out.starts_with("//! Generated code for `AttackMeta`.\n"));
    assert!(out.contains("\t\t\tAttackType::Tackle => miss_or(effects, command, party, state, rng, |effects, command, party, state, rng| { damage(effects, command, party, state, rng) }),\n\t\t\tAttackType::Growl => lower(effects, command, party, state, rng),\n\t\t}\n"));
    assert!(out.contains("\tAttackMeta\n\t{\n\t\tname: b\"Tackle\\0\",\n\t\tdescription: b\"A test.\\0\",\n\t\telement: Element::Normal,\n\t\tcategory: Category::Physical,\n\t\tpower: 40,\n\t\taccuracy: 1 as AccuracyType,\n\t\tlimit: 35,\n\t\tpriority: -1,\n\t\ttarget: Target::SIDE_ENEMY | Target::RANGE_ADJACENT| Target::TARGET_SELF,\n\t},\n"));
    assert!(out.ends_with("\t},\n];\n"));
    let mut out = String::new();
    assert!(Attack::gen_constants_group(&group, &mut out).is_ok());
    assert_eq!(out, "MON_ATTACK_TACKLE=0\nMON_ATTACK_GROWL=1\n");
}

#[test]
fn classifiers_code() {
    let attack = AttackClassifiers { categories: vec![pair(0, "Physical"), pair(1, "Special")] };
    let mut out = String::new();
    assert!(attack.gen_rust(&mut out).is_ok());
    assert!(out.ends_with("pub enum Category\n{\n\tPhysical = 0,\n\tSpecial = 1,\n}\n\n"));
    let locations = LocationClassifiers { locations: vec![pair(0, "Town")], sub_locations: vec![pair(1, "Cave")] };
    assert_eq!(syntax(locations.is_valid()), "Invalid or missing index `0`.");
    let mut out = String::new();
    assert!(locations.gen_constants(&mut out).is_ok());
    assert_eq!(out, "MON_LOCATION_TOWN=0\nMON_SUBLOCATION_CAVE=1\n");
    let monster = MonsterClassifiers { natures: vec![pair(0, "Bold"), pair(1, "Calm")], recruit_methods: vec![pair(0, "Caught")] };
    let mut out = String::new();
    assert!(monster.gen_rust(&mut out).is_ok());
    assert!(out.contains("\t\t*rng.choose(&[\n\t\t\tNature::Bold,\n\t\t\tNature::Calm,\n\t\t]).unwrap()\n\t}\n}\n#[repr(u8)]"));
}

#[test]
fn build_error_messages() {
    assert_eq!(Error::SyntaxError("bad".to_string()).message(), "Syntax error: bad\n");
    assert_eq!(Error::IoError("gone".to_string()).message(), "IO error: gone\n");
    assert_eq!(
        Error::TomlError(vec![]).message(),
        "Error parsing TOML:\n - Unknown error. Required field are missing or invalid.\n"
    );
}

#[test]
fn build_needed_on_change_or_request() {
    assert!(!build_needed(false, 100, 100));
    assert!(build_needed(false, 100, 101));
    assert!(build_needed(true, 100, 100));
}

#[test]
fn toml_errors_count_lines_from_one() {
    let spans = vec![
        ParserErrorSpan { desc: "expected `=`".to_string(), start_line: 0, start_col: 4, end_line: 2, end_col: 7 },
    ];
    let errors = TomlParserError::from_parser(&spans, &"genders.toml".to_string());
    assert_eq!(errors.len(), 1);
    assert_eq!(errors[0].filename, "genders.toml");
    assert_eq!(errors[0].desc, "expected `=`");
    assert_eq!((errors[0].start_line, errors[0].start_col), (1, 4));
    assert_eq!((errors[0].end_line, errors[0].end_col), (3, 7));
    assert_eq!(
        Error::TomlError(errors).message(),
        "Error parsing TOML:\n - At file `genders.toml`: \"expected `=`\" at line 1, col 4 - line 3, col 7\n"
    );
}

#[test]
fn identifier_checked_names_the_file() {
    assert!(identifier_checked(&pair(0, "Fire"), "fire.toml").is_ok());
    assert!(identifier_checked(&IdNamePair::new(0, "Mr. Mime".to_string(), Some("MrMime".to_string())), "a.toml").is_ok());
    assert_eq!(
        syntax(identifier_checked(&pair(0, "Mr. Mime"), "mime.toml")),
        "Invalid resource identifier for file `mime.toml`: `Mr. Mime`"
    );
}

#[test]
fn generate_stops_at_first_error() {
    let locations = LocationClassifiers { locations: vec![pair(0, "Town")], sub_locations: vec![pair(0, "Cave")] };
    let (mut rust, mut constants) = (String::new(), String::new());
    assert!(generate(&locations, &mut rust, &mut constants).is_ok());
    assert!(rust.contains("pub enum SubLocation\n{\n\tCave = 0,\n}"));
    assert_eq!(constants, "MON_LOCATION_TOWN=0\nMON_SUBLOCATION_CAVE=0\n");

    let broken = LocationClassifiers { locations: vec![pair(1, "Town")], sub_locations: vec![] };
    let (mut rust, mut constants) = (String::new(), String::new());
    assert_eq!(syntax(generate(&broken, &mut rust, &mut constants)), "Invalid or missing index `0`.");
    assert!(rust.is_empty() && constants.is_empty());
}

#[test]
fn generate_group_of_attacks() {
    let group = vec![attack(0, "Tackle", "Enemy", "Adjacent", None)];
    let (mut rust, mut constants) = (String::new(), String::new());
    assert!(generate_group(&group, &mut rust, &mut constants).is_ok());
    assert!(rust.contains("Tackle"));
    assert!(constants.contains("TACKLE"));
    let gap = vec![attack(1, "Tackle", "Enemy", "Adjacent", None)];
    let (mut rust, mut constants) = (String::new(), String::new());
    assert_eq!(syntax(generate_group(&gap, &mut rust, &mut constants)), "Invalid or missing index `0`.");
    assert!(rust.is_empty() && constants.is_empty());
}

#[test]
fn gender_ratios_fit_known_genders() {
    let ratio = |s: &str| IdNamePairRatio::new(0, "R".to_string(), None, s.to_string());
    let fits = GenderClassifiers {
        genders: vec![pair(0, "Male"), pair(1, "Female")],
        gender_ratios: vec![ratio("1:1"), ratio("0:0:0"), ratio("bad")],
    };
    assert!(fits.ratios_fit());
    let unknown = GenderClassifiers {
        genders: vec![pair(0, "Male"), pair(1, "Female")],
        gender_ratios: vec![ratio("1:1"), ratio("0:0:2")],
    };
    assert!(!unknown.ratios_fit());
}
