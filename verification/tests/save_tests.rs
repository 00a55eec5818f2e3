use rusty_spire::git_push::exit_result;
use rusty_spire::git_push::ExitStatusError;
use rusty_spire::save::history::_default_build_id;
use rusty_spire::save::history::_max_potion_slot_count;
use rusty_spire::save::history::GameMode;
use rusty_spire::save::shared::BadgeRarity;
use rusty_spire::save::shared::Card;
use rusty_spire::save::shared::Enchantment;
use rusty_spire::save::shared::SavedProperty;
use rusty_spire::save::shared::ModelId;
use rusty_spire::save::shared::SavedProperties;
use rusty_spire::save::version::check_migration_step;
use rusty_spire::save::version::migrate_to_current;
use rusty_spire::save::version::Error;
use rusty_spire::save::version::Migrate;
use rusty_spire::save::version::MigrationError;
use rusty_spire::save::version::VersionedData;
use rusty_spire::serde_defaults::is_default;
use std::collections::HashMap;

#[test]
fn model_id_parses_exactly_one_dot() {
    let m = ModelId::parse("CARD.STRIKE_IRONCLAD").unwrap();
    assert_eq!(m.category, "CARD");
    assert_eq!(m.entry, "STRIKE_IRONCLAD");
    let empty = ModelId::parse(".").unwrap();
    assert_eq!(empty.category, "");
    assert_eq!(empty.entry, "");
    assert_eq!(ModelId::parse("NODOT"), Err("model id must contain exactly one dot"));
    assert_eq!(ModelId::parse("A.B.C"), Err("model id must contain exactly one dot"));
    assert_eq!(ModelId::parse(""), Err("model id must contain exactly one dot"));
    let unicode = ModelId::parse("ÄÖ.ü").unwrap();
    assert_eq!(unicode.category, "ÄÖ");
    assert_eq!(unicode.entry, "ü");
}

#[test]
fn model_id_from_str_matches_parse() {
    let m: ModelId = "RELIC.ANCHOR".parse().unwrap();
    assert_eq!(m, ModelId::parse("RELIC.ANCHOR").unwrap());
    assert!("x".parse::<ModelId>().is_err());
}

#[test]
fn model_id_round_trip() {
    let m = ModelId { category: "POTION".into(), entry: "FIRE_POTION".into() };
    let text = m.to_id_string();
    assert_eq!(text, "POTION.FIRE_POTION");
    assert_eq!(ModelId::parse(&text).unwrap(), m);
    let dotted = ModelId { category: "A.B".into(), entry: "C".into() };
    assert!(ModelId::parse(&dotted.to_id_string()).is_err());
}

#[test]
fn model_id_default_is_none_none() {
    let m = ModelId::default();
    assert_eq!(m.to_id_string(), "NONE.NONE");
}

#[test]
fn defaults_of_saved_fields() {
    assert_eq!(_default_build_id(), "pre-v0.42");
    assert_eq!(_max_potion_slot_count(), 3);
    assert_eq!(GameMode::default(), GameMode::Standard);
    assert!(SavedProperties::empty().is_empty());
    assert!(SavedProperties::default().is_empty());
    assert_ne!(BadgeRarity::NoRarity, BadgeRarity::Gold);
}

#[test]
fn is_default_compares_with_the_default() {
    assert!(is_default(&0i32));
    assert!(!is_default(&5i32));
    assert!(is_default(&Vec::<u8>::new()));
    assert!(!is_default(&vec![1u8]));
    assert!(is_default(&SavedProperties::default()));
    assert!(is_default(&None::<i32>));
}

struct Stepper;

impl Migrate for Stepper {
    const CURRENT_SCHEMA_VERSION: i32 = 3;

    fn migrate(mut data: VersionedData) -> Result<VersionedData, MigrationError> {
        data.schema_version += 1;
        data.data.insert(format!("v{}", data.schema_version), serde_json::Value::Bool(true));
        Ok(data)
    }
}

struct Stuck;

impl Migrate for Stuck {
    const CURRENT_SCHEMA_VERSION: i32 = 5;

    fn migrate(data: VersionedData) -> Result<VersionedData, MigrationError> {
        Ok(data)
    }
}

struct Overshoot;

impl Migrate for Overshoot {
    const CURRENT_SCHEMA_VERSION: i32 = 2;

    fn migrate(mut data: VersionedData) -> Result<VersionedData, MigrationError> {
        data.schema_version += 10;
        Ok(data)
    }
}

struct Current;

impl Migrate for Current {
    const CURRENT_SCHEMA_VERSION: i32 = 8;
}

fn data(version: i32) -> VersionedData {
    VersionedData { schema_version: version, data: HashMap::new() }
}

#[test]
fn migration_steps_up_to_the_current_version() {
    let d = migrate_to_current::<Stepper>(data(0)).unwrap();
    assert_eq!(d.schema_version, 3);
    assert_eq!(d.data.len(), 3);
    let same = migrate_to_current::<Stepper>(data(3)).unwrap();
    assert_eq!(same.schema_version, 3);
    assert!(same.data.is_empty());
}

#[test]
fn migration_errors() {
    match migrate_to_current::<Stepper>(data(4)) {
        Err(Error::SchemaVersionMismatch { expected, actual }) => {
            assert_eq!((expected, actual), (3, 4))
        }
        other => panic!("{other:?}"),
    }
    match migrate_to_current::<Stuck>(data(1)) {
        Err(Error::MigrationError(MigrationError::NoVersionIncrease { from, to })) => {
            assert_eq!((from, to), (1, 1))
        }
        other => panic!("{other:?}"),
    }
    match migrate_to_current::<Overshoot>(data(0)) {
        Err(Error::SchemaVersionMismatch { expected, actual }) => {
            assert_eq!((expected, actual), (2, 10))
        }
        other => panic!("{other:?}"),
    }
    match migrate_to_current::<Current>(data(7)) {
        Err(Error::MigrationError(MigrationError::NoVersionIncrease { from, to })) => {
            assert_eq!((from, to), (7, 7))
        }
        other => panic!("{other:?}"),
    }
    assert_eq!(migrate_to_current::<Current>(data(8)).unwrap().schema_version, 8);
}

#[test]
fn migration_step_check() {
    assert_eq!(check_migration_step(2, data(3)).unwrap().schema_version, 3);
    assert_eq!(
        check_migration_step(2, data(2)).unwrap_err(),
        MigrationError::NoVersionIncrease { from: 2, to: 2 }
    );
}

#[test]
fn exit_status_results() {
    assert!(exit_result(true, Some(0)).is_ok());
    let e = exit_result(false, Some(1)).unwrap_err();
    assert_eq!(e.code(), Some(1));
    assert_eq!(e.message(), "ExitStatusError: Some(1)");
    assert_eq!(ExitStatusError::new(None).message(), "ExitStatusError: None");
    assert_eq!(ExitStatusError::new(Some(-137)).message(), "ExitStatusError: Some(-137)");
    assert_eq!(
        ExitStatusError::new(Some(i32::MIN)).message(),
        format!("ExitStatusError: {:?}", Some(i32::MIN))
    );
}

fn id(s: &str) -> ModelId {
    ModelId::parse(s).unwrap()
}

#[test]
fn cloned_card_equals_the_original() {
    let mut inner = SavedProperties::empty();
    inner.ints.push(SavedProperty { name: "n".to_string(), value: 3 });
    let nested = Card {
        id: id("CARD.DEFEND"),
        upgrades: 0,
        enchantment: None,
        props: inner,
        floor_added: None,
    };
    let mut props = SavedProperties::empty();
    props.bools.push(SavedProperty { name: "b".to_string(), value: true });
    props.strings.push(SavedProperty { name: "s".to_string(), value: "x".to_string() });
    props.int_arrays.push(SavedProperty { name: "a".to_string(), value: vec![1, 2] });
    props.model_ids.push(SavedProperty { name: "m".to_string(), value: vec![id("RELIC.X")] });
    props.cards.push(SavedProperty { name: "c".to_string(), value: nested.clone() });
    props.card_arrays.push(SavedProperty { name: "cs".to_string(), value: vec![nested.clone(), nested] });
    let card = Card {
        id: id("CARD.STRIKE"),
        upgrades: 1,
        enchantment: Some(Enchantment { id: id("ENCHANTMENT.E"), amount: 2, props: SavedProperties::empty() }),
        props,
        floor_added: Some(7),
    };
    let copy = card.clone();
    assert_eq!(copy, card);
    assert_eq!(copy.props.clone(), card.props);
}

#[test]
fn from_str_reads_a_model_id() {
    let m: ModelId = "RELIC.ANCHOR".parse().unwrap();
    assert_eq!(m.category, "RELIC");
    assert_eq!(m.entry, "ANCHOR");
    assert!("RELIC".parse::<ModelId>().is_err());
}

#[test]
fn default_model_id_is_default() {
    assert!(is_default(&ModelId::default()));
    assert!(!is_default(&id("CARD.STRIKE")));
    assert!(is_default(&SavedProperties::empty()));
}

#[test]
fn saved_properties_compare_deeply() {
    let mut a = SavedProperties::default();
    a.int_arrays.push(SavedProperty { name: "a".to_string(), value: vec![1, 2] });
    let mut b = SavedProperties::default();
    b.int_arrays.push(SavedProperty { name: "a".to_string(), value: vec![1, 2] });
    assert!(a == b);
    b.int_arrays[0].value.push(3);
    assert!(a != b);
    assert!(!is_default(&a));
}
