use event_filter::config::{ConfigError, FilterConfig};
use event_filter::value::{ConfigValue, ValueTag};

fn text(s: &str) -> ConfigValue {
    ConfigValue::Text(s.to_string())
}

#[test]
fn parses_kind_and_keeps_residue() {
    let block = ConfigValue::Table(vec![
        (text("kind"), text("threshold")),
        (text("level"), text("warn")),
    ]);
    let rec = FilterConfig::deserialize(block).unwrap();
    assert_eq!(rec.kind, "threshold");
    assert_eq!(
        rec.config,
        ConfigValue::Table(vec![(text("level"), text("warn"))])
    );
}

#[test]
fn missing_kind_fails() {
    let block = ConfigValue::Table(vec![(text("level"), text("warn"))]);
    let err = FilterConfig::deserialize(block).unwrap_err();
    assert_eq!(err, ConfigError::MissingKind);
    assert_eq!(err.message(), "missing field: kind");
}

#[test]
fn non_text_kind_is_a_type_error() {
    let block = ConfigValue::Table(vec![
        (text("kind"), ConfigValue::U64(3)),
        (text("level"), text("warn")),
    ]);
    let err = FilterConfig::deserialize(block).unwrap_err();
    assert_eq!(err, ConfigError::KindNotText(ValueTag::U64));
    assert_eq!(err.message(), "invalid type: string expected for field: kind");
}

#[test]
fn non_table_declaration_fails() {
    let err = FilterConfig::deserialize(text("threshold")).unwrap_err();
    assert_eq!(err, ConfigError::NotATable(ValueTag::Text));
    assert_eq!(err.message(), "invalid type: map expected");
}

#[test]
fn empty_table_is_missing_kind() {
    let err = FilterConfig::deserialize(ConfigValue::Table(vec![])).unwrap_err();
    assert_eq!(err, ConfigError::MissingKind);
}

#[test]
fn kind_only_leaves_empty_residue() {
    let block = ConfigValue::Table(vec![(text("kind"), text("threshold"))]);
    let rec = FilterConfig::deserialize(block).unwrap();
    assert_eq!(rec.kind, "threshold");
    assert_eq!(rec.config, ConfigValue::Table(vec![]));
}

#[test]
fn first_kind_entry_wins_and_all_are_removed() {
    let block = ConfigValue::Table(vec![(text("kind"), text("a")), (text("kind"), text("b"))]);
    let rec = FilterConfig::deserialize(block).unwrap();
    assert_eq!(rec.kind, "a");
    assert_eq!(rec.config, ConfigValue::Table(vec![]));
}

#[test]
fn residue_keeps_nested_values_unchanged() {
    let nested = ConfigValue::Table(vec![(text("limit"), ConfigValue::I64(-7))]);
    let listed = ConfigValue::List(vec![ConfigValue::Bool(true), ConfigValue::Unit]);
    let block = ConfigValue::Table(vec![
        (text("inner"), nested),
        (text("kind"), text("threshold")),
        (text("flags"), listed),
    ]);
    let rec = FilterConfig::deserialize(block).unwrap();
    let expected_nested = ConfigValue::Table(vec![(text("limit"), ConfigValue::I64(-7))]);
    let expected_listed = ConfigValue::List(vec![ConfigValue::Bool(true), ConfigValue::Unit]);
    assert_eq!(
        rec.config,
        ConfigValue::Table(vec![
            (text("inner"), expected_nested),
            (text("flags"), expected_listed),
        ])
    );
}

/// The concrete configuration the stub registry below expects for the
/// `threshold` kind.
#[derive(Debug, PartialEq)]
struct ThresholdConfig {
    level: String,
}

fn threshold_from_value(v: &ConfigValue) -> Result<ThresholdConfig, String> {
    let entries = match v {
        ConfigValue::Table(es) => es,
        _ => return Err("map expected".to_string()),
    };
    let mut level = None;
    for (key, val) in entries {
        match (key, val) {
            (ConfigValue::Text(k), ConfigValue::Text(v)) if k == "level" => {
                level = Some(v.clone());
            }
            _ => return Err("unexpected field".to_string()),
        }
    }
    match level {
        Some(level) => Ok(ThresholdConfig { level }),
        None => Err("missing field: level".to_string()),
    }
}

/// A stub registry: resolves a kind to the conversion its concrete filter
/// type uses for the residual configuration.
fn registry(kind: &str, config: &ConfigValue) -> Result<ThresholdConfig, String> {
    match kind {
        "threshold" => threshold_from_value(config),
        _ => Err(format!("no such kind: {}", kind)),
    }
}

#[test]
fn residue_round_trips_through_registry() {
    let block = ConfigValue::Table(vec![
        (text("kind"), text("threshold")),
        (text("level"), text("warn")),
    ]);
    let rec = FilterConfig::deserialize(block).unwrap();
    let concrete = registry(&rec.kind, &rec.config).unwrap();
    assert_eq!(
        concrete,
        ThresholdConfig {
            level: "warn".to_string()
        }
    );
}

#[test]
fn unknown_kind_is_the_registry_call_failing() {
    let block = ConfigValue::Table(vec![(text("kind"), text("nonesuch"))]);
    let rec = FilterConfig::deserialize(block).unwrap();
    assert_eq!(
        registry(&rec.kind, &rec.config),
        Err("no such kind: nonesuch".to_string())
    );
}

#[test]
fn equality_is_structural() {
    assert_eq!(text("a"), text("a"));
    assert_ne!(text("a"), text("b"));
    assert_ne!(ConfigValue::U64(1), ConfigValue::I64(1));
    assert_ne!(ConfigValue::Unit, ConfigValue::Table(vec![]));
    let t1 = ConfigValue::Table(vec![(text("k"), ConfigValue::List(vec![ConfigValue::Bool(true)]))]);
    let t2 = ConfigValue::Table(vec![(text("k"), ConfigValue::List(vec![ConfigValue::Bool(true)]))]);
    let t3 = ConfigValue::Table(vec![(text("k"), ConfigValue::List(vec![ConfigValue::Bool(false)]))]);
    assert_eq!(t1, t2);
    assert_ne!(t1, t3);
    assert_ne!(t1, ConfigValue::Table(vec![]));
}

#[test]
fn tags_report_shape() {
    assert_eq!(ConfigValue::U64(5).tag(), ValueTag::U64);
    assert_eq!(ConfigValue::Bool(false).tag(), ValueTag::Bool);
    assert_eq!(ConfigValue::Unit.tag(), ValueTag::Unit);
    assert_eq!(ConfigValue::List(vec![]).tag(), ValueTag::List);
    assert_eq!(ConfigValue::Table(vec![]).tag(), ValueTag::Table);
}
