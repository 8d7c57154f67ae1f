//! Sweeps over hyperparameters.
use aq_engine::hyper_config::{
    hyper_bool, hyper_int, hyper_number, hyper_string, hyper_values, range_request, HyperParameter,
    HyperParameterConfig, ProcessRuns,
};
use aq_engine::hyperparameters::{HyperParameterRunIter, HyperParameterSelection};
use aq_engine::json::{Json, JsonNumber};
use aq_engine::number::Number;
use dashmap::DashMap;
use serde_json::Value;
use sha2::{Digest, Sha256};

fn whole(n: u64) -> Json {
    Json::Number(JsonNumber::Unsigned(n))
}

fn decimal(x: f64) -> Json {
    Json::Number(JsonNumber::Real(Number { bits: x.to_bits() }, format!("{:?}", x)))
}

fn json_of(value: &Value) -> Json {
    match value {
        Value::Null => Json::Null,
        Value::Bool(b) => Json::Bool(*b),
        Value::Number(n) => Json::Number(match (n.as_u64(), n.as_i64()) {
            (Some(u), _) => JsonNumber::Unsigned(u),
            (None, Some(i)) => JsonNumber::Signed(i),
            _ => {
                let x = n.as_f64().unwrap();
                JsonNumber::Real(Number { bits: x.to_bits() }, n.to_string())
            }
        }),
        Value::String(s) => Json::Text(s.clone()),
        Value::Array(items) => Json::Array(items.iter().map(json_of).collect()),
        Value::Object(members) => {
            Json::Object(members.iter().map(|(k, v)| (k.clone(), json_of(v))).collect())
        }
    }
}

fn count(mut runs: HyperParameterRunIter) -> usize {
    let mut n = 0;
    while runs.next().is_some() {
        n += 1;
    }
    n
}

fn two_periods() -> HyperParameterConfig {
    let mut config = HyperParameterConfig::new();
    config
        .add_hyper_parameter(
            &HyperParameter::new("period".to_string(), whole(14)).values(vec![whole(7), whole(14)]),
        )
        .unwrap();
    config
}

fn no_ranges(n: usize) -> Vec<Vec<Json>> {
    (0..n).map(|_| Vec::new()).collect()
}

#[test]
fn parses_and_validates_a_compact_selected_payload() {
    let mut map = std::collections::BTreeMap::new();
    map.insert("period", Value::from(14));
    let seed = format!("{:x}", Sha256::digest(serde_json::to_vec(&map).unwrap()));
    let mut values = serde_json::Map::new();
    values.insert("period".to_string(), Value::from(14));
    let mut payload = serde_json::Map::new();
    payload.insert("seed".to_string(), Value::from(seed));
    payload.insert("values".to_string(), Value::Object(values));
    let payload = Value::Object(payload).to_string();

    let found = HyperParameterSelection::payload_from_process_args(&vec![
        "--hyper-params-json".to_string(),
        payload,
    ])
    .unwrap();
    let parsed: Value = serde_json::from_str(&found).unwrap();
    let selection = HyperParameterSelection {
        seed: parsed["seed"].as_str().unwrap().to_string(),
        values: json_of(&parsed["values"]),
    };
    selection.validate().unwrap();
    assert_eq!(selection.values.get("period").unwrap().as_int(), Some(14));
}

#[test]
fn iterates_domains_lazily_for_a_sweep() {
    let config = HyperParameterConfig {
        sweep_id: "sweep".into(),
        strategy_fingerprint: "sweep".into(),
        source_targets: Json::Null,
        definitions: Json::Array(vec![Json::Object(vec![
            ("name".to_string(), Json::Text("period".to_string())),
            ("valueType".to_string(), Json::Text("int".to_string())),
            ("values".to_string(), Json::Array(vec![whole(7), whole(14)])),
        ])]),
    };
    assert_eq!(count(config.iter_runs(&no_ranges(1)).unwrap()), 2);
}

#[test]
fn code_first_config_resolves_public_seed_flags_without_a_payload() {
    let mut config = two_periods();
    let mut runs = config.iter_runs(&no_ranges(1)).unwrap();
    let mut seed = String::new();
    while let Some(run) = runs.next() {
        seed = run.seed;
    }
    let selection = config
        .selection_from_process_args(
            &vec!["--hyper-seed".to_string(), seed.clone()],
            None,
            &no_ranges(1),
        )
        .unwrap()
        .unwrap();
    assert_eq!(selection.seed, seed);
    assert_eq!(selection.values.get("period").unwrap().as_int(), Some(14));
    let mut runs =
        config.process_runs(&vec!["--hyper-sweep".to_string()], None, &no_ranges(1)).unwrap();
    let mut n = 0;
    while runs.next().is_some() {
        n += 1;
    }
    assert_eq!(n, 2);
    assert!(!config.sweep_id.is_empty());
}

#[test]
fn code_first_config_resolves_a_unique_seed_prefix() {
    let config = two_periods();
    let seed = config.iter_runs(&no_ranges(1)).unwrap().next().unwrap().seed;
    let prefix = seed[..8].to_string();
    let selection = config
        .selection_from_process_args(&vec!["--hyper-seed".to_string(), prefix], None, &no_ranges(1))
        .unwrap()
        .unwrap();
    assert_eq!(selection.seed, seed);
}

#[test]
fn runs_go_through_every_choice_once() {
    let mut config = HyperParameterConfig::new();
    for (key, values) in [("a", vec![whole(1), whole(2)]), ("b", vec![whole(3), whole(4), whole(5)])] {
        config
            .add_hyper_parameter(&HyperParameter::new(key.to_string(), whole(1)).values(values))
            .unwrap();
    }
    let mut runs = config.iter_runs(&no_ranges(2)).unwrap();
    let mut seen = Vec::new();
    while let Some(run) = runs.next() {
        run.validate().unwrap();
        seen.push((run.values.to_text(), run.seed));
    }
    assert_eq!(seen.len(), 6);
    for i in 0..seen.len() {
        for j in 0..i {
            assert_ne!(seen[i].0, seen[j].0);
            assert_ne!(seen[i].1, seen[j].1);
        }
    }
}

#[test]
fn seeds_are_digests_of_the_values() {
    let config = two_periods();
    let run = config.iter_runs(&no_ranges(1)).unwrap().next().unwrap();
    assert_eq!(run.values.to_text(), "{\"period\":7}");
    assert_eq!(run.seed, format!("{:x}", Sha256::digest(b"{\"period\":7}")));
}

#[test]
fn selections_with_another_seed_are_refused() {
    let wrong = HyperParameterSelection {
        seed: "0".repeat(64),
        values: Json::Object(vec![("period".to_string(), whole(7))]),
    };
    assert!(wrong.validate().is_err());
    let empty = HyperParameterSelection { seed: "0".repeat(64), values: Json::Object(Vec::new()) };
    assert!(empty.validate().is_err());
    let scalar = HyperParameterSelection { seed: "0".repeat(64), values: whole(1) };
    assert!(scalar.validate().is_err());
}

#[test]
fn a_name_is_taken_only_once() {
    let mut config = two_periods();
    assert!(config
        .add_hyper_parameter(&HyperParameter::new("period".to_string(), whole(3)).values(vec![whole(1)]))
        .is_err());
    assert!(config
        .add_hyper_parameter(&HyperParameter::new("  ".to_string(), whole(3)).values(vec![whole(1)]))
        .is_err());
    assert!(config
        .add_hyper_parameter(&HyperParameter::new("list".to_string(), Json::Array(Vec::new())))
        .is_err());
    assert_eq!(config.get_hyperparameters().unwrap().len(), 1);
}

#[test]
fn an_unknown_seed_is_an_error() {
    let config = two_periods();
    assert!(config
        .selection_from_process_args(
            &vec!["--hyper-seed".to_string(), "zzzzzzzz".to_string()],
            None,
            &no_ranges(1)
        )
        .is_err());
    assert!(config
        .selection_from_process_args(&vec!["run".to_string()], None, &no_ranges(1))
        .unwrap()
        .is_none());
}

#[test]
fn a_payload_whose_seed_is_not_its_own_is_refused() {
    let mut config = two_periods();
    let given = |seed: &str| {
        let values = Json::Object(vec![("period".to_string(), whole(7))]);
        Some(HyperParameterSelection { seed: seed.to_string(), values })
    };
    let none: Vec<String> = Vec::new();
    let wrong = config.selection_from_process_args(&none, given("0123"), &no_ranges(1));
    assert!(wrong.is_err());
    assert!(config.process_runs(&none, given("0123"), &no_ranges(1)).is_err());
    let own = format!("{:x}", Sha256::digest(b"{\"period\":7}"));
    let right = config.selection_from_process_args(&none, given(&own), &no_ranges(1));
    assert_eq!(right.unwrap().unwrap().seed, own);
}

#[test]
fn parameters_come_back_as_they_were_taken_in() {
    let mut config = two_periods();
    let risk = HyperParameter::new("risk".to_string(), decimal(0.5)).range(
        decimal(0.0),
        whole(1),
        decimal(0.25),
    );
    config.add_hyper_parameter(&risk).unwrap();
    let read = config.get_hyperparameters().unwrap();
    assert_eq!(read.len(), 2);
    assert_eq!(read[1].key, "risk");
    assert_eq!(read[1].min.as_ref().unwrap().to_text(), "0.0");
    assert_eq!(read[1].max.as_ref().unwrap().to_text(), "1.0");
    assert_eq!(read[1].increment.as_ref().unwrap().to_text(), "0.25");
    assert_eq!(read[1].fallback.to_text(), "0.5");
    assert!(read[1].values.is_none());
}

#[test]
fn a_process_without_flags_runs_once() {
    let mut config = two_periods();
    let mut runs = config.process_runs(&vec!["run".to_string()], None, &no_ranges(1)).unwrap();
    assert!(matches!(runs, ProcessRuns::Single(_)));
    assert!(runs.next().unwrap().is_none());
    assert!(runs.next().is_none());
    assert!(config.sweep_id.is_empty());
}

#[test]
fn sweeps_get_an_id_of_their_own() {
    let mut first = HyperParameterConfig::new();
    let mut second = HyperParameterConfig::new();
    let id = first.ensure_sweep_id();
    assert_eq!(id.len(), 36);
    assert_eq!(first.ensure_sweep_id(), id);
    assert_ne!(second.ensure_sweep_id(), id);
    second.set_sweep_id("mine".to_string());
    assert_eq!(second.ensure_sweep_id(), "mine");
}

#[test]
fn ranges_are_asked_for_by_their_ends() {
    let parameter = HyperParameter::new("risk".to_string(), decimal(0.5)).range(
        decimal(0.0),
        decimal(1.0),
        decimal(0.25),
    );
    assert_eq!(parameter.value_type().unwrap(), "float");
    let definition = parameter.definition_json().unwrap();
    let range = range_request(&definition).unwrap();
    assert!(!range.whole);
    assert_eq!(range.increment.unwrap().to_text(), "0.25");
}

#[test]
fn whole_bounds_are_real_numbers() {
    let limit = 1u64 << 53;
    for n in [1, 2, 3, 5, 10, 255, 4096, 1_000_003, limit / 3, limit - 1, limit,
        limit + 1, limit + 2, limit + 3, 9_999_999_999_999_999, 10_000_000_000_000_001,
        2 * limit + 2, 2 * limit + 6, 4 * limit + 6, 4 * limit + 10, i64::MAX as u64 - 512,
        i64::MAX as u64 - 511, i64::MAX as u64] {
        for (given, x) in [
            (whole(n), n as f64),
            (Json::Number(JsonNumber::Signed(n as i64)), n as f64),
            (Json::Number(JsonNumber::Signed(-(n as i64))), -(n as f64)),
        ] {
            match given.to_real() {
                Json::Number(JsonNumber::Real(number, text)) => {
                    assert_eq!(number.bits, x.to_bits());
                    assert_eq!(text, serde_json::to_string(&x).unwrap());
                }
                other => panic!("{other:?} is not real"),
            }
        }
    }
    assert_eq!(whole(0).to_real().to_text(), "0.0");
    assert_eq!(whole(limit + 1).to_real().to_text(), "9007199254740992.0");
    for n in [u64::MAX, u64::MAX - 1024, u64::MAX - 1023, 1 << 63, (1 << 63) + 1024, (1 << 63) + 1025] {
        match whole(n).to_real() {
            Json::Number(JsonNumber::Real(number, text)) => {
                assert_eq!(number.bits, (n as f64).to_bits());
                assert_eq!(text, serde_json::to_string(&(n as f64)).unwrap());
            }
            other => panic!("{other:?} is not real"),
        }
    }
    let lowest = Json::Number(JsonNumber::Signed(i64::MIN)).to_real();
    assert_eq!(lowest.to_text(), serde_json::to_string(&(i64::MIN as f64)).unwrap());
    let parameter = HyperParameter::new("period".to_string(), whole(5)).range(
        whole(1),
        whole(9),
        Json::Number(JsonNumber::Signed(-2)),
    );
    assert_eq!(parameter.min.as_ref().unwrap().to_text(), "1.0");
    assert_eq!(parameter.increment.as_ref().unwrap().to_text(), "-2.0");
    let config = HyperParameterConfig {
        sweep_id: "sweep".into(),
        strategy_fingerprint: "sweep".into(),
        source_targets: Json::Null,
        definitions: Json::Array(vec![Json::Object(vec![
            ("name".to_string(), Json::Text("period".to_string())),
            ("max".to_string(), whole(9)),
        ])]),
    };
    let read = config.get_hyperparameters().unwrap();
    assert_eq!(read[0].max.as_ref().unwrap().to_text(), "9.0");
    assert!(read[0].min.is_none());
}

#[test]
fn values_of_a_run_are_read_by_kind() {
    let values = Json::Object(vec![
        ("period".to_string(), whole(300)),
        ("fast".to_string(), Json::Bool(true)),
        ("mode".to_string(), Json::Text("slow".to_string())),
        ("risk".to_string(), decimal(0.5)),
    ]);
    let variables = DashMap::new();
    assert!(hyper_values(&variables).is_none());
    variables.insert("__HYPER__".to_string(), values);
    let found = hyper_values(&variables).unwrap();
    let found = Some(&found);
    assert_eq!(hyper_int(found, "period", 1i64), 300);
    assert_eq!(hyper_int(found, "period", 1u8), 1);
    assert_eq!(hyper_int(found, "missing", 5i32), 5);
    assert!(hyper_bool(found, "fast", false));
    assert!(!hyper_bool(found, "mode", false));
    assert_eq!(hyper_string(found, "mode", "x".to_string()), "slow");
    assert_eq!(hyper_string(None, "mode", "x".to_string()), "x");
    assert_eq!(hyper_number(found, "risk").unwrap().to_text(), "0.5");
    assert!(hyper_number(found, "mode").is_none());
}

#[test]
fn json_is_written_with_quotes_escaped() {
    let value = Json::Object(vec![
        ("a".to_string(), Json::Text("say \"hi\"\n".to_string())),
        ("b".to_string(), Json::Array(vec![Json::Null, Json::Number(JsonNumber::Signed(-2))])),
    ]);
    assert_eq!(value.to_text(), "{\"a\":\"say \\\"hi\\\"\\n\",\"b\":[null,-2]}");
}
