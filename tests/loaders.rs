use redis_loader::config::{AbType, Cli, Command, SignalType};
use redis_loader::error::LoadError;
use redis_loader::loaders::{
    handle_range_signal, plan_ab_params, plan_action_choice, plan_action_score,
    plan_action_value,
};
use redis_loader::record::tuple2_from_split;
use redis_loader::store::{
    index_field, indexed_entries, set_fields, StoreWrite, AB_PARAMS_MAP, DEFAULT_CHOICE_MAP,
    TARGET_CTR_MAP,
};

fn strings(items: &[&str]) -> Vec<String> {
    items.iter().map(|s| s.to_string()).collect()
}

fn pairs(items: &[(&str, &str)]) -> Vec<(String, String)> {
    items.iter().map(|(a, b)| (a.to_string(), b.to_string())).collect()
}

/// Reads a value as a JSON array of numbers and writes each back as text.
fn decode(raw: &str) -> Option<Vec<String>> {
    let values: Vec<f32> = serde_json::from_str(raw).ok()?;
    Some(values.iter().map(|v| format!("{}", v)).collect())
}

fn score_line(line: &str) -> (String, Option<Vec<String>>) {
    let numbers = match tuple2_from_split(line, '=') {
        Ok((_, value)) => decode(&value),
        Err(_) => None,
    };
    (line.to_string(), numbers)
}

fn cli(command: Command) -> Cli {
    Cli {
        command,
        redis_addr: "127.0.0.1:6379".to_string(),
        redis_pwd: String::new(),
        file: "input.txt".to_string(),
        feishu_url: None,
    }
}

#[test]
fn split_one_delimiter() {
    assert_eq!(
        tuple2_from_split("key=value", '='),
        Ok(("key".to_string(), "value".to_string()))
    );
}

#[test]
fn split_empty_sides() {
    assert_eq!(tuple2_from_split("=", '='), Ok((String::new(), String::new())));
    assert_eq!(tuple2_from_split("k=", '='), Ok(("k".to_string(), String::new())));
    assert_eq!(tuple2_from_split("=v", '='), Ok((String::new(), "v".to_string())));
}

#[test]
fn split_non_ascii() {
    assert_eq!(
        tuple2_from_split("clé=valeur→ü", '='),
        Ok(("clé".to_string(), "valeur→ü".to_string()))
    );
}

#[test]
fn split_no_delimiter() {
    assert_eq!(tuple2_from_split("keyvalue", '='), Err(LoadError::MalformedRecord));
    assert_eq!(tuple2_from_split("", '='), Err(LoadError::MalformedRecord));
}

#[test]
fn split_two_delimiters() {
    assert_eq!(tuple2_from_split("a=b=c", '='), Err(LoadError::MalformedRecord));
    assert_eq!(tuple2_from_split("==", '='), Err(LoadError::MalformedRecord));
}

#[test]
fn split_other_delimiter() {
    assert_eq!(
        tuple2_from_split("a=b:c", ':'),
        Ok(("a=b".to_string(), "c".to_string()))
    );
}

#[test]
fn index_fields_in_decimal() {
    assert_eq!(index_field(0), "0");
    assert_eq!(index_field(7), "7");
    assert_eq!(index_field(10), "10");
    assert_eq!(index_field(12345), "12345");
    assert_eq!(index_field(usize::MAX), usize::MAX.to_string());
}

#[test]
fn indexed_entries_start_at_zero() {
    let values = strings(&["a", "b", "c"]);
    assert_eq!(indexed_entries(&values), pairs(&[("0", "a"), ("1", "b"), ("2", "c")]));
    assert_eq!(indexed_entries(&Vec::new()), Vec::new());
}

#[test]
fn indexed_entries_past_ten() {
    let values: Vec<String> = (0..12).map(|i| format!("v{}", i)).collect();
    let entries = indexed_entries(&values);
    assert_eq!(entries.len(), 12);
    assert_eq!(entries[0], ("0".to_string(), "v0".to_string()));
    assert_eq!(entries[11], ("11".to_string(), "v11".to_string()));
}

#[test]
fn set_fields_empty_is_no_write() {
    assert_eq!(set_fields("m".to_string(), Vec::new()), None);
}

#[test]
fn set_fields_keeps_entries() {
    assert_eq!(
        set_fields("m".to_string(), pairs(&[("a", "1")])),
        Some(StoreWrite::SetFields { map: "m".to_string(), entries: pairs(&[("a", "1")]) })
    );
}

#[test]
fn ab_type_names() {
    assert_eq!(AbType::Fill.name(), "fill");
    assert_eq!(AbType::Show.name(), "show");
    assert_eq!(AbType::Click.name(), "click");
}

#[test]
fn redis_url_from_address() {
    assert_eq!(redis_loader::config::redis_url("127.0.0.1:6379"), "redis://127.0.0.1:6379");
}

#[test]
fn ab_params_skip_malformed_line() {
    let lines = strings(&["a=1", "broken", "b=2"]);
    assert_eq!(
        plan_ab_params(&lines, AbType::Show),
        vec![
            StoreWrite::SetField {
                map: AB_PARAMS_MAP.to_string(),
                field: "a:show".to_string(),
                value: "1".to_string(),
            },
            StoreWrite::SetField {
                map: AB_PARAMS_MAP.to_string(),
                field: "b:show".to_string(),
                value: "2".to_string(),
            },
        ]
    );
}

#[test]
fn ab_params_map_name() {
    let lines = strings(&["exp=x=y", "p=0.5"]);
    let writes = plan_ab_params(&lines, AbType::Fill);
    assert_eq!(
        writes,
        vec![StoreWrite::SetField {
            map: "cfg:exp:ab".to_string(),
            field: "p:fill".to_string(),
            value: "0.5".to_string(),
        }]
    );
}

#[test]
fn ab_params_no_lines() {
    assert_eq!(plan_ab_params(&Vec::new(), AbType::Click), Vec::new());
}

#[test]
fn action_choice_all_records() {
    let lines = strings(&["ad1=3", "ad2=0"]);
    assert_eq!(
        plan_action_choice(&lines),
        Ok(Some(StoreWrite::SetFields {
            map: DEFAULT_CHOICE_MAP.to_string(),
            entries: pairs(&[("ad1", "3"), ("ad2", "0")]),
        }))
    );
    assert_eq!(DEFAULT_CHOICE_MAP, "exp:default:adid:choices");
}

#[test]
fn action_choice_malformed_line_aborts() {
    let lines = strings(&["ad1=3", "bad", "ad2=0"]);
    assert_eq!(plan_action_choice(&lines), Err(LoadError::MalformedRecord));
}

#[test]
fn action_choice_all_malformed_no_write() {
    let lines = strings(&["bad", "a=b=c", ""]);
    assert_eq!(plan_action_choice(&lines), Err(LoadError::MalformedRecord));
}

#[test]
fn action_choice_empty_file_no_write() {
    assert_eq!(plan_action_choice(&Vec::new()), Ok(None));
}

#[test]
fn action_score_writes_each_version() {
    let lines = vec![score_line("v1=[1.0,2.5]"), score_line("v2=[0.25]")];
    let (writes, outcome) = plan_action_score(&lines);
    assert_eq!(outcome, Ok(()));
    assert_eq!(
        writes,
        vec![
            StoreWrite::SetFields {
                map: "expversion:score:default:v1".to_string(),
                entries: pairs(&[("0", "1"), ("1", "2.5")]),
            },
            StoreWrite::SetFields {
                map: "expversion:score:default:v2".to_string(),
                entries: pairs(&[("0", "0.25")]),
            },
        ]
    );
}

#[test]
fn action_score_braces_fail_decode() {
    let lines = vec![score_line("v1={1.0,2.0}")];
    let (writes, outcome) = plan_action_score(&lines);
    assert_eq!(outcome, Err(LoadError::ValueDecode));
    assert!(writes.is_empty());
}

#[test]
fn action_score_stops_at_malformed_line() {
    let lines = vec![score_line("v1=[1.0]"), score_line("v2"), score_line("v3=[2.0]")];
    let (writes, outcome) = plan_action_score(&lines);
    assert_eq!(outcome, Err(LoadError::MalformedRecord));
    assert_eq!(
        writes,
        vec![StoreWrite::SetFields {
            map: "expversion:score:default:v1".to_string(),
            entries: pairs(&[("0", "1")]),
        }]
    );
}

#[test]
fn action_score_empty_array_no_write() {
    let lines = vec![score_line("v1=[]")];
    let (writes, outcome) = plan_action_score(&lines);
    assert_eq!(outcome, Ok(()));
    assert!(writes.is_empty());
}

#[test]
fn action_value_three_fields() {
    let data = "seg1=[0.1,0.2,0.3]";
    let numbers = decode("[0.1,0.2,0.3]");
    let writes = plan_action_value(data, &numbers).unwrap();
    let expected: Vec<StoreWrite> = [("0", "0.1"), ("1", "0.2"), ("2", "0.3")]
        .iter()
        .map(|(f, v)| StoreWrite::SetField {
            map: TARGET_CTR_MAP.to_string(),
            field: f.to_string(),
            value: v.to_string(),
        })
        .collect();
    assert_eq!(writes, expected);
    assert_eq!(TARGET_CTR_MAP, "cfg:exp:action:targetctr:default");
}

#[test]
fn action_value_two_records_malformed() {
    let data = "a=[1]\nb=[2]";
    assert_eq!(plan_action_value(data, &None), Err(LoadError::MalformedRecord));
}

#[test]
fn action_value_bad_array() {
    let data = "seg1=[0.1,\"x\"]";
    let numbers = decode("[0.1,\"x\"]");
    assert_eq!(numbers, None);
    assert_eq!(plan_action_value(data, &numbers), Err(LoadError::ValueDecode));
}

#[test]
fn range_signal_not_implemented() {
    for types in [
        SignalType::TemptClick,
        SignalType::FillRate,
        SignalType::ShowRate,
        SignalType::ClickRate,
    ] {
        let c = cli(Command::RangeSignal { types });
        assert_eq!(handle_range_signal(&c, types), Err(LoadError::NotImplemented));
    }
}
