use wandb_ft::data_value::{DataMap, DataValue, LogData};

fn as_int(v: Option<&DataValue>) -> Option<u64> {
    match v {
        Some(DataValue::Int(i)) => Some(*i),
        _ => None,
    }
}

#[test]
fn insert_replaces_and_get_reads_back() {
    let mut row = LogData::new();
    assert!(row.get("loss").is_none());
    row.insert("loss".into(), DataValue::Int(3));
    assert_eq!(as_int(row.get("loss")), Some(3));
    row.insert("loss".into(), DataValue::Int(4));
    assert_eq!(as_int(row.get("loss")), Some(4));
    assert_eq!(row.data().entries().len(), 1);
}

#[test]
fn insert_default_keeps_user_values() {
    let mut row = LogData::new();
    row.insert("_timestamp".into(), DataValue::Int(1));
    row.insert_default("_timestamp".into(), DataValue::Int(2));
    assert_eq!(as_int(row.get("_timestamp")), Some(1));
    row.insert_default("step".into(), DataValue::Int(9));
    assert_eq!(as_int(row.get("step")), Some(9));
}

#[test]
fn nested_values_are_copied() {
    let mut inner = DataMap::new();
    inner.insert("x".into(), DataValue::String("y".into()));
    let v = DataValue::List(vec![DataValue::Bool(true), DataValue::Dict(inner), DataValue::Float(2.5f64.to_bits())]);
    let c = v.duplicate();
    match c {
        DataValue::List(items) => {
            assert_eq!(items.len(), 3);
            assert!(matches!(items[0], DataValue::Bool(true)));
            match &items[1] {
                DataValue::Dict(m) => match m.get("x") {
                    Some(DataValue::String(s)) => assert_eq!(s, "y"),
                    _ => panic!("missing key"),
                },
                _ => panic!("expected a dict"),
            }
            match items[2] {
                DataValue::Float(b) => assert_eq!(f64::from_bits(b), 2.5),
                _ => panic!("expected a float"),
            }
        }
        _ => panic!("expected a list"),
    }
}
