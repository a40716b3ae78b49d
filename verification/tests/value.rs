use mail_core::error::Error;
use mail_core::lookup::LookupKey;
use mail_core::text::{bool_to_string, int_to_string};
use mail_core::value::{NamedRows, Row, Rows, Value};

#[test]
fn every_cell_has_a_text() {
    assert_eq!(Value::Text("héllo".to_string()).to_str(), "héllo");
    assert_eq!(Value::Integer(-42).to_str(), "-42");
    assert_eq!(Value::Bool(true).to_str(), "true");
    assert_eq!(Value::Bool(false).to_str(), "false");
    assert_eq!(Value::Float("1.5".to_string()).to_str(), "1.5");
    assert_eq!(Value::Blob(b"abc".to_vec()).to_str(), "abc");
    assert_eq!(Value::Null.to_str(), "");
}

#[test]
fn into_string_agrees_with_to_str() {
    let cells = vec![
        Value::Text("x y".to_string()),
        Value::Integer(0),
        Value::Integer(i64::MAX),
        Value::Bool(true),
        Value::Float("-0.25".to_string()),
        Value::Blob(vec![0x61, 0xff, 0x62]),
        Value::Null,
    ];
    for cell in cells {
        let text = cell.to_str();
        assert_eq!(cell.into_string(), text);
    }
}

#[test]
fn integers_in_decimal() {
    assert_eq!(int_to_string(0), "0");
    assert_eq!(int_to_string(7), "7");
    assert_eq!(int_to_string(10), "10");
    assert_eq!(int_to_string(-1), "-1");
    assert_eq!(int_to_string(1234567890), "1234567890");
    assert_eq!(int_to_string(i64::MAX), "9223372036854775807");
    assert_eq!(int_to_string(i64::MIN), "-9223372036854775808");
    for i in [-1000i64, -99, -10, 5, 99, 100, 101, 65535] {
        assert_eq!(int_to_string(i), i.to_string());
    }
    assert_eq!(bool_to_string(true), "true");
    assert_eq!(bool_to_string(false), "false");
}

#[test]
fn ill_formed_bytes_are_replaced() {
    assert_eq!(Value::Blob(vec![0x61, 0xff, 0x62]).into_string(), "a\u{fffd}b");
    assert_eq!(Value::Blob(vec![0xc3, 0xa9]).into_string(), "é");
    assert_eq!(Value::Blob(Vec::new()).into_string(), "");
}

fn sample_row() -> Row {
    Row {
        values: vec![
            Value::Integer(7),
            Value::Text("seven".to_string()),
            Value::Null,
            Value::Integer(-1),
            Value::Bool(true),
            Value::Integer(0x1_0000_0005),
            Value::Float("2.5".to_string()),
            Value::Blob(b"raw".to_vec()),
        ],
    }
}

#[test]
fn row_as_strings() {
    let strings: Vec<String> = sample_row().into();
    assert_eq!(strings, vec!["7", "seven", "", "-1", "true", "4294967301", "2.5", "raw"]);
    let none: Vec<String> = Row { values: Vec::new() }.into();
    assert!(none.is_empty());
}

#[test]
fn row_as_integers_drops_other_cells() {
    let numbers: Vec<u32> = sample_row().into();
    assert_eq!(numbers, vec![7, u32::MAX, 5]);
    let none: Vec<u32> = Row { values: vec![Value::Null, Value::Text("1".to_string())] }.into();
    assert!(none.is_empty());
}

#[test]
fn rows_are_flattened_row_after_row() {
    let rows = Rows {
        rows: vec![
            Row { values: vec![Value::Integer(1), Value::Text("a".to_string())] },
            Row { values: Vec::new() },
            Row { values: vec![Value::Bool(false), Value::Integer(2)] },
        ],
    };
    let strings: Vec<String> = rows.clone().into();
    assert_eq!(strings, vec!["1", "a", "false", "2"]);
    let numbers: Vec<u32> = rows.into();
    assert_eq!(numbers, vec![1, 2]);
    let empty: Vec<u32> = Rows { rows: Vec::new() }.into();
    assert!(empty.is_empty());
    let empty: Vec<String> = Rows { rows: Vec::new() }.into();
    assert!(empty.is_empty());
}

#[test]
fn named_rows_carry_their_column_names() {
    let named = NamedRows {
        names: vec!["id".to_string(), "name".to_string()],
        rows: vec![Row { values: vec![Value::Integer(1), Value::Text("a".to_string())] }],
    };
    assert_eq!(named.names.len(), named.rows[0].values.len());
}

#[test]
fn lookup_key_as_text() {
    assert_eq!(String::from(LookupKey::Key(b"alpha".to_vec())), "alpha");
    assert_eq!(String::from(LookupKey::Counter(b"beta".to_vec())), "beta");
    assert_eq!(String::from(LookupKey::Key(vec![0x66, 0x80, 0x6f])), "f\u{fffd}o");
}

#[test]
fn errors_have_messages() {
    assert_eq!(
        Error::InternalError("disk full".to_string()).to_string(),
        "Internal Error: disk full"
    );
    assert_eq!(Error::AssertValueFailed.to_string(), "Transaction failed: Hash mismatch");
    assert_eq!(Error::from("boom".to_string()), Error::InternalError("boom".to_string()));
    assert_ne!(Error::from(String::new()), Error::AssertValueFailed);
}

#[test]
fn cells_from_plain_values() {
    assert_eq!(Value::from("text"), Value::Text("text".to_string()));
    assert_eq!(Value::from("text".to_string()), Value::Text("text".to_string()));
    assert_eq!(Value::from(true), Value::Bool(true));
    assert_eq!(Value::from(-5i64), Value::Integer(-5));
    assert_eq!(Value::from(5u32), Value::Integer(5));
    assert_eq!(Value::from(u32::MAX), Value::Integer(4294967295));
    assert_eq!(Value::from(7u64), Value::Integer(7));
    assert_eq!(Value::from(u64::MAX), Value::Integer(-1));
    assert_eq!(Value::from(vec![1u8, 2]), Value::Blob(vec![1, 2]));
}
