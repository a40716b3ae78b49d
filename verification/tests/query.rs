use mail_core::query::{IntoRows, QueryResult, QueryType};
use mail_core::value::{NamedRows, Row, Rows, Value};

struct Cursor {
    names: Vec<String>,
    rows: Vec<Vec<i64>>,
}

fn row_of(cells: &[i64]) -> Row {
    Row { values: cells.iter().map(|c| Value::Integer(*c)).collect() }
}

impl IntoRows for Cursor {
    fn into_row(self) -> Option<Row> {
        self.rows.first().map(|cells| row_of(cells))
    }

    fn into_rows(self) -> Rows {
        Rows { rows: self.rows.iter().map(|cells| row_of(cells)).collect() }
    }

    fn into_named_rows(self) -> NamedRows {
        NamedRows { names: self.names.clone(), rows: self.rows.iter().map(|cells| row_of(cells)).collect() }
    }
}

fn cursor() -> Cursor {
    Cursor { names: vec!["a".to_string(), "b".to_string()], rows: vec![vec![1, 2], vec![3, 4]] }
}

#[test]
fn each_type_names_its_query() {
    assert!(matches!(<usize as QueryResult>::query_type(), QueryType::Execute));
    assert!(matches!(<bool as QueryResult>::query_type(), QueryType::Exists));
    assert!(matches!(<Option<Row> as QueryResult>::query_type(), QueryType::QueryOne));
    assert!(matches!(<Rows as QueryResult>::query_type(), QueryType::QueryAll));
    assert!(matches!(<NamedRows as QueryResult>::query_type(), QueryType::QueryAll));
}

#[test]
fn scalar_results_pass_through() {
    assert_eq!(<usize as QueryResult>::from_exec(17), 17);
    assert_eq!(<usize as QueryResult>::from_exec(0), 0);
    assert!(<bool as QueryResult>::from_exists(true));
    assert!(!<bool as QueryResult>::from_exists(false));
}

#[test]
fn one_row_is_the_first_row() {
    let row = <Option<Row> as QueryResult>::from_rows(cursor()).unwrap();
    assert_eq!(row.values, vec![Value::Integer(1), Value::Integer(2)]);
    let none = <Option<Row> as QueryResult>::from_rows(Cursor { names: Vec::new(), rows: Vec::new() });
    assert!(none.is_none());
}

#[test]
fn all_rows_with_and_without_names() {
    let rows = <Rows as QueryResult>::from_rows(cursor());
    assert_eq!(rows.rows.len(), 2);
    assert_eq!(rows.rows[1].values, vec![Value::Integer(3), Value::Integer(4)]);
    let named = <NamedRows as QueryResult>::from_rows(cursor());
    assert_eq!(named.names, vec!["a", "b"]);
    assert_eq!(named.rows.len(), 2);
    assert_eq!(named.rows[0].values, vec![Value::Integer(1), Value::Integer(2)]);
}
