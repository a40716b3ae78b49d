//! The cell and row model: what any backend hands back from a query.

use crate::text::{bool_text, bool_to_string, int_text, int_to_string, utf8_lossy, utf8_lossy_text};
use vstd::prelude::*;
use vstd::std_specs::convert::FromSpecImpl;

verus! {

/// One cell of a row.
#[derive(Clone, Debug, PartialEq, Eq)]
pub enum Value {
    /// A signed integer.
    Integer(i64),
    /// A truth value.
    Bool(bool),
    /// A floating-point number, held as the shortest decimal text that
    /// reads back as the same number.
    Float(String),
    /// Text.
    Text(String),
    /// Bytes.
    Blob(Vec<u8>),
    /// No value.
    Null,
}

/// The cells of one record, in column order.
#[derive(Clone, Debug)]
pub struct Row {
    pub values: Vec<Value>,
}

/// The rows of a result.
#[derive(Clone, Debug)]
pub struct Rows {
    pub rows: Vec<Row>,
}

/// The rows of a result together with the names of their columns.
#[derive(Clone, Debug)]
pub struct NamedRows {
    pub names: Vec<String>,
    pub rows: Vec<Row>,
}

impl Value {
    /// The cell as text: text as it is, numbers in decimal, `true` or
    /// `false`, bytes read as UTF-8, and nothing for no value.
    pub open spec fn text(&self) -> Seq<char> {
        match self {
            Value::Text(s) => s@,
            Value::Integer(i) => int_text(*i as int),
            Value::Bool(b) => bool_text(*b),
            Value::Float(f) => f@,
            Value::Blob(b) => utf8_lossy_text(b@),
            Value::Null => Seq::empty(),
        }
    }

    /// The cell as text.
    pub fn to_str(&self) -> (text: String)
        ensures
            text@ == self.text(),
    {
        match self {
            Value::Text(s) => s.clone(),
            Value::Integer(i) => int_to_string(*i),
            Value::Bool(b) => bool_to_string(*b),
            Value::Float(f) => f.clone(),
            Value::Blob(b) => utf8_lossy(b.as_slice()),
            Value::Null => String::new(),
        }
    }

    /// The cell turned into its text.
    pub fn into_string(self) -> (text: String)
        ensures
            text@ == self.text(),
    {
        match self {
            Value::Text(s) => s,
            Value::Integer(i) => int_to_string(i),
            Value::Bool(b) => bool_to_string(b),
            Value::Float(f) => f,
            Value::Blob(b) => utf8_lossy(b.as_slice()),
            Value::Null => String::new(),
        }
    }
}

/// The cells of a row as text, one for one.
pub open spec fn texts(values: Seq<Value>) -> Seq<Seq<char>> {
    values.map_values(|v: Value| v.text())
}

/// The integer cells of a row, each cut to its low 32 bits; cells of any
/// other kind are left out.
pub open spec fn integers(values: Seq<Value>) -> Seq<u32>
    decreases values.len(),
{
    if values.len() == 0 {
        Seq::empty()
    } else {
        match values.last() {
            Value::Integer(v) => integers(values.drop_last()).push(v as u32),
            _ => integers(values.drop_last()),
        }
    }
}

/// The cells of all rows as text, row after row.
pub open spec fn all_texts(rows: Seq<Row>) -> Seq<Seq<char>>
    decreases rows.len(),
{
    if rows.len() == 0 {
        Seq::empty()
    } else {
        all_texts(rows.drop_last()) + texts(rows.last().values@)
    }
}

/// The integer cells of all rows, row after row.
pub open spec fn all_integers(rows: Seq<Row>) -> Seq<u32>
    decreases rows.len(),
{
    if rows.len() == 0 {
        Seq::empty()
    } else {
        all_integers(rows.drop_last()) + integers(rows.last().values@)
    }
}

/// The texts of a list of strings.
pub open spec fn views(strings: Seq<String>) -> Seq<Seq<char>> {
    strings.map_values(|s: String| s@)
}

/// Appends the cells of `values` as text to `out`.
fn push_texts(out: &mut Vec<String>, values: &Vec<Value>)
    ensures
        views(final(out)@) == views(old(out)@) + texts(values@),
{
    let mut i: usize = 0;
    while i < values.len()
        invariant
            i <= values.len(),
            views(out@) == views(old(out)@) + texts(values@.take(i as int)),
        decreases values.len() - i,
    {
        let ghost before = out@;
        let text = values[i].to_str();
        out.push(text);
        proof {
            assert(views(out@) =~= views(before).push(text@));
            assert(texts(values@.take(i + 1)) =~= texts(values@.take(i as int)).push(
                values@[i as int].text(),
            ));
            assert(views(out@) =~= views(old(out)@) + texts(values@.take(i + 1)));
        }
        i += 1;
    }
    assert(values@.take(i as int) =~= values@);
}

/// Appends the integer cells of `values` to `out`.
fn push_integers(out: &mut Vec<u32>, values: &Vec<Value>)
    ensures
        final(out)@ == old(out)@ + integers(values@),
{
    let mut i: usize = 0;
    while i < values.len()
        invariant
            i <= values.len(),
            out@ == old(out)@ + integers(values@.take(i as int)),
        decreases values.len() - i,
    {
        proof {
            assert(values@.take(i + 1).drop_last() =~= values@.take(i as int));
            assert(values@.take(i + 1).last() == values@[i as int]);
        }
        if let Value::Integer(v) = &values[i] {
            out.push(#[verifier::truncate] (*v as u32));
            assert(out@ =~= old(out)@ + integers(values@.take(i + 1)));
        } else {
            assert(out@ =~= old(out)@ + integers(values@.take(i + 1)));
        }
        i += 1;
    }
    assert(values@.take(i as int) =~= values@);
}

impl From<Row> for Vec<String> {
    /// Every cell of the row as text.
    fn from(value: Row) -> (strings: Vec<String>)
        ensures
            views(strings@) == texts(value.values@),
    {
        let mut strings: Vec<String> = Vec::new();
        push_texts(&mut strings, &value.values);
        assert(views(strings@) =~= texts(value.values@));
        strings
    }
}

impl FromSpecImpl<Row> for Vec<String> {
    open spec fn obeys_from_spec() -> bool {
        false
    }

    open spec fn from_spec(value: Row) -> Vec<String> {
        arbitrary()
    }
}

impl From<Row> for Vec<u32> {
    /// The integer cells of the row; other cells are left out.
    fn from(value: Row) -> (numbers: Vec<u32>)
        ensures
            numbers@ == integers(value.values@),
    {
        let mut numbers: Vec<u32> = Vec::new();
        push_integers(&mut numbers, &value.values);
        assert(numbers@ =~= integers(value.values@));
        numbers
    }
}

impl FromSpecImpl<Row> for Vec<u32> {
    open spec fn obeys_from_spec() -> bool {
        false
    }

    open spec fn from_spec(value: Row) -> Vec<u32> {
        arbitrary()
    }
}

impl From<Rows> for Vec<String> {
    /// Every cell of every row as text, row after row.
    fn from(value: Rows) -> (strings: Vec<String>)
        ensures
            views(strings@) == all_texts(value.rows@),
    {
        let mut strings: Vec<String> = Vec::new();
        let mut i: usize = 0;
        assert(views(strings@) =~= all_texts(value.rows@.take(0)));
        while i < value.rows.len()
            invariant
                i <= value.rows.len(),
                views(strings@) == all_texts(value.rows@.take(i as int)),
            decreases value.rows.len() - i,
        {
            proof {
                assert(value.rows@.take(i + 1).drop_last() =~= value.rows@.take(i as int));
                assert(value.rows@.take(i + 1).last() == value.rows@[i as int]);
            }
            push_texts(&mut strings, &value.rows[i].values);
            i += 1;
        }
        assert(value.rows@.take(i as int) =~= value.rows@);
        strings
    }
}

impl FromSpecImpl<Rows> for Vec<String> {
    open spec fn obeys_from_spec() -> bool {
        false
    }

    open spec fn from_spec(value: Rows) -> Vec<String> {
        arbitrary()
    }
}

impl From<Rows> for Vec<u32> {
    /// The integer cells of every row, row after row; other cells are left
    /// out.
    fn from(value: Rows) -> (numbers: Vec<u32>)
        ensures
            numbers@ == all_integers(value.rows@),
    {
        let mut numbers: Vec<u32> = Vec::new();
        let mut i: usize = 0;
        while i < value.rows.len()
            invariant
                i <= value.rows.len(),
                numbers@ == all_integers(value.rows@.take(i as int)),
            decreases value.rows.len() - i,
        {
            proof {
                assert(value.rows@.take(i + 1).drop_last() =~= value.rows@.take(i as int));
                assert(value.rows@.take(i + 1).last() == value.rows@[i as int]);
            }
            push_integers(&mut numbers, &value.rows[i].values);
            i += 1;
        }
        assert(value.rows@.take(i as int) =~= value.rows@);
        numbers
    }
}

impl FromSpecImpl<Rows> for Vec<u32> {
    open spec fn obeys_from_spec() -> bool {
        false
    }

    open spec fn from_spec(value: Rows) -> Vec<u32> {
        arbitrary()
    }
}

impl From<&str> for Value {
    fn from(value: &str) -> (cell: Value)
        ensures
            cell matches Value::Text(text) && text@ == value@,
    {
        Value::Text(value.to_owned())
    }
}

impl FromSpecImpl<&str> for Value {
    open spec fn obeys_from_spec() -> bool {
        false
    }

    open spec fn from_spec(value: &str) -> Value {
        arbitrary()
    }
}

impl From<String> for Value {
    fn from(value: String) -> (cell: Value) {
        Value::Text(value)
    }
}

impl FromSpecImpl<String> for Value {
    open spec fn obeys_from_spec() -> bool {
        true
    }

    open spec fn from_spec(value: String) -> Value {
        Value::Text(value)
    }
}

impl From<bool> for Value {
    fn from(value: bool) -> (cell: Value) {
        Value::Bool(value)
    }
}

impl FromSpecImpl<bool> for Value {
    open spec fn obeys_from_spec() -> bool {
        true
    }

    open spec fn from_spec(value: bool) -> Value {
        Value::Bool(value)
    }
}

impl From<i64> for Value {
    fn from(value: i64) -> (cell: Value) {
        Value::Integer(value)
    }
}

impl FromSpecImpl<i64> for Value {
    open spec fn obeys_from_spec() -> bool {
        true
    }

    open spec fn from_spec(value: i64) -> Value {
        Value::Integer(value)
    }
}

impl From<u64> for Value {
    /// The number as a signed integer of the same bits.
    fn from(value: u64) -> (cell: Value) {
        Value::Integer(#[verifier::truncate] (value as i64))
    }
}

impl FromSpecImpl<u64> for Value {
    open spec fn obeys_from_spec() -> bool {
        true
    }

    open spec fn from_spec(value: u64) -> Value {
        Value::Integer(value as i64)
    }
}

impl From<u32> for Value {
    fn from(value: u32) -> (cell: Value) {
        Value::Integer(value as i64)
    }
}

impl FromSpecImpl<u32> for Value {
    open spec fn obeys_from_spec() -> bool {
        true
    }

    open spec fn from_spec(value: u32) -> Value {
        Value::Integer(value as i64)
    }
}

impl From<Vec<u8>> for Value {
    fn from(value: Vec<u8>) -> (cell: Value) {
        Value::Blob(value)
    }
}

impl FromSpecImpl<Vec<u8>> for Value {
    open spec fn obeys_from_spec() -> bool {
        true
    }

    open spec fn from_spec(value: Vec<u8>) -> Value {
        Value::Blob(value)
    }
}

} // verus!
