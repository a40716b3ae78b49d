//! The shapes of a query's result. Which shape a query yields is chosen by
//! the type that the caller asks for.

use crate::value::{NamedRows, Row, Rows};
use vstd::pervasive::unreached;
use vstd::prelude::*;

verus! {

/// What a query is made for.
#[derive(Clone, Copy)]
pub enum QueryType {
    /// A change; yields the number of rows affected.
    Execute,
    /// A probe; yields whether anything matched.
    Exists,
    /// A query for every matching row.
    QueryAll,
    /// A query for at most one row.
    QueryOne,
}

/// What a backend's own result turns into.
pub trait IntoRows: Sized {
    /// The first row, if there is one.
    fn into_row(self) -> Option<Row>;

    /// All rows.
    fn into_rows(self) -> Rows;

    /// All rows, with the names of their columns.
    fn into_named_rows(self) -> NamedRows;
}

/// A type that a query can yield. A backend hands its result over through
/// the one conversion that fits the query made; to ask for any other is a
/// fault of the backend.
pub trait QueryResult: Sized + Sync + Send + 'static {
    /// The query that yields this type.
    spec fn shape() -> QueryType;

    /// The result of a change that affected `items` rows.
    fn from_exec(items: usize) -> (result: Self)
        requires
            Self::shape() is Execute,
    ;

    /// The result of a probe.
    fn from_exists(exists: bool) -> (result: Self)
        requires
            Self::shape() is Exists,
    ;

    /// The result of a query for rows, be it for one or for all.
    fn from_rows<I: IntoRows>(items: I) -> (result: Self)
        requires
            Self::shape() is QueryOne || Self::shape() is QueryAll,
            call_requires(I::into_row, (items,)),
            call_requires(I::into_rows, (items,)),
            call_requires(I::into_named_rows, (items,)),
    ;

    /// The query that yields this type.
    fn query_type() -> (query: QueryType)
        ensures
            query == Self::shape(),
    ;
}

impl QueryResult for Option<Row> {
    open spec fn shape() -> QueryType {
        QueryType::QueryOne
    }

    fn query_type() -> (query: QueryType) {
        QueryType::QueryOne
    }

    fn from_exec(items: usize) -> (result: Self) {
        unreached()
    }

    fn from_exists(exists: bool) -> (result: Self) {
        unreached()
    }

    /// The first row, if there is one.
    fn from_rows<I: IntoRows>(items: I) -> (result: Self)
        ensures
            call_ensures(I::into_row, (items,), result),
    {
        items.into_row()
    }
}

impl QueryResult for Rows {
    open spec fn shape() -> QueryType {
        QueryType::QueryAll
    }

    fn query_type() -> (query: QueryType) {
        QueryType::QueryAll
    }

    fn from_exec(items: usize) -> (result: Self) {
        unreached()
    }

    fn from_exists(exists: bool) -> (result: Self) {
        unreached()
    }

    /// All rows.
    fn from_rows<I: IntoRows>(items: I) -> (result: Self)
        ensures
            call_ensures(I::into_rows, (items,), result),
    {
        items.into_rows()
    }
}

impl QueryResult for NamedRows {
    open spec fn shape() -> QueryType {
        QueryType::QueryAll
    }

    fn query_type() -> (query: QueryType) {
        QueryType::QueryAll
    }

    fn from_exec(items: usize) -> (result: Self) {
        unreached()
    }

    fn from_exists(exists: bool) -> (result: Self) {
        unreached()
    }

    /// All rows, with the names of their columns.
    fn from_rows<I: IntoRows>(items: I) -> (result: Self)
        ensures
            call_ensures(I::into_named_rows, (items,), result),
    {
        items.into_named_rows()
    }
}

impl QueryResult for bool {
    open spec fn shape() -> QueryType {
        QueryType::Exists
    }

    fn query_type() -> (query: QueryType) {
        QueryType::Exists
    }

    fn from_exec(items: usize) -> (result: Self) {
        unreached()
    }

    fn from_exists(exists: bool) -> (result: Self)
        ensures
            result == exists,
    {
        exists
    }

    fn from_rows<I: IntoRows>(items: I) -> (result: Self) {
        unreached()
    }
}

impl QueryResult for usize {
    open spec fn shape() -> QueryType {
        QueryType::Execute
    }

    fn query_type() -> (query: QueryType) {
        QueryType::Execute
    }

    fn from_exec(items: usize) -> (result: Self)
        ensures
            result == items,
    {
        items
    }

    fn from_exists(exists: bool) -> (result: Self) {
        unreached()
    }

    fn from_rows<I: IntoRows>(items: I) -> (result: Self) {
        unreached()
    }
}

} // verus!
