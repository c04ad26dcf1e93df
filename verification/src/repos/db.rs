use vstd::prelude::*;
use vstd::std_specs::convert::FromSpec;

verus! {

/// What the database reports of a statement that it has carried out.
#[derive(PartialEq, Eq, Structural, Debug, Clone, Copy)]
pub struct QueryResult {
    pub rows_affected: u64,
    pub last_insert_rowid: i64,
}

/// Which rule of the schema a statement has broken.
#[derive(PartialEq, Eq, Structural, Debug, Clone, Copy)]
pub enum ViolationKind {
    Unique,
    ForeignKey,
    NotNull,
    Check,
    Other,
}

/// Why a statement failed, as far as the callers tell failures apart.
#[derive(PartialEq, Eq, Debug, Clone)]
pub enum QueryError {
    /// The database refused the statement.
    Database(ViolationKind),
    /// A statement that should have found one row found none.
    RowNotFound,
    /// Any other failure, with its message.
    Other(String),
}

/// The outcome of an insertion: the key of the new row, or `None` where the database refused
/// the row. Any other failure is handed on.
pub fn conv_create_result<Id>(result: Result<QueryResult, QueryError>) -> (r: Result<
    Option<Id>,
    QueryError,
>) where Id: From<i64>
    ensures
        match result {
            Ok(done) => r matches Ok(Some(id)) && (Id::obeys_from_spec() ==> id == Id::from_spec(
                done.last_insert_rowid,
            )),
            Err(QueryError::Database(_)) => r matches Ok(None),
            Err(e) => r == Err::<Option<Id>, QueryError>(e),
        },
{
    match result {
        Ok(done) => Ok(Some(Id::from(done.last_insert_rowid))),
        Err(QueryError::Database(_)) => Ok(None),
        Err(e) => Err(e),
    }
}

/// The outcome of reading one row: the row, or `None` where there is none. Any other failure
/// is handed on.
pub fn conv_fetch_one_result<T>(result: Result<T, QueryError>) -> (r: Result<Option<T>, QueryError>)
    ensures
        match result {
            Ok(value) => r == Ok::<Option<T>, QueryError>(Some(value)),
            Err(QueryError::RowNotFound) => r == Ok::<Option<T>, QueryError>(None),
            Err(e) => r == Err::<Option<T>, QueryError>(e),
        },
{
    match result {
        Ok(value) => Ok(Some(value)),
        Err(QueryError::RowNotFound) => Ok(None),
        Err(e) => Err(e),
    }
}

} // verus!
