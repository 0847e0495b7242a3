//! pgvector search backend: table-name validation and the adapter that runs
//! without a database connection.
//!
//! `pgvector` table names are interpolated into SQL statements. To prevent
//! SQL injection, names are validated against an allowlist regex before use.
use vstd::prelude::*;
use crate::errors::BackendError;
use vstd::string::StringExecFns;
use crate::text::{decimal, push_decimal};

verus! {

/// Allowlist pattern for pgvector table names.
///
/// Must start with a letter or underscore, followed by up to 62 alphanumeric
/// or underscore characters (total max = 63, matching `PostgreSQL`'s
/// `NAMEDATALEN - 1` limit).
pub const TABLE_NAME_PATTERN: &'static str = "^[A-Za-z_][A-Za-z0-9_]{0,62}$";

/// Message of every operation that needs a live database connection.
pub const LIVE_DB_REQUIRED: &'static str = "live-db feature required to connect to PostgreSQL";

/// What the `regex` crate answers when `pattern` is compiled and searched
/// for in `haystack`: `None` when the pattern does not compile, otherwise
/// whether there is a match anywhere in the haystack.
pub uninterp spec fn regex_search_result(pattern: Seq<char>, haystack: Seq<char>) -> Option<bool>;

/// The `Debug` rendering of a string: quoted, with escapes.
pub uninterp spec fn debug_quoted(s: Seq<char>) -> Seq<char>;

/// A character that may start a table name: an ASCII letter or `_`.
pub open spec fn is_name_start(c: char) -> bool {
    ('A' <= c && c <= 'Z') || ('a' <= c && c <= 'z') || c == '_'
}

/// A character that may follow in a table name: an ASCII letter, an ASCII
/// digit or `_`.
pub open spec fn is_name_char(c: char) -> bool {
    is_name_start(c) || ('0' <= c && c <= '9')
}

/// The names [`TABLE_NAME_PATTERN`] matches: 1 to 63 characters, the first
/// an ASCII letter or `_`, the others ASCII letters, digits or `_`.
pub open spec fn valid_table_name(name: Seq<char>) -> bool {
    &&& 1 <= name.len() <= 63
    &&& is_name_start(name[0])
    &&& forall|i: int| 1 <= i < name.len() ==> is_name_char(#[trigger] name[i])
}

/// `regex::Regex::new` followed by `regex::Regex::is_match`: trusted to
/// return `None` when the pattern fails to compile and otherwise the
/// matcher's answer, the same for the same pattern and haystack. For the
/// table-name pattern, the `regex` crate's syntax (`^`/`$` anchor at the
/// ends of the haystack without multi-line mode, ASCII ranges in the
/// classes, `{0,62}` repeats) gives the answer: the pattern compiles and
/// matches exactly the names [`valid_table_name`] describes. Which haystacks
/// other patterns match is not stated.
#[verifier::external_body]
fn regex_search(pattern: &str, haystack: &str) -> (r: Option<bool>)
    ensures
        r == regex_search_result(pattern@, haystack@),
        pattern@ == TABLE_NAME_PATTERN@ ==> r == Some(valid_table_name(haystack@)),
{
    match regex::Regex::new(pattern) {
        Ok(re) => Some(re.is_match(haystack)),
        Err(_) => None,
    }
}

/// `format!("{s:?}")`: trusted to give the `Debug` rendering of `s`, a
/// function of its characters alone.
#[verifier::external_body]
fn debug_str(s: &str) -> (r: String)
    ensures
        r@ == debug_quoted(s@),
{
    format!("{s:?}")
}

/// The message of a rejected table name.
pub open spec fn invalid_name_message(name: Seq<char>) -> Seq<char> {
    "invalid table name: "@ + debug_quoted(name)
        + " \u{2014} must match [A-Za-z_][A-Za-z0-9_]{0,62}"@
}

/// The message of a vector whose length differs from the locked dimension.
pub open spec fn dimension_mismatch_message(expected: nat, got: nat) -> Seq<char> {
    "dimension mismatch: expected "@ + decimal(expected) + ", got "@ + decimal(got)
}

/// The message of a vector with a `NaN` or infinite element at `index`.
pub open spec fn non_finite_message(index: nat) -> Seq<char> {
    "NaN or Inf in vector at index "@ + decimal(index)
}

/// The adapter error for a vector of length `got` under dimension `expected`.
fn dimension_mismatch_error(expected: usize, got: usize) -> (r: BackendError)
    ensures
        is_adapter_error(r, dimension_mismatch_message(expected as nat, got as nat)),
{
    let mut msg = "dimension mismatch: expected ".to_owned();
    push_decimal(&mut msg, expected);
    msg.append(", got ");
    push_decimal(&mut msg, got);
    BackendError::Adapter(msg)
}

/// The adapter error for a non-finite element at `index`.
fn non_finite_error(index: usize) -> (r: BackendError)
    ensures
        is_adapter_error(r, non_finite_message(index as nat)),
{
    let mut msg = "NaN or Inf in vector at index ".to_owned();
    push_decimal(&mut msg, index);
    BackendError::Adapter(msg)
}

/// Position of the first length, from `k` on, that differs from `expected`.
pub open spec fn first_len_mismatch(lens: Seq<usize>, expected: usize, k: int) -> Option<int>
    decreases lens.len() - k,
{
    if k < 0 || k >= lens.len() {
        None
    } else if lens[k] != expected {
        Some(k)
    } else {
        first_len_mismatch(lens, expected, k + 1)
    }
}

/// Position of the first vector, from `k` on, that has a non-finite element.
pub open spec fn first_non_finite(non_finite: Seq<Option<usize>>, k: int) -> Option<int>
    decreases non_finite.len() - k,
{
    if k < 0 || k >= non_finite.len() {
        None
    } else if non_finite[k] is Some {
        Some(k)
    } else {
        first_non_finite(non_finite, k + 1)
    }
}

/// What storing vectors yields without a database connection, given the
/// locked dimension, the vectors' lengths and, for each vector, the index
/// of its first `NaN` or infinite element: nothing to do for no vectors;
/// otherwise the first length that breaks the dimension lock, then the
/// first non-finite element, and else the missing connection. `Err` holds
/// the adapter message.
pub open spec fn spec_ingest(
    dim: Option<usize>,
    lens: Seq<usize>,
    non_finite: Seq<Option<usize>>,
) -> Result<(), Seq<char>> {
    if lens.len() == 0 {
        Ok(())
    } else if dim matches Some(expected) && first_len_mismatch(lens, expected, 0) is Some {
        let k = first_len_mismatch(lens, dim->0, 0)->0;
        Err(dimension_mismatch_message(dim->0 as nat, lens[k] as nat))
    } else if first_non_finite(non_finite, 0) is Some {
        let k = first_non_finite(non_finite, 0)->0;
        Err(non_finite_message(non_finite[k]->0 as nat))
    } else {
        Err(LIVE_DB_REQUIRED@)
    }
}

proof fn lemma_first_len_mismatch_skip(lens: Seq<usize>, expected: usize, from: int, to: int)
    requires
        0 <= from <= to <= lens.len(),
        forall|i: int| from <= i < to ==> lens[i] == expected,
    ensures
        first_len_mismatch(lens, expected, from) == first_len_mismatch(lens, expected, to),
    decreases to - from,
{
    if from < to {
        lemma_first_len_mismatch_skip(lens, expected, from + 1, to);
    }
}

proof fn lemma_first_non_finite_skip(non_finite: Seq<Option<usize>>, from: int, to: int)
    requires
        0 <= from <= to <= non_finite.len(),
        forall|i: int| from <= i < to ==> non_finite[i] is None,
    ensures
        first_non_finite(non_finite, from) == first_non_finite(non_finite, to),
    decreases to - from,
{
    if from < to {
        lemma_first_non_finite_skip(non_finite, from + 1, to);
    }
}

/// The error carrying `msg` as an adapter message.
pub open spec fn is_adapter_error(e: BackendError, msg: Seq<char>) -> bool {
    e matches BackendError::Adapter(m) && m@ == msg
}

/// Wrap a message into `BackendError::Adapter`.
pub fn adapter_err(msg: &str) -> (r: BackendError)
    ensures
        is_adapter_error(r, msg@),
{
    BackendError::Adapter(msg.to_owned())
}

/// The verdict on a table name, given the allowlist matcher's answer for
/// it: accepted only when the pattern compiled and matched.
pub fn table_name_verdict(name: &str, matched: Option<bool>) -> (r: Result<(), BackendError>)
    ensures
        matched == Some(true) ==> r is Ok,
        matched != Some(true) ==> (r matches Err(e) && is_adapter_error(
            e,
            invalid_name_message(name@),
        )),
{
    if matched == Some(true) {
        Ok(())
    } else {
        let mut msg = "invalid table name: ".to_owned();
        let quoted = debug_str(name);
        msg.append(quoted.as_str());
        msg.append(" \u{2014} must match [A-Za-z_][A-Za-z0-9_]{0,62}");
        Err(BackendError::Adapter(msg))
    }
}

/// Validate a table name against the allowlist regex.
///
/// Returns `Err(BackendError::Adapter(...))` when the name does not match
/// `^[A-Za-z_][A-Za-z0-9_]{0,62}$`: characters outside `[A-Za-z0-9_]`, a
/// leading digit, or more than 63 characters.
pub fn validate_table_name(name: &str) -> (r: Result<(), BackendError>)
    ensures
        valid_table_name(name@) ==> r is Ok,
        !valid_table_name(name@) ==> (r matches Err(e)
            && is_adapter_error(e, invalid_name_message(name@))),
{
    let matched = regex_search(TABLE_NAME_PATTERN, name);
    table_name_verdict(name, matched)
}

/// A search backend that stores and queries vectors via pgvector.
///
/// Without a database connection every operation that would reach the
/// database returns `BackendError::Adapter` with [`LIVE_DB_REQUIRED`].
pub struct PgvectorAdapter {
    /// Validated table name (safe for SQL interpolation).
    table: String,
    /// Dimension of the vector column (`None` until schema is ensured).
    dim: Option<usize>,
}

impl View for PgvectorAdapter {
    /// The table name and the locked dimension.
    type V = (Seq<char>, Option<usize>);

    closed spec fn view(&self) -> (Seq<char>, Option<usize>) {
        (self.table@, self.dim)
    }
}

impl PgvectorAdapter {
    /// Create a new adapter for the given table, after validating its name.
    pub fn new(table: &str) -> (r: Result<Self, BackendError>)
        ensures
            valid_table_name(table@) ==> (r matches Ok(a)
                && a@ == (table@, None::<usize>)),
            !valid_table_name(table@) ==> (r matches Err(e)
                && is_adapter_error(e, invalid_name_message(table@))),
    {
        let table = table.to_owned();
        match validate_table_name(table.as_str()) {
            Ok(()) => Ok(PgvectorAdapter { table, dim: None }),
            Err(e) => Err(e),
        }
    }

    /// Create the `vector` extension and the vectors table; needs a live
    /// database, so it fails and changes nothing.
    pub fn ensure_schema(&mut self, dim: usize) -> (r: Result<(), BackendError>)
        ensures
            r matches Err(e) && is_adapter_error(e, LIVE_DB_REQUIRED@),
            final(self)@ == old(self)@,
    {
        Err(adapter_err(LIVE_DB_REQUIRED))
    }

    /// Create an approximate nearest-neighbour index on the embedding
    /// column; needs a live database, so it fails.
    pub fn ensure_index(&self, lists: u32) -> (r: Result<(), BackendError>)
        ensures
            r matches Err(e) && is_adapter_error(e, LIVE_DB_REQUIRED@),
    {
        Err(adapter_err(LIVE_DB_REQUIRED))
    }

    /// The table name used by this adapter.
    pub fn table(&self) -> (r: &str)
        ensures
            r@ == self@.0,
    {
        self.table.as_str()
    }

    /// The locked vector dimension, if the schema has been ensured.
    pub fn dim(&self) -> (r: Option<usize>)
        ensures
            r == self@.1,
    {
        self.dim
    }

    /// Number of stored vectors: none can be counted without a database.
    pub fn len(&self) -> (r: usize)
        ensures
            r == 0,
    {
        0
    }

    /// Store vectors, given each one's length and the index of its first
    /// `NaN` or infinite element, if any: the dimension lock and the wire
    /// encoding are checked before the database, which needs a live
    /// connection. The adapter is unchanged.
    pub fn ingest(&mut self, lens: &[usize], first_non_finite_index: &[Option<usize>]) -> (r: Result<
        (),
        BackendError,
    >)
        requires
            lens@.len() == first_non_finite_index@.len(),
        ensures
            final(self)@ == old(self)@,
            match spec_ingest(old(self)@.1, lens@, first_non_finite_index@) {
                Ok(()) => r is Ok,
                Err(msg) => r matches Err(e) && is_adapter_error(e, msg),
            },
    {
        let n = lens.len();
        if n == 0 {
            return Ok(());
        }
        if let Some(expected) = self.dim {
            let mut k: usize = 0;
            while k < n
                invariant
                    n == lens@.len(),
                    0 <= k <= n,
                    forall|i: int| 0 <= i < k ==> lens@[i] == expected,
                    self@ == old(self)@,
                    old(self)@.1 == Some(expected),
                decreases n - k,
            {
                if lens[k] != expected {
                    proof {
                        lemma_first_len_mismatch_skip(lens@, expected, 0, k as int);
                    }
                    return Err(dimension_mismatch_error(expected, lens[k]));
                }
                k = k + 1;
            }
            proof {
                lemma_first_len_mismatch_skip(lens@, expected, 0, n as int);
            }
        }
        let mut k: usize = 0;
        while k < n
            invariant
                n == first_non_finite_index@.len(),
                n == lens@.len(),
                n > 0,
                0 <= k <= n,
                forall|i: int| 0 <= i < k ==> first_non_finite_index@[i] is None,
                self@ == old(self)@,
                old(self)@.1 matches Some(expected) ==> first_len_mismatch(lens@, expected, 0) is None,
            decreases n - k,
        {
            if let Some(index) = first_non_finite_index[k] {
                proof {
                    lemma_first_non_finite_skip(first_non_finite_index@, 0, k as int);
                }
                return Err(non_finite_error(index));
            }
            k = k + 1;
        }
        proof {
            lemma_first_non_finite_skip(first_non_finite_index@, 0, n as int);
        }
        Err(adapter_err(LIVE_DB_REQUIRED))
    }

    /// Search for the `top_k` nearest vectors to a query, given the index of
    /// its first `NaN` or infinite element, if any: a zero `top_k` is
    /// rejected, then a non-finite query; otherwise it needs a live
    /// database and fails, so no search without one yields results.
    pub fn search(&self, top_k: usize, first_non_finite_index: Option<usize>) -> (r: Result<
        (),
        BackendError,
    >)
        ensures
            top_k == 0 ==> r == Err::<(), BackendError>(BackendError::InvalidTopK),
            top_k != 0 && first_non_finite_index is Some ==> (r matches Err(e) && is_adapter_error(
                e,
                non_finite_message(first_non_finite_index->0 as nat),
            )),
            top_k != 0 && first_non_finite_index is None ==> (r matches Err(e) && is_adapter_error(
                e,
                LIVE_DB_REQUIRED@,
            )),
    {
        if top_k == 0 {
            return Err(BackendError::InvalidTopK);
        }
        if let Some(index) = first_non_finite_index {
            return Err(non_finite_error(index));
        }
        Err(adapter_err(LIVE_DB_REQUIRED))
    }

    /// Remove vectors by id: nothing to do for no ids, otherwise it needs a
    /// live database and fails. The adapter is unchanged either way.
    pub fn remove(&mut self, vector_ids: &[String]) -> (r: Result<(), BackendError>)
        ensures
            vector_ids@.len() == 0 ==> r is Ok,
            vector_ids@.len() != 0 ==> (r matches Err(e) && is_adapter_error(
                e,
                LIVE_DB_REQUIRED@,
            )),
            final(self)@ == old(self)@,
    {
        if vector_ids.len() == 0 {
            return Ok(());
        }
        Err(adapter_err(LIVE_DB_REQUIRED))
    }
}

} // verus!
