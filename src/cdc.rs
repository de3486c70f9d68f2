use vstd::prelude::*;
use crate::messages::{DatabaseChange, Operation};

verus! {

pub const LOG_TABLE_HEAD: &'static str = "CREATE TABLE IF NOT EXISTS ";

pub const LOG_TABLE_TAIL: &'static str = ".sync_change_log (id BIGSERIAL PRIMARY KEY, table_name VARCHAR(255) NOT NULL, operation VARCHAR(10) NOT NULL, primary_key JSONB NOT NULL, row_data JSONB NOT NULL, changed_at TIMESTAMP WITH TIME ZONE NOT NULL DEFAULT NOW(), synced BOOLEAN NOT NULL DEFAULT FALSE, branch_id VARCHAR(255) NOT NULL)";

pub const FUNCTION_HEAD: &'static str = "CREATE OR REPLACE FUNCTION ";

pub const FUNCTION_INSERT_INTO: &'static str = ".log_changes() RETURNS TRIGGER AS $$ BEGIN IF TG_OP = 'INSERT' THEN INSERT INTO ";

pub const FUNCTION_NEW_ROW: &'static str = ".sync_change_log (table_name, operation, primary_key, row_data, branch_id) VALUES (TG_TABLE_NAME, TG_OP, row_to_json(NEW)->'id', row_to_json(NEW), current_setting('app.branch_id', true)); RETURN NEW; ELSIF TG_OP = 'UPDATE' THEN INSERT INTO ";

pub const FUNCTION_OLD_ROW: &'static str = ".sync_change_log (table_name, operation, primary_key, row_data, branch_id) VALUES (TG_TABLE_NAME, TG_OP, row_to_json(NEW)->'id', row_to_json(NEW), current_setting('app.branch_id', true)); RETURN NEW; ELSIF TG_OP = 'DELETE' THEN INSERT INTO ";

pub const FUNCTION_TAIL: &'static str = ".sync_change_log (table_name, operation, primary_key, row_data, branch_id) VALUES (TG_TABLE_NAME, TG_OP, row_to_json(OLD)->'id', row_to_json(OLD), current_setting('app.branch_id', true)); RETURN OLD; END IF; END; $$ LANGUAGE plpgsql";

pub const DROP_TRIGGER_HEAD: &'static str = "DROP TRIGGER IF EXISTS sync_trigger ON ";

pub const CREATE_TRIGGER_HEAD: &'static str = "CREATE TRIGGER sync_trigger AFTER INSERT OR UPDATE OR DELETE ON ";

pub const CREATE_TRIGGER_EXECUTE: &'static str = " FOR EACH ROW EXECUTE FUNCTION ";

pub const CREATE_TRIGGER_TAIL: &'static str = ".log_changes()";

pub const FETCH_HEAD: &'static str = "SELECT id, table_name, operation, primary_key::text, row_data::text, changed_at FROM ";

pub const FETCH_TAIL: &'static str = ".sync_change_log WHERE synced = FALSE ORDER BY id LIMIT $1";

pub const MARK_HEAD: &'static str = "UPDATE ";

pub const MARK_TAIL: &'static str = ".sync_change_log SET synced = TRUE WHERE id = ANY($1)";

/// `schema.table`.
pub open spec fn qualified_table(schema: Seq<char>, table: Seq<char>) -> Seq<char> {
    schema + "."@ + table
}

/// Creates, when missing, the append-only change log of `schema`.
pub fn create_log_table_sql(schema: &str) -> (r: String)
    ensures
        r@ == LOG_TABLE_HEAD@ + schema@ + LOG_TABLE_TAIL@,
{
    let mut s = String::from_str(LOG_TABLE_HEAD);
    s.append(schema);
    s.append(LOG_TABLE_TAIL);
    s
}

/// Creates or replaces the row-level trigger function that appends one log row per
/// inserted, updated or deleted row, tagged with the session's branch id.
pub fn trigger_function_sql(schema: &str) -> (r: String)
    ensures
        r@ == FUNCTION_HEAD@ + schema@ + FUNCTION_INSERT_INTO@ + schema@ + FUNCTION_NEW_ROW@ + schema@
            + FUNCTION_OLD_ROW@ + schema@ + FUNCTION_TAIL@,
{
    let mut s = String::from_str(FUNCTION_HEAD);
    s.append(schema);
    s.append(FUNCTION_INSERT_INTO);
    s.append(schema);
    s.append(FUNCTION_NEW_ROW);
    s.append(schema);
    s.append(FUNCTION_OLD_ROW);
    s.append(schema);
    s.append(FUNCTION_TAIL);
    s
}

fn qualified(schema: &str, table: &str) -> (r: String)
    ensures
        r@ == qualified_table(schema@, table@),
{
    let mut s = String::from_str(schema);
    s.append(".");
    s.append(table);
    s
}

/// Drops the capture trigger of `schema.table`, so that installing it again is harmless.
pub fn drop_trigger_sql(schema: &str, table: &str) -> (r: String)
    ensures
        r@ == DROP_TRIGGER_HEAD@ + qualified_table(schema@, table@),
{
    let mut s = String::from_str(DROP_TRIGGER_HEAD);
    let q = qualified(schema, table);
    s.append(q.as_str());
    s
}

/// Installs the capture trigger on `schema.table`.
pub fn create_trigger_sql(schema: &str, table: &str) -> (r: String)
    ensures
        r@ == CREATE_TRIGGER_HEAD@ + qualified_table(schema@, table@) + CREATE_TRIGGER_EXECUTE@
            + schema@ + CREATE_TRIGGER_TAIL@,
{
    let mut s = String::from_str(CREATE_TRIGGER_HEAD);
    let q = qualified(schema, table);
    s.append(q.as_str());
    s.append(CREATE_TRIGGER_EXECUTE);
    s.append(schema);
    s.append(CREATE_TRIGGER_TAIL);
    s
}

/// Statements `2 + 2 * k` and `3 + 2 * k` of `out` replace the capture trigger of table `k`.
pub open spec fn install_pair(out: Seq<String>, schema: Seq<char>, tables: Seq<String>, k: int) -> bool {
    &&& out[2 + 2 * k]@ == DROP_TRIGGER_HEAD@ + qualified_table(schema, tables[k]@)
    &&& out[3 + 2 * k]@ == CREATE_TRIGGER_HEAD@ + qualified_table(schema, tables[k]@)
        + CREATE_TRIGGER_EXECUTE@ + schema + CREATE_TRIGGER_TAIL@
}

/// The statements that install change capture on `schema` for the tracked tables, in
/// the order they run: the log table, the trigger function, then for each table the
/// removal of an old trigger and the creation of the new one.
pub fn install_statements(schema: &str, tables: &Vec<String>) -> (r: Vec<String>)
    ensures
        r@.len() == 2 + 2 * tables@.len(),
        r@[0]@ == LOG_TABLE_HEAD@ + schema@ + LOG_TABLE_TAIL@,
        r@[1]@ == FUNCTION_HEAD@ + schema@ + FUNCTION_INSERT_INTO@ + schema@ + FUNCTION_NEW_ROW@
            + schema@ + FUNCTION_OLD_ROW@ + schema@ + FUNCTION_TAIL@,
        forall|i: int| 0 <= i < tables@.len() ==> #[trigger] install_pair(r@, schema@, tables@, i),
{
    let mut out: Vec<String> = Vec::new();
    out.push(create_log_table_sql(schema));
    out.push(trigger_function_sql(schema));
    let mut i: usize = 0;
    while i < tables.len()
        invariant
            i <= tables@.len(),
            out@.len() == 2 + 2 * i,
            out@[0]@ == LOG_TABLE_HEAD@ + schema@ + LOG_TABLE_TAIL@,
            out@[1]@ == FUNCTION_HEAD@ + schema@ + FUNCTION_INSERT_INTO@ + schema@ + FUNCTION_NEW_ROW@
                + schema@ + FUNCTION_OLD_ROW@ + schema@ + FUNCTION_TAIL@,
            forall|k: int| 0 <= k < i ==> #[trigger] install_pair(out@, schema@, tables@, k),
        decreases tables@.len() - i,
    {
        let ghost prev = out@;
        let d = drop_trigger_sql(schema, tables[i].as_str());
        let c = create_trigger_sql(schema, tables[i].as_str());
        out.push(d);
        out.push(c);
        proof {
            assert forall|k: int| 0 <= k < i + 1 implies install_pair(out@, schema@, tables@, k) by {
                if k < i {
                    assert(out@[2 + 2 * k] == prev[2 + 2 * k]);
                    assert(out@[3 + 2 * k] == prev[3 + 2 * k]);
                    assert(install_pair(prev, schema@, tables@, k));
                }
            }
        }
        i = i + 1;
    }
    out
}

/// Selects up to `$1` unsynced change-log entries of `schema`, oldest id first.
pub fn fetch_pending_sql(schema: &str) -> (r: String)
    ensures
        r@ == FETCH_HEAD@ + schema@ + FETCH_TAIL@,
{
    let mut s = String::from_str(FETCH_HEAD);
    s.append(schema);
    s.append(FETCH_TAIL);
    s
}

/// Flags the change-log entries whose ids are in `$1` as synced.
pub fn mark_synced_sql(schema: &str) -> (r: String)
    ensures
        r@ == MARK_HEAD@ + schema@ + MARK_TAIL@,
{
    let mut s = String::from_str(MARK_HEAD);
    s.append(schema);
    s.append(MARK_TAIL);
    s
}

pub const APPLY_INSERT_HEAD: &'static str = "INSERT INTO ";

pub const APPLY_INSERT_MID: &'static str = " SELECT * FROM jsonb_populate_record(NULL::";

pub const APPLY_INSERT_TAIL: &'static str = ", $1) ON CONFLICT DO NOTHING";

pub const APPLY_DELETE_HEAD: &'static str = "DELETE FROM ";

pub const APPLY_DELETE_TAIL: &'static str = " WHERE to_jsonb(id) = $1";

/// Which value of a change a statement binds to `$1`.
#[derive(Debug, Clone, Copy, PartialEq, Eq, Structural)]
pub enum BoundValue {
    /// The change's primary key (JSON).
    PrimaryKey,
    /// The change's row data (JSON).
    RowData,
}

/// Inserts the row held in `$1` into `schema.table`, leaving an existing row alone.
pub open spec fn insert_row_text(schema: Seq<char>, table: Seq<char>) -> Seq<char> {
    APPLY_INSERT_HEAD@ + qualified_table(schema, table) + APPLY_INSERT_MID@ + qualified_table(
        schema,
        table,
    ) + APPLY_INSERT_TAIL@
}

/// Deletes the row of `schema.table` whose key is `$1`.
pub open spec fn delete_row_text(schema: Seq<char>, table: Seq<char>) -> Seq<char> {
    APPLY_DELETE_HEAD@ + qualified_table(schema, table) + APPLY_DELETE_TAIL@
}

fn insert_row_sql(schema: &str, table: &str) -> (r: String)
    ensures
        r@ == insert_row_text(schema@, table@),
{
    let q = qualified(schema, table);
    let mut s = String::from_str(APPLY_INSERT_HEAD);
    s.append(q.as_str());
    s.append(APPLY_INSERT_MID);
    s.append(q.as_str());
    s.append(APPLY_INSERT_TAIL);
    s
}

fn delete_row_sql(schema: &str, table: &str) -> (r: String)
    ensures
        r@ == delete_row_text(schema@, table@),
{
    let q = qualified(schema, table);
    let mut s = String::from_str(APPLY_DELETE_HEAD);
    s.append(q.as_str());
    s.append(APPLY_DELETE_TAIL);
    s
}

/// The statements that apply a received change to `schema`, in order, each with the
/// value it binds: an insert adds the row unless its key exists; an update replaces the
/// row with that key; a delete removes it.
pub fn apply_change_sql(schema: &str, change: &DatabaseChange) -> (r: Vec<(String, BoundValue)>)
    ensures
        change.operation == Operation::Insert ==> r@.len() == 1 && r@[0].0@ == insert_row_text(
            schema@,
            change.table_name@,
        ) && r@[0].1 == BoundValue::RowData,
        change.operation == Operation::Update ==> r@.len() == 2 && r@[0].0@ == delete_row_text(
            schema@,
            change.table_name@,
        ) && r@[0].1 == BoundValue::PrimaryKey && r@[1].0@ == insert_row_text(
            schema@,
            change.table_name@,
        ) && r@[1].1 == BoundValue::RowData,
        change.operation == Operation::Delete ==> r@.len() == 1 && r@[0].0@ == delete_row_text(
            schema@,
            change.table_name@,
        ) && r@[0].1 == BoundValue::PrimaryKey,
{
    let table = change.table_name.as_str();
    let mut out: Vec<(String, BoundValue)> = Vec::new();
    match change.operation {
        Operation::Insert => {
            out.push((insert_row_sql(schema, table), BoundValue::RowData));
        },
        Operation::Update => {
            out.push((delete_row_sql(schema, table), BoundValue::PrimaryKey));
            out.push((insert_row_sql(schema, table), BoundValue::RowData));
        },
        Operation::Delete => {
            out.push((delete_row_sql(schema, table), BoundValue::PrimaryKey));
        },
    }
    out
}

} // verus!
