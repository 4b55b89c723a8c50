use sqlite_statement::catalog::ColumnCatalog;
use sqlite_statement::engine::{prepare_flags, succeeded};
use sqlite_statement::error::{Diagnostic, Error};
use sqlite_statement::source::Batch;
use sqlite_statement::statement::{
    BindOffer, BindProgress, Column, Compiled, Phase, Statement, StatementHandle, Step, StepReply,
};

fn no_error() -> Diagnostic {
    Diagnostic { code: 0, message: String::from("not an error") }
}

fn fault(code: i32, message: &str) -> Diagnostic {
    Diagnostic { code, message: String::from(message) }
}

fn column(name: &str, declared_type: Option<&str>) -> Column {
    Column { name: String::from(name), declared_type: declared_type.map(String::from) }
}

fn compiled(address: usize, tail: usize, parameters: usize, columns: Vec<Column>) -> Compiled {
    let handle = StatementHandle::new(address).expect("a statement handle is never null");
    Compiled { handle, tail, parameters, columns }
}

fn compile_next(batch: &mut Batch, report: Compiled) -> Statement {
    assert!(batch.tail_is_valid(report.tail));
    Statement::new(batch, 0, no_error(), Some(report)).expect("the engine reported success")
}

fn compile_ok(source: &str, report: Compiled) -> (Statement, &str) {
    let mut batch = Batch::new(source);
    let statement = compile_next(&mut batch, report);
    (statement, batch.text())
}

fn accepted() -> BindOffer {
    BindOffer::Answered { status: 0, diagnostic: no_error() }
}

fn next(index: usize) -> BindProgress {
    BindProgress::Next { index }
}

fn finished() -> BindProgress {
    BindProgress::Finished(Ok(()))
}

/// One bind call as a caller makes it: a value is taken only when the
/// progress names a slot. Gives the result, the slots in the order in which
/// values went to them, and the values that were not taken.
fn bind_values(
    statement: &mut Statement,
    values: &[i32],
    rejected: Option<i32>,
) -> (Result<(), Error>, Vec<usize>, Vec<i32>) {
    let mut values = values.iter();
    let mut slots = Vec::new();
    let mut progress = statement.begin_bind();
    loop {
        match progress {
            BindProgress::Finished(result) => {
                return (result, slots, values.copied().collect());
            }
            BindProgress::Next { index } => {
                progress = match values.next() {
                    Some(value) => {
                        slots.push(index);
                        if Some(*value) == rejected {
                            let diagnostic = fault(20, "datatype mismatch");
                            statement.bind(BindOffer::Answered { status: 20, diagnostic })
                        } else {
                            statement.bind(accepted())
                        }
                    }
                    None => statement.bind(BindOffer::Exhausted),
                };
            }
        }
    }
}

fn status(status: i32) -> StepReply {
    StepReply::Status { status, diagnostic: no_error() }
}

#[test]
fn flags_always_refuse_virtual_tables() {
    assert_eq!(prepare_flags(false), 4);
    assert_eq!(prepare_flags(true), 5);
}

#[test]
fn only_status_zero_is_success() {
    assert!(succeeded(0));
    assert!(!succeeded(1));
    assert!(!succeeded(100));
    assert!(!succeeded(101));
    assert!(!succeeded(-1));
}

#[test]
fn null_is_no_handle() {
    assert!(StatementHandle::new(0).is_none());
    let handle = StatementHandle::new(4096).unwrap();
    assert_eq!(handle.address(), 4096);
}

#[test]
fn single_statement_leaves_nothing() {
    let source = "SELECT id, name FROM t;";
    let (statement, rest) = compile_ok(source, compiled(8, source.len(), 0, vec![]));
    assert_eq!(statement.tail(), source.len());
    assert_eq!(rest, "");
}

#[test]
fn batch_is_split_one_statement_at_a_time() {
    let source = "SELECT 1;SELECT 2;";
    let mut batch = Batch::new(source);
    assert_eq!(batch.position(), 0);
    let first = compile_next(&mut batch, compiled(8, 9, 0, vec![column("1", None)]));
    assert_eq!(first.tail(), 9);
    assert_eq!(batch.text(), "SELECT 2;");
    assert_eq!(batch.position(), 9);

    let second = compile_next(&mut batch, compiled(16, 9, 0, vec![column("2", None)]));
    assert_eq!(second.tail(), source.len());
    assert_eq!(batch.text(), "");
    assert_eq!(batch.position(), source.len());
    assert!(first.tail() < second.tail());
}

#[test]
fn tails_are_offsets_into_the_whole_batch() {
    let source = "  SELECT 1; \n SELECT 2;\u{3000}SELECT 'caf\u{e9}';  ";
    let mut batch = Batch::new(source);
    // the engine skips the white space before a statement itself
    let first = compile_next(&mut batch, compiled(8, 11, 0, vec![]));
    assert_eq!(first.tail(), 11);
    assert_eq!(batch.position(), 14);
    assert_eq!(batch.text(), &source[14..]);
    let second = compile_next(&mut batch, compiled(16, 9, 0, vec![]));
    assert_eq!(second.tail(), 23);
    assert_eq!(batch.position(), 26);
    let third = compile_next(&mut batch, compiled(24, 15, 0, vec![]));
    assert_eq!(third.tail(), 41);
    assert_eq!(batch.text(), "");
    assert_eq!(batch.position(), source.len());
    assert!(first.tail() < second.tail() && second.tail() < third.tail());
    assert!(third.tail() <= source.len());
}

#[test]
fn white_space_between_statements_is_skipped() {
    let source = "SELECT 1; \n\t SELECT 2;  ";
    let (_, rest) = compile_ok(source, compiled(8, 9, 0, vec![]));
    assert_eq!(rest, "SELECT 2;  ");
}

#[test]
fn rejected_source_is_a_compile_error() {
    let diagnostic = fault(1, "near \"SELEC\": syntax error");
    let mut batch = Batch::new("SELECT 1; SELEC 1;");
    let _ = compile_next(&mut batch, compiled(8, 9, 0, vec![]));
    let result = Statement::new(&mut batch, 1, diagnostic.clone(), None);
    assert_eq!(result.err(), Some(Error::Compile(diagnostic)));
    // the batch stays where it was
    assert_eq!(batch.text(), "SELEC 1;");
    assert_eq!(batch.position(), 10);
}

#[test]
fn select_id_name_scenario() {
    let source = "SELECT id, name FROM t;";
    let columns = vec![column("id", Some("INTEGER")), column("name", Some("TEXT"))];
    let (mut statement, rest) = compile_ok(source, compiled(8, source.len(), 0, columns));
    assert_eq!(rest, "");
    assert_eq!(statement.params(), 0);
    assert_eq!(statement.column_count(), 2);
    assert_eq!(statement.column_name(0), "id");
    assert_eq!(statement.column_name(1), "name");
    assert_eq!(statement.column_decltype(0), Some("INTEGER"));
    assert_eq!(statement.column_decltype(1), Some("TEXT"));
    assert_eq!(statement.columns().index_of("id"), Some(0));
    assert_eq!(statement.columns().index_of("name"), Some(1));
    assert_eq!(statement.columns().index_of("age"), None);
    assert_eq!(statement.next_parameter(), None);
    assert_eq!(statement.begin_bind(), finished());
    assert_eq!(bind_values(&mut statement, &[1, 2], None), (Ok(()), vec![], vec![1, 2]));

    // a table of three rows
    for _ in 0..3 {
        assert_eq!(statement.step(status(100)), Ok(Step::Row));
        assert_eq!(statement.phase(), Phase::Row);
        assert_eq!(statement.data_count(2), Some(2));
    }
    assert_eq!(statement.step(status(101)), Ok(Step::Done));
    assert_eq!(statement.phase(), Phase::Finished);
    assert_eq!(statement.data_count(0), None);
}

#[test]
fn expression_column_has_no_declared_type() {
    let (statement, _) = compile_ok("SELECT 1;", compiled(8, 9, 0, vec![column("1", None)]));
    assert_eq!(statement.column_decltype(0), None);
}

#[test]
fn no_declared_type_behind_the_last_column() {
    let columns = vec![column("id", Some("INTEGER")), column("name", Some("TEXT"))];
    let (statement, _) = compile_ok("SELECT id, name FROM t;", compiled(8, 23, 0, columns));
    assert_eq!(statement.column_decltype(1), Some("TEXT"));
    assert_eq!(statement.column_decltype(2), None);
    assert_eq!(statement.column_decltype(usize::MAX), None);
}

#[test]
fn later_column_wins_a_shared_name() {
    let columns = vec![column("id", None), column("name", None), column("id", None)];
    let (statement, _) = compile_ok("SELECT a.id, name, b.id FROM a, b;", compiled(8, 34, 0, columns));
    assert_eq!(statement.column_count(), 3);
    assert_eq!(statement.columns().len(), 3);
    assert_eq!(statement.columns().index_of("id"), Some(2));
    assert_eq!(statement.columns().index_of("name"), Some(1));
}

#[test]
fn catalog_grows_by_one_index_per_column() {
    let mut catalog = ColumnCatalog::new();
    assert_eq!(catalog.len(), 0);
    assert_eq!(catalog.index_of("a"), None);
    assert_eq!(catalog.push(String::from("a")), 0);
    assert_eq!(catalog.push(String::from("b")), 1);
    assert_eq!(catalog.push(String::from("a")), 2);
    assert_eq!(catalog.len(), 3);
    assert_eq!(catalog.name(0), "a");
    assert_eq!(catalog.name(1), "b");
    assert_eq!(catalog.index_of("a"), Some(2));
    assert_eq!(catalog.index_of("b"), Some(1));
    assert_eq!(catalog.index_of(""), None);
}

#[test]
fn slots_are_bound_from_the_first_on() {
    let (mut statement, _) = compile_ok("SELECT ?, ?, ?;", compiled(8, 15, 3, vec![]));
    assert_eq!(statement.params(), 3);
    assert_eq!(statement.begin_bind(), next(1));
    assert_eq!(statement.next_parameter(), Some(1));
    assert_eq!(statement.bind(accepted()), next(2));
    assert_eq!(statement.next_parameter(), Some(2));
    assert_eq!(statement.bind(accepted()), next(3));
    assert_eq!(statement.next_parameter(), Some(3));
    assert_eq!(statement.bind(accepted()), finished());
    assert_eq!(statement.next_parameter(), None);
    assert_eq!(statement.params(), 3);
}

#[test]
fn fewer_values_than_slots_is_no_error() {
    let (mut statement, _) = compile_ok("SELECT ?, ?, ?;", compiled(8, 15, 3, vec![]));
    assert_eq!(bind_values(&mut statement, &[10, 20], None), (Ok(()), vec![1, 2], vec![]));
    assert_eq!(statement.next_parameter(), Some(3));
    assert_eq!(statement.step(status(100)), Ok(Step::Row));
    assert_eq!(statement.step(status(101)), Ok(Step::Done));
}

#[test]
fn no_values_at_all_is_no_error() {
    let (mut statement, _) = compile_ok("SELECT ?, ?;", compiled(8, 12, 2, vec![]));
    assert_eq!(statement.begin_bind(), next(1));
    assert_eq!(statement.bind(BindOffer::Exhausted), finished());
    assert_eq!(statement.next_parameter(), Some(1));
}

#[test]
fn more_values_than_slots_stay_untaken() {
    let (mut statement, _) = compile_ok("SELECT ?, ?;", compiled(8, 12, 2, vec![]));
    assert_eq!(
        bind_values(&mut statement, &[10, 20, 30, 40], None),
        (Ok(()), vec![1, 2], vec![30, 40])
    );
}

#[test]
fn every_bind_call_starts_at_the_first_slot() {
    let (mut statement, _) = compile_ok("SELECT ?, ?;", compiled(8, 12, 2, vec![]));
    assert_eq!(bind_values(&mut statement, &[10], None), (Ok(()), vec![1], vec![]));
    // a second call before any step: its first value goes to slot 1 again
    assert_eq!(bind_values(&mut statement, &[11], None), (Ok(()), vec![1], vec![]));
    // with every slot bound, a further call still takes its values
    assert_eq!(bind_values(&mut statement, &[12, 13], None), (Ok(()), vec![1, 2], vec![]));
    assert_eq!(bind_values(&mut statement, &[14, 15, 16], None), (Ok(()), vec![1, 2], vec![16]));
}

#[test]
fn rejected_value_is_a_bind_error_at_its_index() {
    let (mut statement, _) = compile_ok("SELECT ?, ?;", compiled(8, 12, 2, vec![]));
    assert_eq!(statement.begin_bind(), next(1));
    assert_eq!(statement.bind(accepted()), next(2));
    let diagnostic = fault(25, "column index out of range");
    assert_eq!(
        statement.bind(BindOffer::Answered { status: 25, diagnostic: diagnostic.clone() }),
        BindProgress::Finished(Err(Error::Bind { index: 2, diagnostic }))
    );
    // the first slot stays bound, the second is still the next one
    assert_eq!(statement.next_parameter(), Some(2));
}

#[test]
fn rejected_value_ends_the_call_at_its_position() {
    let (mut statement, _) = compile_ok("SELECT ?, ?, ?;", compiled(8, 15, 3, vec![]));
    assert_eq!(bind_values(&mut statement, &[1, 2, 3], None), (Ok(()), vec![1, 2, 3], vec![]));
    let error = Error::Bind { index: 2, diagnostic: fault(20, "datatype mismatch") };
    assert_eq!(
        bind_values(&mut statement, &[4, 5, 6], Some(5)),
        (Err(error), vec![1, 2], vec![6])
    );
    let error = Error::Bind { index: 1, diagnostic: fault(20, "datatype mismatch") };
    assert_eq!(bind_values(&mut statement, &[7, 8], Some(7)), (Err(error), vec![1], vec![8]));
}

#[test]
fn other_status_is_a_step_error() {
    let (mut statement, _) = compile_ok("INSERT INTO t VALUES (1);", compiled(8, 25, 0, vec![]));
    let diagnostic = fault(19, "UNIQUE constraint failed: t.id");
    let reply = StepReply::Status { status: 19, diagnostic: diagnostic.clone() };
    assert_eq!(statement.step(reply), Err(Error::Step(diagnostic)));
    assert_eq!(statement.phase(), Phase::Finished);
    let reply = StepReply::Status { status: 0, diagnostic: no_error() };
    assert_eq!(statement.step(reply), Err(Error::Step(no_error())));
}

#[test]
fn step_without_worker_changes_nothing() {
    let (mut statement, _) = compile_ok("SELECT 1;", compiled(8, 9, 0, vec![]));
    assert_eq!(statement.step(status(100)), Ok(Step::Row));
    assert_eq!(statement.step(StepReply::WorkerUnavailable), Err(Error::WorkerUnavailable));
    assert_eq!(statement.phase(), Phase::Row);
}

#[test]
fn reset_makes_the_statement_as_compiled() {
    let columns = vec![column("id", Some("INTEGER"))];
    let (mut statement, _) = compile_ok("SELECT id FROM t WHERE id > ?;", compiled(8, 30, 1, columns));
    for _ in 0..4 {
        assert_eq!(statement.phase(), Phase::Ready);
        assert_eq!(statement.begin_bind(), next(1));
        assert_eq!(statement.bind(accepted()), finished());
        assert_eq!(statement.next_parameter(), None);
        assert_eq!(statement.step(status(100)), Ok(Step::Row));
        assert_eq!(statement.step(status(100)), Ok(Step::Row));
        assert_eq!(statement.step(status(101)), Ok(Step::Done));
        statement.reset();
        assert_eq!(statement.tail(), 30);
        assert_eq!(statement.params(), 1);
        assert_eq!(statement.column_count(), 1);
        assert_eq!(statement.column_name(0), "id");
        assert_eq!(statement.columns().index_of("id"), Some(0));
        assert_eq!(statement.handle().address(), 8);
    }
}

fn released_once(mut statement: Statement) {
    assert!(statement.is_live());
    let handle = statement.release().expect("the first release hands out the handle");
    assert_eq!(handle.address(), 8);
    assert_eq!(statement.phase(), Phase::Released);
    assert!(!statement.is_live());
    assert!(statement.release().is_none());
    assert!(statement.release().is_none());
    assert_eq!(statement.phase(), Phase::Released);
}

#[test]
fn release_after_compile_only() {
    let (statement, _) = compile_ok("SELECT ?;", compiled(8, 9, 1, vec![]));
    released_once(statement);
}

#[test]
fn release_after_bind_only() {
    let (mut statement, _) = compile_ok("SELECT ?;", compiled(8, 9, 1, vec![]));
    assert_eq!(statement.begin_bind(), next(1));
    assert_eq!(statement.bind(accepted()), finished());
    released_once(statement);
}

#[test]
fn release_in_the_middle_of_the_rows() {
    let (mut statement, _) = compile_ok("SELECT ?;", compiled(8, 9, 1, vec![]));
    assert_eq!(statement.step(status(100)), Ok(Step::Row));
    released_once(statement);
}

#[test]
fn release_after_done() {
    let (mut statement, _) = compile_ok("SELECT ?;", compiled(8, 9, 1, vec![]));
    assert_eq!(statement.step(status(100)), Ok(Step::Row));
    assert_eq!(statement.step(status(101)), Ok(Step::Done));
    released_once(statement);
}
