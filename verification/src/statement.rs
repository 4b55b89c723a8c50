//! A compiled statement and the protocol by which it is bound, stepped,
//! reused and released.
//!
//! The engine is called from outside. Each method here takes what the engine
//! answered and decides what that means: the result for the caller and the
//! state the statement is in afterwards.

use vstd::prelude::*;
use crate::catalog::{name_map, ColumnCatalog};
use crate::engine::{
    spec_status_done, spec_status_ok, spec_status_row, status_done, status_row, succeeded,
};
use crate::error::{Diagnostic, Error};
use crate::source::{remainder_offset, spec_remainder, valid_tail, Batch};

verus! {

/// What a step yields.
#[derive(Debug, Clone, Copy, PartialEq, Eq, Structural)]
pub enum Step {
    /// The statement has finished executing.
    Done,
    /// Another row of output is available.
    Row,
}

/// Where a statement stands in its life.
#[derive(Debug, Clone, Copy, PartialEq, Eq, Structural)]
pub enum Phase {
    /// Compiled or reset: values may be bound, no step has been taken.
    Ready,
    /// The last step made a row available.
    Row,
    /// Execution has ended, with the last row read or with a fault.
    Finished,
    /// The native statement has been given back. Nothing is valid any more.
    Released,
}

/// The reference to the engine's compiled statement. It is never null, and
/// there is one owner: it cannot be copied.
#[derive(Debug)]
pub struct StatementHandle {
    address: usize,
}

impl StatementHandle {
    #[verifier::type_invariant]
    spec fn non_null(&self) -> bool {
        self.address != 0
    }

    /// The address that the handle refers to.
    pub closed spec fn spec_address(&self) -> usize {
        self.address
    }

    /// A handle for the statement at `address`, unless the address is null.
    pub fn new(address: usize) -> (handle: Option<StatementHandle>)
        ensures
            address == 0 ==> handle is None,
            address != 0 ==> handle is Some && handle.unwrap().spec_address() == address,
    {
        if address == 0 {
            None
        } else {
            Some(StatementHandle { address })
        }
    }

    /// The address to hand to the engine.
    pub fn address(&self) -> (address: usize)
        ensures
            address == self.spec_address(),
            address != 0,
    {
        proof {
            use_type_invariant(self);
        }
        self.address
    }
}

/// One result column as the engine reports it after compiling.
#[derive(Debug, Clone, PartialEq, Eq)]
pub struct Column {
    pub name: String,
    pub declared_type: Option<String>,
}

/// What the engine reports of a statement it has compiled.
#[derive(Debug)]
pub struct Compiled {
    pub handle: StatementHandle,
    /// The byte offset in the source text of the first byte behind the statement.
    pub tail: usize,
    /// The number of parameter slots.
    pub parameters: usize,
    pub columns: Vec<Column>,
}

/// What came back for a step that was handed to the connection's worker.
#[derive(Debug, Clone, PartialEq, Eq)]
pub enum StepReply {
    /// The engine's status, and the connection's diagnostic read right after it.
    Status { status: i32, diagnostic: Diagnostic },
    /// The worker is gone: the step never ran.
    WorkerUnavailable,
}

impl StepReply {
    /// The engine's status, if the step ran.
    pub open spec fn status(&self) -> Option<i32> {
        match *self {
            StepReply::Status { status, .. } => Some(status),
            StepReply::WorkerUnavailable => None,
        }
    }
}

/// What came of offering the next value to the slot whose turn it is.
#[derive(Debug, Clone, PartialEq, Eq)]
pub enum BindOffer {
    /// There was no value left to offer.
    Exhausted,
    /// A value was there, and the engine answered its bind with this status;
    /// the diagnostic is the connection's, read right after it.
    Answered { status: i32, diagnostic: Diagnostic },
}

impl BindOffer {
    /// The engine's status, if a value was there.
    pub open spec fn status(&self) -> Option<i32> {
        match *self {
            BindOffer::Answered { status, .. } => Some(status),
            BindOffer::Exhausted => None,
        }
    }
}

/// How a bind call goes on.
#[derive(Debug, PartialEq, Eq)]
pub enum BindProgress {
    /// Take the next value, if there is one, and bind it to the slot with
    /// this 1-based index.
    Next { index: usize },
    /// The call is over, with this result. Take no further value.
    Finished(Result<(), Error>),
}

/// The names of a list of columns, in order.
pub open spec fn names_of(columns: Seq<Column>) -> Seq<Seq<char>> {
    Seq::new(columns.len(), |i: int| columns[i].name@)
}

/// The declared types of a list of columns, in order.
pub open spec fn declared_types_of(columns: Seq<Column>) -> Seq<Option<Seq<char>>> {
    Seq::new(
        columns.len(),
        |i: int|
            match columns[i].declared_type {
                Some(t) => Some(t@),
                None => None,
            },
    )
}

/// A statement as contracts see it.
pub struct StatementView {
    /// The address of the native statement, until it is released.
    pub handle: Option<usize>,
    /// Where the statement ends, as a byte offset into the whole batch.
    pub tail: nat,
    pub parameters: nat,
    pub names: Seq<Seq<char>>,
    pub declared_types: Seq<Option<Seq<char>>>,
    /// The catalog from each column name to its index, built once when the
    /// statement was compiled.
    pub catalog: Map<Seq<char>, int>,
    /// How many parameter slots hold a value since the statement was
    /// compiled or last reset: the slots 1 to `bound`.
    pub bound: nat,
    /// How many slots the current bind call has filled: its next value goes
    /// to slot `cursor + 1`.
    pub cursor: nat,
    pub phase: Phase,
}

/// Whether operations on the statement are still valid.
pub open spec fn is_live(v: StatementView) -> bool {
    v.phase != Phase::Released
}

/// The state in which a compile leaves a statement; `start` is the offset
/// into the batch of the text that was compiled.
pub open spec fn compiled_view(compiled: Compiled, start: nat) -> StatementView {
    StatementView {
        handle: Some(compiled.handle.spec_address()),
        tail: start + compiled.tail as nat,
        parameters: compiled.parameters as nat,
        names: names_of(compiled.columns@),
        declared_types: declared_types_of(compiled.columns@),
        catalog: name_map(names_of(compiled.columns@)),
        bound: 0,
        cursor: 0,
        phase: Phase::Ready,
    }
}

/// The statement as it was when compiled: nothing bound, no step taken.
pub open spec fn fresh(v: StatementView) -> StatementView {
    StatementView { bound: 0, cursor: 0, phase: Phase::Ready, ..v }
}

/// The statement when a bind call begins: the call starts over at slot 1,
/// and the slots that hold a value keep it until they get another.
pub open spec fn after_begin_bind(v: StatementView) -> StatementView {
    StatementView { cursor: 0, ..v }
}

/// What comes next in a bind call: the next slot, or the end of the call
/// once every slot has had its value.
pub open spec fn next_slot(v: StatementView) -> BindProgress {
    if v.cursor < v.parameters {
        BindProgress::Next { index: (v.cursor + 1) as usize }
    } else {
        BindProgress::Finished(Ok(()))
    }
}

/// The statement after an offer; `status` is `None` where no value was left.
/// Only a value that the engine accepted moves the call on.
pub open spec fn after_bind(v: StatementView, status: Option<i32>) -> StatementView {
    if status == Some(spec_status_ok()) {
        StatementView {
            cursor: v.cursor + 1,
            bound: if v.bound > v.cursor + 1 {
                v.bound
            } else {
                v.cursor + 1
            },
            ..v
        }
    } else {
        v
    }
}

/// How a bind call goes on after an offer. With no value left it ends
/// without an error. An accepted value leads to the next slot, or to the end
/// behind the last one. A rejected value ends the call with a bind error at
/// the index of its slot.
pub open spec fn bind_progress(v: StatementView, offer: BindOffer) -> BindProgress {
    match offer {
        BindOffer::Exhausted => BindProgress::Finished(Ok(())),
        BindOffer::Answered { status, diagnostic } => if status == spec_status_ok() {
            next_slot(after_bind(v, Some(status)))
        } else {
            BindProgress::Finished(
                Err(Error::Bind { index: (v.cursor + 1) as usize, diagnostic }),
            )
        },
    }
}

/// The statement after a step; `status` is `None` where the worker was gone.
pub open spec fn after_step(v: StatementView, status: Option<i32>) -> StatementView {
    match status {
        None => v,
        Some(s) => if s == spec_status_row() {
            StatementView { phase: Phase::Row, ..v }
        } else {
            StatementView { phase: Phase::Finished, ..v }
        },
    }
}

/// What a step returns to the caller.
pub open spec fn step_result(reply: StepReply) -> Result<Step, Error> {
    match reply {
        StepReply::WorkerUnavailable => Err(Error::WorkerUnavailable),
        StepReply::Status { status, diagnostic } => if status == spec_status_done() {
            Ok(Step::Done)
        } else if status == spec_status_row() {
            Ok(Step::Row)
        } else {
            Err(Error::Step(diagnostic))
        },
    }
}

/// The statement after its release.
pub open spec fn after_release(v: StatementView) -> StatementView {
    StatementView { handle: None, phase: Phase::Released, ..v }
}

/// The handle that a release gives back: the statement's, once.
pub open spec fn release_result(v: StatementView) -> Option<usize> {
    if is_live(v) {
        v.handle
    } else {
        None
    }
}

/// A single compiled statement, ready to be evaluated.
#[derive(Debug)]
pub struct Statement {
    handle: Option<StatementHandle>,
    tail: usize,
    parameters: usize,
    columns: Vec<Column>,
    catalog: ColumnCatalog,
    bound: usize,
    cursor: usize,
    phase: Phase,
}

impl View for Statement {
    type V = StatementView;

    closed spec fn view(&self) -> StatementView {
        StatementView {
            handle: match self.handle {
                Some(h) => Some(h.spec_address()),
                None => None,
            },
            tail: self.tail as nat,
            parameters: self.parameters as nat,
            names: names_of(self.columns@),
            declared_types: declared_types_of(self.columns@),
            catalog: self.catalog@,
            bound: self.bound as nat,
            cursor: self.cursor as nat,
            phase: self.phase,
        }
    }
}

impl Statement {
    /// What holds of every statement that this library hands out: no more
    /// slots are bound than there are, a bind call has filled none that is
    /// not bound, the catalog is that of the columns, and the handle is there
    /// exactly until the release.
    pub closed spec fn well_formed(&self) -> bool {
        &&& self.cursor <= self.bound <= self.parameters
        &&& self.catalog.names() == names_of(self.columns@)
        &&& (self.handle is Some <==> self.phase != Phase::Released)
    }

    /// What well-formedness means for the statement as contracts see it.
    pub proof fn lemma_well_formed(&self)
        requires
            self.well_formed(),
        ensures
            self@.cursor <= self@.bound <= self@.parameters,
            self@.handle is Some <==> is_live(self@),
            self.spec_catalog().names() == self@.names,
            self.spec_catalog()@ == self@.catalog,
            self@.catalog == name_map(self@.names),
            self@.names.len() == self@.declared_types.len(),
    {
    }

    /// The catalog built when the statement was compiled.
    pub closed spec fn spec_catalog(&self) -> ColumnCatalog {
        self.catalog
    }

    /// Takes the engine's answer to a compile of what is left of `batch`.
    /// Any status but success is a compile error that carries `diagnostic`,
    /// the connection's diagnostic read right after the call, and the batch
    /// stays where it was. On success the statement is ready, its catalog
    /// holds the reported columns, its tail is where it ends in the whole
    /// batch, and the batch has moved on to the text from which the next
    /// statement is compiled.
    ///
    /// The engine reports a statement exactly when it reports success.
    pub fn new<'a>(
        batch: &mut Batch<'a>,
        status: i32,
        diagnostic: Diagnostic,
        compiled: Option<Compiled>,
    ) -> (result: Result<Statement, Error>)
        requires
            old(batch).well_formed(),
            status == spec_status_ok() <==> compiled is Some,
            status == spec_status_ok() ==> valid_tail(
                old(batch).rest(),
                compiled.unwrap().tail as int,
            ),
        ensures
            final(batch).well_formed(),
            status != spec_status_ok() ==> result == Err::<Statement, Error>(
                Error::Compile(diagnostic),
            ) && *final(batch) == *old(batch),
            status == spec_status_ok() ==> result is Ok && ({
                let statement = result.unwrap();
                let tail = compiled.unwrap().tail as int;
                &&& statement.well_formed()
                &&& statement@ == compiled_view(compiled.unwrap(), old(batch).offset())
                &&& statement.spec_catalog().names() == names_of(compiled.unwrap().columns@)
                &&& statement.spec_catalog()@ == name_map(names_of(compiled.unwrap().columns@))
                &&& final(batch).rest() == spec_remainder(old(batch).rest(), tail)
                &&& final(batch).offset() == old(batch).offset() + remainder_offset(
                    old(batch).rest(),
                    tail,
                )
                &&& final(batch).total() == old(batch).total()
                &&& statement@.tail <= final(batch).offset() <= final(batch).total()
            }),
    {
        if !succeeded(status) {
            return Err(Error::Compile(diagnostic));
        }
        let Compiled { handle, tail, parameters, columns } = compiled.unwrap();
        let end: usize = batch.advance(tail);
        let mut catalog = ColumnCatalog::new();
        let count: usize = columns.len();
        let mut i: usize = 0;
        while i < count
            invariant
                i <= count,
                count == columns@.len(),
                catalog.names() == names_of(columns@).take(i as int),
            decreases count - i,
        {
            let name: String = columns[i].name.clone();
            catalog.push(name);
            proof {
                assert(names_of(columns@).take(i + 1) =~= names_of(columns@).take(i as int).push(
                    columns@[i as int].name@,
                ));
            }
            i = i + 1;
        }
        proof {
            assert(names_of(columns@).take(count as int) =~= names_of(columns@));
        }
        let statement = Statement {
            handle: Some(handle),
            tail: end,
            parameters,
            columns,
            catalog,
            bound: 0,
            cursor: 0,
            phase: Phase::Ready,
        };
        Ok(statement)
    }

    /// The handle of the native statement.
    pub fn handle(&self) -> (handle: &StatementHandle)
        requires
            self.well_formed(),
            is_live(self@),
        ensures
            self@.handle == Some(handle.spec_address()),
    {
        self.handle.as_ref().unwrap()
    }

    /// Whether the native statement is still there. Once it has been
    /// released, only this, `phase`, `tail`, `columns` and `release` may still
    /// be called.
    pub fn is_live(&self) -> (live: bool)
        ensures
            live == is_live(self@),
    {
        match self.phase {
            Phase::Released => false,
            _ => true,
        }
    }

    /// Where the statement stands in its life.
    pub fn phase(&self) -> (phase: Phase)
        ensures
            phase == self@.phase,
    {
        self.phase
    }

    /// The byte offset into the whole batch at which the statement ends.
    pub fn tail(&self) -> (tail: usize)
        ensures
            tail == self@.tail,
    {
        self.tail
    }

    /// The catalog from column names to indices, built once when the
    /// statement was compiled.
    pub fn columns(&self) -> (catalog: &ColumnCatalog)
        requires
            self.well_formed(),
        ensures
            *catalog == self.spec_catalog(),
            catalog.names() == self@.names,
            catalog@ == self@.catalog,
    {
        &self.catalog
    }

    /// The number of columns in the result set.
    pub fn column_count(&self) -> (count: usize)
        requires
            is_live(self@),
        ensures
            count == self@.names.len(),
    {
        self.columns.len()
    }

    /// The name of the column at `index`.
    pub fn column_name(&self, index: usize) -> (name: &str)
        requires
            is_live(self@),
            index < self@.names.len(),
        ensures
            name@ == self@.names[index as int],
    {
        self.columns[index].name.as_str()
    }

    /// The declared type of the column at `index`. There is none for a
    /// column that is an expression, nor for an index behind the last column.
    pub fn column_decltype(&self, index: usize) -> (declared: Option<&str>)
        requires
            is_live(self@),
        ensures
            index >= self@.declared_types.len() ==> declared is None,
            index < self@.declared_types.len() ==> match declared {
                Some(t) => self@.declared_types[index as int] == Some(t@),
                None => self@.declared_types[index as int] is None,
            },
    {
        if index >= self.columns.len() {
            return None;
        }
        match &self.columns[index].declared_type {
            Some(t) => Some(t.as_str()),
            None => None,
        }
    }

    /// The number of parameter slots. It never changes.
    pub fn params(&self) -> (count: usize)
        requires
            is_live(self@),
        ensures
            count == self@.parameters,
    {
        self.parameters
    }

    /// The number of columns in the current row, given the count that the
    /// engine reports: it means something only right after a step that made a
    /// row available.
    pub fn data_count(&self, reported: usize) -> (count: Option<usize>)
        requires
            is_live(self@),
        ensures
            count == if self@.phase == Phase::Row {
                Some(reported)
            } else {
                None::<usize>
            },
    {
        match self.phase {
            Phase::Row => Some(reported),
            _ => None,
        }
    }

    /// Begins a bind call. Every call starts at slot 1, whatever was bound
    /// before; the slots that hold a value keep it until the call gives them
    /// another. The result says how the call goes on: with slot 1, or not at
    /// all where the statement has no slots.
    pub fn begin_bind(&mut self) -> (progress: BindProgress)
        requires
            old(self).well_formed(),
            is_live(old(self)@),
        ensures
            final(self).well_formed(),
            final(self)@ == after_begin_bind(old(self)@),
            final(self).spec_catalog() == old(self).spec_catalog(),
            progress == next_slot(final(self)@),
    {
        self.cursor = 0;
        if self.parameters > 0 {
            BindProgress::Next { index: 1 }
        } else {
            BindProgress::Finished(Ok(()))
        }
    }

    /// The 1-based index of the slot that the next value of the current bind
    /// call goes to, as long as a slot is left.
    pub fn next_parameter(&self) -> (index: Option<usize>)
        requires
            self.well_formed(),
            is_live(self@),
        ensures
            index == if self@.cursor < self@.parameters {
                Some((self@.cursor + 1) as usize)
            } else {
                None::<usize>
            },
            self@.cursor <= self@.parameters,
    {
        if self.cursor < self.parameters {
            Some(self.cursor + 1)
        } else {
            None
        }
    }

    /// Takes what came of offering the next value to the slot that the last
    /// progress named. With no value left the call ends without an error:
    /// the slots that got no value keep what they had, the engine's default
    /// if nothing was bound to them. A value that the engine accepted fills
    /// the slot, and the call goes on with the next slot or ends behind the
    /// last. Any other status ends the call with a bind error at that slot's
    /// index; the slots filled before stay as they are.
    pub fn bind(&mut self, offer: BindOffer) -> (progress: BindProgress)
        requires
            old(self).well_formed(),
            is_live(old(self)@),
            old(self)@.cursor < old(self)@.parameters,
        ensures
            final(self).well_formed(),
            final(self)@ == after_bind(old(self)@, offer.status()),
            final(self).spec_catalog() == old(self).spec_catalog(),
            progress == bind_progress(old(self)@, offer),
    {
        match offer {
            BindOffer::Exhausted => BindProgress::Finished(Ok(())),
            BindOffer::Answered { status, diagnostic } => {
                if succeeded(status) {
                    self.cursor = self.cursor + 1;
                    if self.bound < self.cursor {
                        self.bound = self.cursor;
                    }
                    if self.cursor < self.parameters {
                        BindProgress::Next { index: self.cursor + 1 }
                    } else {
                        BindProgress::Finished(Ok(()))
                    }
                } else {
                    BindProgress::Finished(
                        Err(Error::Bind { index: self.cursor + 1, diagnostic }),
                    )
                }
            },
        }
    }

    /// Makes the statement ready for another run: execution starts over and
    /// every bound value is cleared. The columns and their catalog stay as
    /// they are.
    pub fn reset(&mut self)
        requires
            old(self).well_formed(),
            is_live(old(self)@),
        ensures
            final(self).well_formed(),
            final(self)@ == fresh(old(self)@),
            final(self).spec_catalog() == old(self).spec_catalog(),
    {
        self.bound = 0;
        self.cursor = 0;
        self.phase = Phase::Ready;
    }

    /// Takes what came back for a step. A row or the end of execution is
    /// passed on; any other status of the engine is a step error with the
    /// diagnostic. If the worker was gone the step never ran, and the
    /// statement is where it was.
    pub fn step(&mut self, reply: StepReply) -> (result: Result<Step, Error>)
        requires
            old(self).well_formed(),
            is_live(old(self)@),
        ensures
            final(self).well_formed(),
            final(self)@ == after_step(old(self)@, reply.status()),
            final(self).spec_catalog() == old(self).spec_catalog(),
            result == step_result(reply),
    {
        match reply {
            StepReply::WorkerUnavailable => Err(Error::WorkerUnavailable),
            StepReply::Status { status, diagnostic } => {
                if status == status_done() {
                    self.phase = Phase::Finished;
                    Ok(Step::Done)
                } else if status == status_row() {
                    self.phase = Phase::Row;
                    Ok(Step::Row)
                } else {
                    self.phase = Phase::Finished;
                    Err(Error::Step(diagnostic))
                }
            },
        }
    }

    /// Gives up the native statement. The first call, in whatever phase,
    /// hands out the handle, which the caller gives back to the engine; every
    /// later call hands out nothing.
    pub fn release(&mut self) -> (handle: Option<StatementHandle>)
        requires
            old(self).well_formed(),
        ensures
            final(self).well_formed(),
            final(self)@ == after_release(old(self)@),
            final(self).spec_catalog() == old(self).spec_catalog(),
            match handle {
                Some(h) => release_result(old(self)@) == Some(h.spec_address()),
                None => release_result(old(self)@) is None,
            },
    {
        self.phase = Phase::Released;
        self.handle.take()
    }
}

} // verus!
