//! The course of the transition of a compaction over a store that runs one statement at a
//! time: which statement comes next, and what the answer of the store to it means.
//!
//! A session starts a transaction, marks the files to delete one after the other, gives
//! the files to upgrade their level, creates the new files one after the other, and
//! commits. The first step that fails ends the transition: the session rolls the
//! transaction back and reports the failure.

use crate::error::{result_plain, result_seq, CatalogError, CatalogErrorView};
use crate::model::ParquetFileId;
use crate::parquet_file::{promote_result, promoted, retire_result, retired};
use crate::store_error::StoreFailure;
use vstd::prelude::*;

verus! {

/// What the session does next.
#[derive(Debug, PartialEq, Eq)]
pub enum Step {
    /// Start a transaction.
    Begin,
    /// Mark the file of this id as deleted.
    Retire(ParquetFileId),
    /// Give the files to upgrade the target level.
    Promote,
    /// Create the file that stands at this place among the new files.
    Create(usize),
    /// Commit the transaction.
    Commit,
    /// End the transition with this answer. Before a failure is reported, the
    /// transaction is rolled back.
    Finish(Result<Vec<ParquetFileId>, CatalogError>),
}

pub enum StepView {
    Begin,
    Retire(ParquetFileId),
    Promote,
    Create(int),
    Commit,
    Finish(Result<Seq<ParquetFileId>, CatalogErrorView>),
}

impl View for Step {
    type V = StepView;

    open spec fn view(&self) -> StepView {
        match *self {
            Step::Begin => StepView::Begin,
            Step::Retire(id) => StepView::Retire(id),
            Step::Promote => StepView::Promote,
            Step::Create(at) => StepView::Create(at as int),
            Step::Commit => StepView::Commit,
            Step::Finish(answer) => StepView::Finish(result_seq(answer)),
        }
    }
}

/// What the store answered to a step.
#[derive(Debug)]
pub enum Event {
    /// The outcome of the start of the transaction.
    Begun(Result<(), StoreFailure>),
    /// The number of rows that the statement touched which marks a file as deleted.
    Retired(Result<u64, StoreFailure>),
    /// The ids that the statement yielded which sets the level.
    Promoted(Result<Vec<ParquetFileId>, StoreFailure>),
    /// The id of the file that was created, or why it was not.
    Created(Result<ParquetFileId, CatalogError>),
    /// The outcome of the commit.
    Committed(Result<(), StoreFailure>),
}

pub enum EventView {
    Begun(Result<(), StoreFailure>),
    Retired(Result<u64, StoreFailure>),
    Promoted(Result<Seq<ParquetFileId>, StoreFailure>),
    Created(Result<ParquetFileId, CatalogErrorView>),
    Committed(Result<(), StoreFailure>),
}

impl View for Event {
    type V = EventView;

    open spec fn view(&self) -> EventView {
        match *self {
            Event::Begun(outcome) => EventView::Begun(outcome),
            Event::Retired(outcome) => EventView::Retired(outcome),
            Event::Promoted(outcome) => EventView::Promoted(
                match outcome {
                    Ok(ids) => Ok(ids@),
                    Err(f) => Err(f),
                },
            ),
            Event::Created(outcome) => EventView::Created(result_plain(outcome)),
            Event::Committed(outcome) => EventView::Committed(outcome),
        }
    }
}

/// Where a transition stands.
#[derive(Debug, Clone, Copy, PartialEq, Eq, Structural)]
pub enum Stage {
    /// The transaction is to start.
    Beginning,
    /// A file is to be marked as deleted.
    Retiring,
    /// The files to upgrade are to get their level.
    Promoting,
    /// A file is to be created.
    Creating,
    /// The transaction is to commit.
    Committing,
    /// The transition has ended.
    Finished,
}

/// A transition under way: its stage, the place of the file that the stage works on, and
/// the ids of the files that were created so far.
#[derive(Debug)]
pub struct Transition {
    stage: Stage,
    at: usize,
    created: Vec<ParquetFileId>,
}

pub struct TransitionView {
    pub stage: Stage,
    pub at: int,
    pub created: Seq<ParquetFileId>,
}

impl View for Transition {
    type V = TransitionView;

    closed spec fn view(&self) -> TransitionView {
        TransitionView { stage: self.stage, at: self.at as int, created: self.created@ }
    }
}

impl TransitionView {
    /// The transition as it ends with the given answer, which takes the ids of the files
    /// that were created with it.
    pub open spec fn finish(self, answer: Result<Seq<ParquetFileId>, CatalogErrorView>) -> (
        TransitionView,
        StepView,
    ) {
        (
            TransitionView { stage: Stage::Finished, at: 0, created: Seq::empty() },
            StepView::Finish(answer),
        )
    }

    /// The transition as it turns to the file to delete at the place `at`, or to the
    /// files to upgrade where no file to delete is left.
    pub open spec fn retire_from(self, at: int, delete: Seq<ParquetFileId>) -> (
        TransitionView,
        StepView,
    ) {
        if at < delete.len() {
            (TransitionView { stage: Stage::Retiring, at, ..self }, StepView::Retire(delete[at]))
        } else {
            (TransitionView { stage: Stage::Promoting, at: 0, ..self }, StepView::Promote)
        }
    }

    /// The transition as it turns to the new file at the place `at`, or to the commit
    /// where no new file is left.
    pub open spec fn create_from(self, at: int, new_files: int) -> (TransitionView, StepView) {
        if at < new_files {
            (TransitionView { stage: Stage::Creating, at, ..self }, StepView::Create(at))
        } else {
            (TransitionView { stage: Stage::Committing, at: 0, ..self }, StepView::Commit)
        }
    }

    /// The transition after an event, and the step that follows. A step that succeeded is
    /// followed by the next step; a step that failed ends the transition with its
    /// failure. An event that is no answer to the step of the stage ends the transition
    /// as a failure of the store.
    pub open spec fn advanced(
        self,
        event: EventView,
        delete: Seq<ParquetFileId>,
        upgrade: Seq<ParquetFileId>,
        new_files: int,
    ) -> (TransitionView, StepView) {
        match (self.stage, event) {
            (Stage::Beginning, EventView::Begun(Ok(_))) => self.retire_from(0, delete),
            (Stage::Beginning, EventView::Begun(Err(_))) => self.finish(
                Err(CatalogErrorView::StartTransaction),
            ),
            (Stage::Retiring, EventView::Retired(outcome)) => match retired(
                outcome,
                delete[self.at],
            ) {
                Ok(_) => self.retire_from(self.at + 1, delete),
                Err(e) => self.finish(Err(e)),
            },
            (Stage::Promoting, EventView::Promoted(outcome)) => match promoted(outcome, upgrade) {
                Ok(_) => self.create_from(0, new_files),
                Err(e) => self.finish(Err(e)),
            },
            (Stage::Creating, EventView::Created(Ok(id))) => (TransitionView {
                created: self.created.push(id),
                ..self
            }).create_from(self.at + 1, new_files),
            (Stage::Creating, EventView::Created(Err(e))) => self.finish(Err(e)),
            (Stage::Committing, EventView::Committed(Ok(_))) => self.finish(Ok(self.created)),
            (Stage::Committing, EventView::Committed(Err(_))) => self.finish(
                Err(CatalogErrorView::FailedToCommit),
            ),
            _ => self.finish(Err(CatalogErrorView::SqlxError)),
        }
    }

    /// Whether the transition fits the lists that it works on: the place at which it
    /// stands is a place of the list of its stage.
    pub open spec fn fits(self, delete: Seq<ParquetFileId>, new_files: int) -> bool {
        match self.stage {
            Stage::Retiring => 0 <= self.at < delete.len(),
            Stage::Creating => 0 <= self.at < new_files,
            _ => self.at == 0,
        }
    }

    /// How many steps the transition takes at most until it has ended.
    pub open spec fn steps_left(self, delete: Seq<ParquetFileId>, new_files: int) -> int {
        match self.stage {
            Stage::Beginning => delete.len() + new_files + 4,
            Stage::Retiring => delete.len() - self.at + new_files + 3,
            Stage::Promoting => new_files + 3,
            Stage::Creating => new_files - self.at + 2,
            Stage::Committing => 1,
            Stage::Finished => 0,
        }
    }
}

impl Transition {
    /// Whether the transition fits the lists that it works on.
    pub open spec fn fits(&self, delete: Seq<ParquetFileId>, new_files: int) -> bool {
        self@.fits(delete, new_files)
    }

    /// A transition at its beginning, and its first step: the start of a transaction.
    pub fn start() -> (started: (Transition, Step))
        ensures
            started.0@ == (TransitionView {
                stage: Stage::Beginning,
                at: 0,
                created: Seq::empty(),
            }),
            started.1@ == StepView::Begin,
    {
        (Transition { stage: Stage::Beginning, at: 0, created: Vec::new() }, Step::Begin)
    }

    /// The stage of the transition.
    pub fn stage(&self) -> (stage: Stage)
        ensures
            stage == self@.stage,
    {
        self.stage
    }

    fn finish(&mut self, answer: Result<Vec<ParquetFileId>, CatalogError>) -> (step: Step)
        ensures
            (final(self)@, step@) == old(self)@.finish(result_seq(answer)),
    {
        self.stage = Stage::Finished;
        self.at = 0;
        self.created = Vec::new();
        Step::Finish(answer)
    }

    fn retire_from(&mut self, at: usize, delete: &[ParquetFileId]) -> (step: Step)
        ensures
            (final(self)@, step@) == old(self)@.retire_from(at as int, delete@),
    {
        if at < delete.len() {
            self.stage = Stage::Retiring;
            self.at = at;
            Step::Retire(delete[at])
        } else {
            self.stage = Stage::Promoting;
            self.at = 0;
            Step::Promote
        }
    }

    fn create_from(&mut self, at: usize, new_files: usize) -> (step: Step)
        ensures
            (final(self)@, step@) == old(self)@.create_from(at as int, new_files as int),
    {
        if at < new_files {
            self.stage = Stage::Creating;
            self.at = at;
            Step::Create(at)
        } else {
            self.stage = Stage::Committing;
            self.at = 0;
            Step::Commit
        }
    }

    /// Takes the answer of the store to the last step and says which step follows.
    pub fn advance(
        &mut self,
        event: Event,
        delete: &[ParquetFileId],
        upgrade: &[ParquetFileId],
        new_files: usize,
    ) -> (step: Step)
        requires
            old(self).fits(delete@, new_files as int),
        ensures
            (final(self)@, step@) == old(self)@.advanced(
                event@,
                delete@,
                upgrade@,
                new_files as int,
            ),
            final(self).fits(delete@, new_files as int),
            old(self)@.stage != Stage::Finished ==> final(self)@.steps_left(
                delete@,
                new_files as int,
            ) < old(self)@.steps_left(delete@, new_files as int),
    {
        match (self.stage, event) {
            (Stage::Beginning, Event::Begun(Ok(_))) => self.retire_from(0, delete),
            (Stage::Beginning, Event::Begun(Err(_))) => self.finish(
                Err(CatalogError::StartTransaction),
            ),
            (Stage::Retiring, Event::Retired(outcome)) => {
                match retire_result(outcome, delete[self.at]) {
                    Ok(_) => {
                        let next = self.at + 1;
                        self.retire_from(next, delete)
                    },
                    Err(e) => self.finish(Err(e)),
                }
            },
            (Stage::Promoting, Event::Promoted(outcome)) => {
                match promote_result(outcome, upgrade) {
                    Ok(_) => self.create_from(0, new_files),
                    Err(e) => self.finish(Err(e)),
                }
            },
            (Stage::Creating, Event::Created(Ok(id))) => {
                self.created.push(id);
                let next = self.at + 1;
                self.create_from(next, new_files)
            },
            (Stage::Creating, Event::Created(Err(e))) => self.finish(Err(e)),
            (Stage::Committing, Event::Committed(Ok(_))) => {
                let mut created: Vec<ParquetFileId> = Vec::new();
                std::mem::swap(&mut created, &mut self.created);
                self.finish(Ok(created))
            },
            (Stage::Committing, Event::Committed(Err(_))) => self.finish(
                Err(CatalogError::FailedToCommit),
            ),
            _ => self.finish(Err(CatalogError::SqlxError)),
        }
    }
}

} // verus!
