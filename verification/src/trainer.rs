use vstd::prelude::*;
use crate::envelope::ApiResponse;
use crate::model::{
    bare_trainer, trainer_views, CreateUserRequest, GetTrainerResponse, Trainer, TrainerRow,
    TrainerView,
};
use crate::statement::{Answer, Statement, Step};
use crate::tables::Tables;

verus! {

/// A trainer lookup by id that waits for the store's rows.
pub struct TrainerLookup {
    pub id: i32,
}

/// An insert or a delete of a trainer that waits for the store's row count.
pub enum TrainerWrite {
    Insert,
    Delete,
}

/// The records of a sequence of trainer rows on a lookup by id: one per row,
/// in order, each without a roster.
pub open spec fn bare_trainers(rows: Seq<TrainerRow>) -> Seq<TrainerView> {
    Seq::new(rows.len(), |i: int| bare_trainer(rows[i]))
}

/// Starts the lookup of the trainers with the given id.
pub fn get_trainer(id: i32) -> (first: Step<TrainerLookup, GetTrainerResponse>)
    ensures
        first == Step::<TrainerLookup, GetTrainerResponse>::Ask(
            TrainerLookup { id },
            Statement::TrainerById(id),
        ),
{
    Step::Ask(TrainerLookup { id }, Statement::TrainerById(id))
}

/// Starts the creation of a trainer: name and flag travel as parameters of
/// the insert.
pub fn create_trainer(payload: CreateUserRequest) -> (first: Step<TrainerWrite, ()>)
    ensures
        first == Step::<TrainerWrite, ()>::Ask(
            TrainerWrite::Insert,
            Statement::InsertTrainer(payload.name, payload.gym_leader),
        ),
{
    Step::Ask(TrainerWrite::Insert, Statement::InsertTrainer(payload.name, payload.gym_leader))
}

/// Starts the deletion of the trainers with the given id.
pub fn delete_trainer(id: i32) -> (first: Step<TrainerWrite, ()>)
    ensures
        first == Step::<TrainerWrite, ()>::Ask(TrainerWrite::Delete, Statement::DeleteTrainer(id)),
{
    Step::Ask(TrainerWrite::Delete, Statement::DeleteTrainer(id))
}

impl TrainerLookup {
    /// The statement whose answer this state waits for.
    pub open spec fn asked(self) -> Statement {
        Statement::TrainerById(self.id)
    }

    /// The transition relation: trainer rows end the request with one
    /// record per row, in order and without rosters; anything else ends it
    /// in `Error`.
    pub open spec fn steps_to(
        self,
        answer: Answer,
        next: Step<TrainerLookup, GetTrainerResponse>,
    ) -> bool {
        match answer {
            Answer::Trainers(rows) => next matches Step::Done(ApiResponse::JsonData(body))
                && trainer_views(body.trainers@) == bare_trainers(rows@),
            _ => next == Step::<TrainerLookup, GetTrainerResponse>::Done(ApiResponse::Error),
        }
    }

    /// Takes the store's answer and ends the request.
    pub fn step(self, answer: Answer) -> (next: Step<TrainerLookup, GetTrainerResponse>)
        ensures
            self.steps_to(answer, next),
    {
        match answer {
            Answer::Trainers(rows) => {
                let mut rest = rows;
                let mut trainers: Vec<Trainer> = Vec::new();
                while rest.len() > 0
                    invariant
                        trainers@.len() + rest@.len() == rows@.len(),
                        forall|i: int|
                            0 <= i < trainers@.len() ==> (#[trigger] trainers@[i])@ == bare_trainer(
                                rows@[i],
                            ),
                        forall|i: int|
                            0 <= i < rest@.len() ==> #[trigger] rest@[i] == rows@[trainers@.len()
                                + i],
                    decreases rest@.len(),
                {
                    let row = rest.remove(0);
                    trainers.push(
                        Trainer {
                            trainer_id: row.trainer_id,
                            name: row.name,
                            gym_leader: row.gym_leader,
                            pokemon: None,
                        },
                    );
                }
                assert(trainer_views(trainers@) =~= bare_trainers(rows@));
                Step::Done(ApiResponse::JsonData(GetTrainerResponse { trainers }))
            },
            _ => Step::Done(ApiResponse::Error),
        }
    }
}

impl TrainerWrite {
    /// The transition relation: a row count, whatever its value, ends the
    /// request in `OK`; anything else ends it in `Error`.
    pub open spec fn steps_to(self, answer: Answer, next: Step<TrainerWrite, ()>) -> bool {
        match answer {
            Answer::Affected(_) => next == Step::<TrainerWrite, ()>::Done(ApiResponse::OK),
            _ => next == Step::<TrainerWrite, ()>::Done(ApiResponse::Error),
        }
    }

    /// Takes the store's answer and ends the request. A write that affected
    /// no row is a success like any other.
    pub fn step(self, answer: Answer) -> (next: Step<TrainerWrite, ()>)
        ensures
            self.steps_to(answer, next),
    {
        match answer {
            Answer::Affected(_) => Step::Done(ApiResponse::OK),
            _ => Step::Done(ApiResponse::Error),
        }
    }
}

/// A lookup by id answered by the snapshot succeeds with the records of
/// exactly the snapshot's trainer rows under that id, in the table's order
/// and without rosters: every record has the id asked for and comes from a
/// row of the table, and every row of the table with that id has its record
/// in the list.
pub proof fn lookup_gives_matching_rows(
    tables: Tables,
    id: i32,
    answer: Answer,
    next: Step<TrainerLookup, GetTrainerResponse>,
)
    requires
        tables.answers(Statement::TrainerById(id), answer),
        (TrainerLookup { id }).steps_to(answer, next),
    ensures
        next matches Step::Done(ApiResponse::JsonData(body)) && {
            let found = trainer_views(body.trainers@);
            &&& found == bare_trainers(tables.trainers_by_id(id))
            &&& forall|i: int|
                0 <= i < found.len() ==> (#[trigger] found[i]).trainer_id == id
                    && found[i].pokemon is None && exists|j: int|
                    0 <= j < tables.trainer.len() && found[i] == bare_trainer(
                        #[trigger] tables.trainer[j],
                    )
            &&& forall|j: int|
                0 <= j < tables.trainer.len() && (#[trigger] tables.trainer[j]).trainer_id == id
                    ==> found.contains(bare_trainer(tables.trainer[j]))
        },
{
    let pred = |row: TrainerRow| row.trainer_id == id;
    let rows = tables.trainers_by_id(id);
    let found = bare_trainers(rows);
    assert forall|i: int| 0 <= i < found.len() implies (#[trigger] found[i]).trainer_id == id
        && found[i].pokemon is None && exists|j: int|
        0 <= j < tables.trainer.len() && found[i] == bare_trainer(
            #[trigger] tables.trainer[j],
        ) by {
        tables.trainer.lemma_filter_pred(pred, i);
        assert(rows.contains(rows[i]));
        tables.trainer.lemma_filter_contains_rev(pred, rows[i]);
        let j = choose|j: int| 0 <= j < tables.trainer.len() && tables.trainer[j] == rows[i];
        assert(found[i] == bare_trainer(tables.trainer[j]));
    }
    assert forall|j: int|
        0 <= j < tables.trainer.len() && (#[trigger] tables.trainer[j]).trainer_id
            == id implies found.contains(bare_trainer(tables.trainer[j])) by {
        tables.trainer.lemma_filter_contains(pred, j);
        let i = choose|i: int| 0 <= i < rows.len() && rows[i] == tables.trainer[j];
        assert(found[i] == bare_trainer(tables.trainer[j]));
    }
}

/// Once the trainers under an id are deleted, a lookup of that id answered
/// by the new snapshot finds no row and so succeeds with the empty list.
pub proof fn deleted_trainer_is_gone(tables: Tables, id: i32)
    ensures
        tables.without_trainer(id).trainers_by_id(id) == Seq::<TrainerRow>::empty(),
        bare_trainers(tables.without_trainer(id).trainers_by_id(id)) == Seq::<TrainerView>::empty(),
{
    let kept = |row: TrainerRow| row.trainer_id != id;
    let wanted = |row: TrainerRow| row.trainer_id == id;
    let left = tables.trainer.filter(kept);
    assert forall|i: int| 0 <= i < left.len() implies !wanted(#[trigger] left[i]) by {
        tables.trainer.lemma_filter_pred(kept, i);
    }
    left.lemma_all_neg_filter_empty(wanted);
    assert(left.filter(wanted) =~= Seq::<TrainerRow>::empty());
    assert(bare_trainers(left.filter(wanted)) =~= Seq::<TrainerView>::empty());
}

/// Deleting the trainers under one id leaves the rows found under any other
/// id as they were.
pub proof fn delete_keeps_other_trainers(tables: Tables, id: i32, other: i32)
    requires
        other != id,
    ensures
        tables.without_trainer(id).trainers_by_id(other) == tables.trainers_by_id(other),
{
    let kept = |row: TrainerRow| row.trainer_id != id;
    let others = |row: TrainerRow| row.trainer_id == other;
    filter_twice(tables.trainer, kept, others);
}

/// Filtering by `first` and then by `second` keeps what filtering by
/// `second` alone keeps, where `second` implies `first`.
proof fn filter_twice(
    rows: Seq<TrainerRow>,
    first: spec_fn(TrainerRow) -> bool,
    second: spec_fn(TrainerRow) -> bool,
)
    requires
        forall|row: TrainerRow| #[trigger] second(row) ==> first(row),
    ensures
        rows.filter(first).filter(second) == rows.filter(second),
    decreases rows.len(),
{
    reveal(Seq::filter);
    if rows.len() > 0 {
        filter_twice(rows.drop_last(), first, second);
        let front = rows.drop_last();
        if first(rows.last()) {
            Seq::lemma_filter_push(front.filter(first), rows.last(), second);
            assert(rows.filter(first) == front.filter(first).push(rows.last()));
        }
    }
}

/// Two lookups of the same id answered by the same snapshot succeed with
/// the same list.
pub proof fn repeated_lookup_is_the_same(
    tables: Tables,
    id: i32,
    answer: Answer,
    next: Step<TrainerLookup, GetTrainerResponse>,
    answer_again: Answer,
    next_again: Step<TrainerLookup, GetTrainerResponse>,
)
    requires
        tables.answers(Statement::TrainerById(id), answer),
        tables.answers(Statement::TrainerById(id), answer_again),
        (TrainerLookup { id }).steps_to(answer, next),
        (TrainerLookup { id }).steps_to(answer_again, next_again),
    ensures
        match (next, next_again) {
            (Step::Done(ApiResponse::JsonData(body)), Step::Done(ApiResponse::JsonData(again))) => {
                trainer_views(body.trainers@) == trainer_views(again.trainers@)
            },
            _ => false,
        },
{
}

/// A delete ends in success whatever number of rows it affected, none
/// included.
pub proof fn delete_of_nothing_succeeds(affected: u64, next: Step<TrainerWrite, ()>)
    requires
        TrainerWrite::Delete.steps_to(Answer::Affected(affected), next),
    ensures
        next == Step::<TrainerWrite, ()>::Done(ApiResponse::OK),
{
}

proof fn at_most_one_under_id(rows: Seq<TrainerRow>, id: i32)
    requires
        forall|i: int, j: int|
            0 <= i < j < rows.len() ==> (#[trigger] rows[i]).trainer_id != (
            #[trigger] rows[j]).trainer_id,
    ensures
        rows.filter(|row: TrainerRow| row.trainer_id == id).len() <= 1,
        rows.filter(|row: TrainerRow| row.trainer_id == id).len() == 1 <==> exists|j: int|
            0 <= j < rows.len() && (#[trigger] rows[j]).trainer_id == id,
    decreases rows.len(),
{
    let pred = |row: TrainerRow| row.trainer_id == id;
    if rows.len() == 0 {
        rows.lemma_filter_len(pred);
    } else {
        let front = rows.drop_last();
        let last = rows.last();
        assert forall|i: int, j: int| 0 <= i < j < front.len() implies (#[trigger] front[i]).trainer_id
            != (#[trigger] front[j]).trainer_id by {
            assert(front[i] == rows[i]);
            assert(front[j] == rows[j]);
        }
        at_most_one_under_id(front, id);
        assert(rows =~= front.push(last));
        front.lemma_filter_push(last, pred);
        if pred(last) {
            if exists|j: int| 0 <= j < front.len() && (#[trigger] front[j]).trainer_id == id {
                let j = choose|j: int| 0 <= j < front.len() && (#[trigger] front[j]).trainer_id == id;
                assert(front[j] == rows[j]);
                assert(rows[j].trainer_id != rows[rows.len() - 1].trainer_id);
            }
            assert(rows[rows.len() - 1].trainer_id == id);
        } else {
            if exists|j: int| 0 <= j < rows.len() && (#[trigger] rows[j]).trainer_id == id {
                let j = choose|j: int| 0 <= j < rows.len() && (#[trigger] rows[j]).trainer_id == id;
                assert(front[j] == rows[j]);
            }
            if exists|j: int| 0 <= j < front.len() && (#[trigger] front[j]).trainer_id == id {
                let j = choose|j: int| 0 <= j < front.len() && (#[trigger] front[j]).trainer_id == id;
                assert(front[j] == rows[j]);
            }
        }
    }
}

/// Where the trainer ids of the snapshot are pairwise distinct, a lookup by
/// id answered by the snapshot succeeds with at most one trainer, and with
/// exactly one if and only if a trainer row has the id.
pub proof fn lookup_finds_at_most_one(
    tables: Tables,
    id: i32,
    answer: Answer,
    next: Step<TrainerLookup, GetTrainerResponse>,
)
    requires
        tables.trainer_ids_are_distinct(),
        tables.answers(Statement::TrainerById(id), answer),
        (TrainerLookup { id }).steps_to(answer, next),
    ensures
        tables.trainers_by_id(id).len() <= 1,
        tables.trainers_by_id(id).len() == 1 <==> exists|j: int|
            0 <= j < tables.trainer.len() && (#[trigger] tables.trainer[j]).trainer_id == id,
        next matches Step::Done(ApiResponse::JsonData(body)) && body.trainers@.len()
            == tables.trainers_by_id(id).len(),
{
    at_most_one_under_id(tables.trainer, id);
    match next {
        Step::Done(ApiResponse::JsonData(body)) => {
            assert(trainer_views(body.trainers@).len() == body.trainers@.len());
        },
        _ => {},
    }
}

} // verus!
