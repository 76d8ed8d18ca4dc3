use vstd::prelude::*;
use crate::envelope::ApiResponse;
use crate::model::{
    resolved, trainer_views, trainer_with, GetTrainersResponse, Pokemon, PokemonRow, Trainer,
    TrainerRow, TrainerView,
};
use crate::statement::{Answer, Statement, Step};
use crate::tables::{has_region, Tables};

verus! {

/// Where the assembly of the trainer listing stands between two round trips
/// to the store. `done` holds the trainers assembled so far, `trainers` the
/// trainer rows still to come, `current` the trainer whose roster is being
/// resolved, `creatures` the part of that roster resolved so far, `ids` the
/// owned creature ids still to look up.
pub enum RosterAssembly {
    /// Every trainer row was asked for.
    Listing,
    /// The creature ids owned by `current` were asked for.
    Owned { done: Vec<Trainer>, trainers: Vec<TrainerRow>, current: TrainerRow },
    /// The creature rows under `pokemon_id` were asked for.
    Creature {
        done: Vec<Trainer>,
        trainers: Vec<TrainerRow>,
        current: TrainerRow,
        creatures: Vec<Pokemon>,
        ids: Vec<i32>,
        pokemon_id: i32,
    },
    /// The region name of `row` was asked for; `rows` holds the creature
    /// rows that came with it and are still to resolve.
    Region {
        done: Vec<Trainer>,
        trainers: Vec<TrainerRow>,
        current: TrainerRow,
        creatures: Vec<Pokemon>,
        ids: Vec<i32>,
        rows: Vec<PokemonRow>,
        row: PokemonRow,
    },
}

/// The creatures that a sequence of creature rows resolves to, in order, or
/// `None` where the region of any of them is missing.
pub open spec fn creatures_for_rows(tables: Tables, rows: Seq<PokemonRow>) -> Option<Seq<Pokemon>>
    decreases rows.len(),
{
    if rows.len() == 0 {
        Some(Seq::empty())
    } else {
        match (tables.creature(rows[0]), creatures_for_rows(tables, rows.drop_first())) {
            (Some(first), Some(rest)) => Some(seq![first] + rest),
            _ => None,
        }
    }
}

/// The creatures under an owned id: every creature row that the snapshot
/// holds under it, resolved. `None` where the snapshot holds no creature
/// row under the id, or lacks the region of one.
pub open spec fn creatures_under(tables: Tables, pokemon_id: i32) -> Option<Seq<Pokemon>> {
    let rows = tables.pokemon_by_id(pokemon_id);
    if rows.len() == 0 {
        None
    } else {
        creatures_for_rows(tables, rows)
    }
}

/// The creatures that a sequence of owned ids resolves to: for each id in
/// order, and without removing repetitions, every creature row under it.
/// `None` where an id has no creature row or a region is missing.
pub open spec fn creatures_for_ids(tables: Tables, ids: Seq<i32>) -> Option<Seq<Pokemon>>
    decreases ids.len(),
{
    if ids.len() == 0 {
        Some(Seq::empty())
    } else {
        match (
            creatures_under(tables, ids[0]),
            creatures_for_ids(tables, ids.drop_first()),
        ) {
            (Some(first), Some(rest)) => Some(first + rest),
            _ => None,
        }
    }
}

/// The roster of a trainer in a snapshot, or `None` where an owned creature
/// or its region is missing.
pub open spec fn roster_of(tables: Tables, trainer_id: i32) -> Option<Seq<Pokemon>> {
    creatures_for_ids(tables, tables.owned_ids(trainer_id))
}

/// The listing entries of a sequence of trainer rows, in order, each with
/// its roster, or `None` where an owned creature or a region is missing.
pub open spec fn listing_for(tables: Tables, rows: Seq<TrainerRow>) -> Option<Seq<TrainerView>>
    decreases rows.len(),
{
    if rows.len() == 0 {
        Some(Seq::empty())
    } else {
        match (roster_of(tables, rows[0].trainer_id), listing_for(tables, rows.drop_first())) {
            (Some(roster), Some(rest)) => Some(seq![trainer_with(rows[0], roster)] + rest),
            _ => None,
        }
    }
}

/// The whole trainer listing of a snapshot.
pub open spec fn listing_of(tables: Tables) -> Option<Seq<TrainerView>> {
    listing_for(tables, tables.trainer)
}

/// The listing made of the entries `done`, then `current` with the roster
/// `creatures` followed by `more` and `further`, then the entries of
/// `trainers`, where all of these exist.
pub open spec fn remaining(
    tables: Tables,
    done: Seq<TrainerView>,
    trainers: Seq<TrainerRow>,
    current: TrainerRow,
    creatures: Seq<Pokemon>,
    more: Option<Seq<Pokemon>>,
    further: Option<Seq<Pokemon>>,
) -> Option<Seq<TrainerView>> {
    match (more, further, listing_for(tables, trainers)) {
        (Some(more), Some(further), Some(rest)) => Some(
            done + seq![trainer_with(current, creatures + more + further)] + rest,
        ),
        _ => None,
    }
}

impl RosterAssembly {
    /// The statement whose answer this state waits for.
    pub open spec fn asked(self) -> Statement {
        match self {
            RosterAssembly::Listing => Statement::AllTrainers,
            RosterAssembly::Owned { current, .. } => Statement::OwnedPokemon(current.trainer_id),
            RosterAssembly::Creature { pokemon_id, .. } => Statement::PokemonById(pokemon_id),
            RosterAssembly::Region { row, .. } => Statement::RegionName(row.region_id),
        }
    }

    /// What follows once the entries `done` are assembled and `trainers`
    /// are still to come: the listing as it is if no trainer is left, else
    /// the question for the creatures of the first.
    pub open spec fn turns_to(
        done: Seq<TrainerView>,
        trainers: Seq<TrainerRow>,
        next: Step<RosterAssembly, GetTrainersResponse>,
    ) -> bool {
        if trainers.len() == 0 {
            next matches Step::Done(ApiResponse::JsonData(body)) && trainer_views(body.trainers@)
                == done
        } else {
            &&& next matches Step::Ask(
                RosterAssembly::Owned { done: d, trainers: t, current },
                statement,
            )
            &&& trainer_views(d@) == done
            &&& t@ == trainers.drop_first()
            &&& current == trainers[0]
            &&& statement == Statement::OwnedPokemon(current.trainer_id)
        }
    }

    /// What follows within the roster of `current`: the region of the first
    /// pending creature row is asked for; with no row pending, the creature
    /// rows of the first pending id; with neither, the trainer is complete
    /// and the listing turns to the next one.
    pub open spec fn proceeds(
        done: Seq<TrainerView>,
        trainers: Seq<TrainerRow>,
        current: TrainerRow,
        creatures: Seq<Pokemon>,
        ids: Seq<i32>,
        rows: Seq<PokemonRow>,
        next: Step<RosterAssembly, GetTrainersResponse>,
    ) -> bool {
        if rows.len() > 0 {
            &&& next matches Step::Ask(
                RosterAssembly::Region { done: d, trainers: t, current: c, creatures: cs, ids: i, rows: r, row },
                statement,
            )
            &&& trainer_views(d@) == done
            &&& t@ == trainers
            &&& c == current
            &&& cs@ == creatures
            &&& i@ == ids
            &&& r@ == rows.drop_first()
            &&& row == rows[0]
            &&& statement == Statement::RegionName(row.region_id)
        } else if ids.len() > 0 {
            &&& next matches Step::Ask(
                RosterAssembly::Creature { done: d, trainers: t, current: c, creatures: cs, ids: i, pokemon_id },
                statement,
            )
            &&& trainer_views(d@) == done
            &&& t@ == trainers
            &&& c == current
            &&& cs@ == creatures
            &&& i@ == ids.drop_first()
            &&& pokemon_id == ids[0]
            &&& statement == Statement::PokemonById(pokemon_id)
        } else {
            Self::turns_to(done.push(trainer_with(current, creatures)), trainers, next)
        }
    }

    /// The transition relation: `next` is the move that follows `answer` in
    /// this state. A failed statement, an answer of another shape than the
    /// one waited for, an owned id without a creature row and a region
    /// without a row end the request in `Error`.
    pub open spec fn steps_to(
        self,
        answer: Answer,
        next: Step<RosterAssembly, GetTrainersResponse>,
    ) -> bool {
        match (self, answer) {
            (RosterAssembly::Listing, Answer::Trainers(rows)) => Self::turns_to(
                Seq::empty(),
                rows@,
                next,
            ),
            (RosterAssembly::Owned { done, trainers, current }, Answer::Owned(ids)) => {
                Self::proceeds(
                    trainer_views(done@),
                    trainers@,
                    current,
                    Seq::empty(),
                    ids@,
                    Seq::empty(),
                    next,
                )
            },
            (
                RosterAssembly::Creature { done, trainers, current, creatures, ids, .. },
                Answer::Pokemon(rows),
            ) if rows@.len() > 0 => Self::proceeds(
                trainer_views(done@),
                trainers@,
                current,
                creatures@,
                ids@,
                rows@,
                next,
            ),
            (
                RosterAssembly::Region { done, trainers, current, creatures, ids, rows, row },
                Answer::Regions(names),
            ) if names@.len() > 0 => Self::proceeds(
                trainer_views(done@),
                trainers@,
                current,
                creatures@.push(resolved(row, names@[0])),
                ids@,
                rows@,
                next,
            ),
            _ => next == Step::<RosterAssembly, GetTrainersResponse>::Done(ApiResponse::Error),
        }
    }

    /// The listing that this state leads to when every further answer comes
    /// from `tables`; `None` where an owned creature or a region is
    /// missing.
    pub open spec fn outcome(self, tables: Tables) -> Option<Seq<TrainerView>> {
        match self {
            RosterAssembly::Listing => listing_of(tables),
            RosterAssembly::Owned { done, trainers, current } => remaining(
                tables,
                trainer_views(done@),
                trainers@,
                current,
                Seq::empty(),
                Some(Seq::empty()),
                roster_of(tables, current.trainer_id),
            ),
            RosterAssembly::Creature { done, trainers, current, creatures, ids, pokemon_id } => {
                remaining(
                    tables,
                    trainer_views(done@),
                    trainers@,
                    current,
                    creatures@,
                    creatures_under(tables, pokemon_id),
                    creatures_for_ids(tables, ids@),
                )
            },
            RosterAssembly::Region { done, trainers, current, creatures, ids, rows, row } => {
                remaining(
                    tables,
                    trainer_views(done@),
                    trainers@,
                    current,
                    creatures@,
                    creatures_for_rows(tables, seq![row] + rows@),
                    creatures_for_ids(tables, ids@),
                )
            },
        }
    }

    /// A bound on the number of statements still to be answered before the
    /// request ends, when every further answer comes from `tables`.
    pub open spec fn round_trips_left(self, tables: Tables) -> nat {
        match self {
            RosterAssembly::Listing => 1 + round_trips_for(tables, tables.trainer),
            RosterAssembly::Owned { trainers, current, .. } => 1 + round_trips_for_ids(
                tables,
                tables.owned_ids(current.trainer_id),
            ) + round_trips_for(tables, trainers@),
            RosterAssembly::Creature { trainers, ids, pokemon_id, .. } => 1 + tables.pokemon_by_id(
                pokemon_id,
            ).len() + round_trips_for_ids(tables, ids@) + round_trips_for(tables, trainers@),
            RosterAssembly::Region { trainers, ids, rows, .. } => 1 + rows@.len()
                + round_trips_for_ids(tables, ids@) + round_trips_for(tables, trainers@),
        }
    }

    /// Ends the listing if no trainer is left, else asks for the creatures
    /// of the first.
    fn turn(done: Vec<Trainer>, trainers: Vec<TrainerRow>) -> (next: Step<
        RosterAssembly,
        GetTrainersResponse,
    >)
        ensures
            Self::turns_to(trainer_views(done@), trainers@, next),
    {
        if trainers.len() == 0 {
            Step::Done(ApiResponse::JsonData(GetTrainersResponse { trainers: done }))
        } else {
            let mut rest = trainers;
            let current = rest.remove(0);
            assert(rest@ =~= trainers@.drop_first());
            let trainer_id = current.trainer_id;
            Step::Ask(
                RosterAssembly::Owned { done, trainers: rest, current },
                Statement::OwnedPokemon(trainer_id),
            )
        }
    }

    /// Asks the next question within the roster of `current`, or completes
    /// the trainer and turns to the next one.
    fn proceed(
        done: Vec<Trainer>,
        trainers: Vec<TrainerRow>,
        current: TrainerRow,
        creatures: Vec<Pokemon>,
        ids: Vec<i32>,
        rows: Vec<PokemonRow>,
    ) -> (next: Step<RosterAssembly, GetTrainersResponse>)
        ensures
            Self::proceeds(
                trainer_views(done@),
                trainers@,
                current,
                creatures@,
                ids@,
                rows@,
                next,
            ),
    {
        if rows.len() > 0 {
            let mut rest = rows;
            let row = rest.remove(0);
            assert(rest@ =~= rows@.drop_first());
            let region_id = row.region_id;
            Step::Ask(
                RosterAssembly::Region { done, trainers, current, creatures, ids, rows: rest, row },
                Statement::RegionName(region_id),
            )
        } else if ids.len() > 0 {
            let mut rest = ids;
            let pokemon_id = rest.remove(0);
            assert(rest@ =~= ids@.drop_first());
            Step::Ask(
                RosterAssembly::Creature { done, trainers, current, creatures, ids: rest, pokemon_id },
                Statement::PokemonById(pokemon_id),
            )
        } else {
            let mut longer = done;
            let trainer = Trainer {
                trainer_id: current.trainer_id,
                name: current.name,
                gym_leader: current.gym_leader,
                pokemon: Some(creatures),
            };
            longer.push(trainer);
            assert(trainer_views(longer@) =~= trainer_views(done@).push(
                trainer_with(current, creatures@),
            ));
            Self::turn(longer, trainers)
        }
    }

    /// Takes the store's answer to the statement last asked and makes the
    /// next move.
    pub fn step(self, answer: Answer) -> (next: Step<RosterAssembly, GetTrainersResponse>)
        ensures
            self.steps_to(answer, next),
    {
        match (self, answer) {
            (RosterAssembly::Listing, Answer::Trainers(rows)) => {
                let done: Vec<Trainer> = Vec::new();
                assert(trainer_views(done@) =~= Seq::empty());
                Self::turn(done, rows)
            },
            (RosterAssembly::Owned { done, trainers, current }, Answer::Owned(ids)) => {
                Self::proceed(done, trainers, current, Vec::new(), ids, Vec::new())
            },
            (
                RosterAssembly::Creature { done, trainers, current, creatures, ids, .. },
                Answer::Pokemon(rows),
            ) => {
                if rows.len() == 0 {
                    Step::Done(ApiResponse::Error)
                } else {
                    Self::proceed(done, trainers, current, creatures, ids, rows)
                }
            },
            (
                RosterAssembly::Region { done, trainers, current, creatures, ids, rows, row },
                Answer::Regions(names),
            ) => {
                if names.len() == 0 {
                    Step::Done(ApiResponse::Error)
                } else {
                    let mut names = names;
                    let region = names.remove(0);
                    let mut longer = creatures;
                    longer.push(Pokemon { pokemon_id: row.pokemon_id, name: row.name, region });
                    Self::proceed(done, trainers, current, longer, ids, rows)
                }
            },
            _ => Step::Done(ApiResponse::Error),
        }
    }
}

/// Starts the listing of all trainers with their rosters: every trainer row
/// is asked for first.
pub fn get_trainers() -> (first: Step<RosterAssembly, GetTrainersResponse>)
    ensures
        first == Step::<RosterAssembly, GetTrainersResponse>::Ask(
            RosterAssembly::Listing,
            Statement::AllTrainers,
        ),
{
    Step::Ask(RosterAssembly::Listing, Statement::AllTrainers)
}

/// The listing made of the entries `done` followed by `rest`, if `rest`
/// exists.
pub open spec fn extended(done: Seq<TrainerView>, rest: Option<Seq<TrainerView>>) -> Option<
    Seq<TrainerView>,
> {
    match rest {
        Some(rest) => Some(done + rest),
        None => None,
    }
}

/// Whether a response is the one owed for an expected listing: the listing
/// as the body where there is one, `Error` where there is none.
pub open spec fn delivers(
    response: ApiResponse<GetTrainersResponse>,
    expected: Option<Seq<TrainerView>>,
) -> bool {
    match expected {
        Some(list) => response matches ApiResponse::JsonData(body) && trainer_views(body.trainers@)
            == list,
        None => response is Error,
    }
}

/// Whether a move asks what its state waits for and leads to `expected`, or
/// ends the request with the response owed for `expected`.
pub open spec fn leads_to(
    tables: Tables,
    next: Step<RosterAssembly, GetTrainersResponse>,
    expected: Option<Seq<TrainerView>>,
) -> bool {
    match next {
        Step::Ask(after, statement) => statement == after.asked() && after.outcome(tables)
            == expected,
        Step::Done(response) => delivers(response, expected),
    }
}

proof fn turning_leads_on(
    tables: Tables,
    done: Seq<TrainerView>,
    trainers: Seq<TrainerRow>,
    next: Step<RosterAssembly, GetTrainersResponse>,
)
    requires
        RosterAssembly::turns_to(done, trainers, next),
    ensures
        leads_to(tables, next, extended(done, listing_for(tables, trainers))),
{
    if trainers.len() == 0 {
        assert(done + Seq::<TrainerView>::empty() =~= done);
    } else {
        let current = trainers[0];
        match (roster_of(tables, current.trainer_id), listing_for(tables, trainers.drop_first())) {
            (Some(roster), Some(rest)) => {
                let none = Seq::<Pokemon>::empty();
                assert(none + none + roster =~= roster);
                assert(done + (seq![trainer_with(current, roster)] + rest) =~= done
                    + seq![trainer_with(current, roster)] + rest);
            },
            _ => {},
        }
    }
}

proof fn proceeding_leads_on(
    tables: Tables,
    done: Seq<TrainerView>,
    trainers: Seq<TrainerRow>,
    current: TrainerRow,
    creatures: Seq<Pokemon>,
    ids: Seq<i32>,
    rows: Seq<PokemonRow>,
    next: Step<RosterAssembly, GetTrainersResponse>,
)
    requires
        RosterAssembly::proceeds(done, trainers, current, creatures, ids, rows, next),
    ensures
        leads_to(
            tables,
            next,
            remaining(
                tables,
                done,
                trainers,
                current,
                creatures,
                creatures_for_rows(tables, rows),
                creatures_for_ids(tables, ids),
            ),
        ),
{
    let none = Seq::<Pokemon>::empty();
    if rows.len() > 0 {
        assert(seq![rows[0]] + rows.drop_first() =~= rows);
    } else if ids.len() > 0 {
        match (
            creatures_under(tables, ids[0]),
            creatures_for_ids(tables, ids.drop_first()),
        ) {
            (Some(first), Some(rest)) => {
                assert(creatures + none + (first + rest) =~= creatures + first + rest);
            },
            _ => {},
        }
    } else {
        let entry = trainer_with(current, creatures);
        turning_leads_on(tables, done.push(entry), trainers, next);
        assert(creatures + none + none =~= creatures);
        match listing_for(tables, trainers) {
            Some(rest) => {
                assert(done.push(entry) + rest =~= done + seq![entry] + rest);
            },
            None => {},
        }
    }
}

/// A move made on an answer of the snapshot asks what the new state waits
/// for and leads to the same listing as before; a move that ends the
/// request ends it with that listing, or with `Error` where the snapshot
/// lacks an owned creature or a region.
pub proof fn step_keeps_outcome(
    tables: Tables,
    state: RosterAssembly,
    answer: Answer,
    next: Step<RosterAssembly, GetTrainersResponse>,
)
    requires
        tables.answers(state.asked(), answer),
        state.steps_to(answer, next),
    ensures
        leads_to(tables, next, state.outcome(tables)),
{
    match (state, answer) {
        (RosterAssembly::Listing, Answer::Trainers(rows)) => {
            turning_leads_on(tables, Seq::empty(), rows@, next);
            match listing_for(tables, rows@) {
                Some(rest) => {
                    assert(Seq::<TrainerView>::empty() + rest =~= rest);
                },
                None => {},
            }
        },
        (RosterAssembly::Owned { done, trainers, current }, Answer::Owned(ids)) => {
            proceeding_leads_on(
                tables,
                trainer_views(done@),
                trainers@,
                current,
                Seq::empty(),
                ids@,
                Seq::empty(),
                next,
            );
        },
        (
            RosterAssembly::Creature { done, trainers, current, creatures, ids, .. },
            Answer::Pokemon(rows),
        ) => {
            if rows@.len() > 0 {
                proceeding_leads_on(
                    tables,
                    trainer_views(done@),
                    trainers@,
                    current,
                    creatures@,
                    ids@,
                    rows@,
                    next,
                );
            }
        },
        (
            RosterAssembly::Region { done, trainers, current, creatures, ids, rows, row },
            Answer::Regions(names),
        ) => {
            let all = seq![row] + rows@;
            assert(all[0] == row);
            assert(all.drop_first() =~= rows@);
            if names@.len() > 0 {
                let creature = resolved(row, names@[0]);
                proceeding_leads_on(
                    tables,
                    trainer_views(done@),
                    trainers@,
                    current,
                    creatures@.push(creature),
                    ids@,
                    rows@,
                    next,
                );
                match (creatures_for_rows(tables, rows@), creatures_for_ids(tables, ids@)) {
                    (Some(more), Some(further)) => {
                        assert(creatures@.push(creature) + more + further =~= creatures@ + (
                        seq![creature] + more) + further);
                    },
                    _ => {},
                }
            }
        },
        _ => {},
    }
}

/// Whether `moves` is a run of the trainer listing against the snapshot: it
/// begins with the first question, and each further move follows the one
/// before on the snapshot's answer to the statement that was asked.
pub open spec fn is_run(
    tables: Tables,
    answers: Seq<Answer>,
    moves: Seq<Step<RosterAssembly, GetTrainersResponse>>,
) -> bool {
    &&& moves.len() == answers.len() + 1
    &&& moves[0] == Step::<RosterAssembly, GetTrainersResponse>::Ask(
        RosterAssembly::Listing,
        Statement::AllTrainers,
    )
    &&& forall|i: int|
        0 <= i < answers.len() ==> {
            &&& #[trigger] moves[i] matches Step::Ask(state, statement)
            &&& tables.answers(statement, answers[i])
            &&& state.steps_to(answers[i], moves[i + 1])
        }
}

proof fn run_keeps_outcome(
    tables: Tables,
    answers: Seq<Answer>,
    moves: Seq<Step<RosterAssembly, GetTrainersResponse>>,
    k: int,
)
    requires
        is_run(tables, answers, moves),
        0 <= k < moves.len(),
    ensures
        leads_to(tables, moves[k], listing_of(tables)),
    decreases k,
{
    if k > 0 {
        run_keeps_outcome(tables, answers, moves, k - 1);
        match moves[k - 1] {
            Step::Ask(state, _) => {
                step_keeps_outcome(tables, state, answers[k - 1], moves[k]);
            },
            Step::Done(_) => {},
        }
    }
}

/// Every run against a snapshot that comes to an end ends with the
/// snapshot's listing: every trainer row in order, each with its roster
/// present, or `Error` if and only if an owned creature or a region is
/// missing. The response
/// depends on the snapshot alone, so two such runs with no write between
/// them give the same listing.
pub proof fn run_ends_in_listing(
    tables: Tables,
    answers: Seq<Answer>,
    moves: Seq<Step<RosterAssembly, GetTrainersResponse>>,
)
    requires
        is_run(tables, answers, moves),
        moves.last() is Done,
    ensures
        moves.last() matches Step::Done(response) && delivers(response, listing_of(tables)),
{
    run_keeps_outcome(tables, answers, moves, moves.len() - 1);
}

/// A listing has one entry per trainer row, in the rows' order; each entry
/// carries the row's id, name and flag, and a roster that is present.
pub proof fn listing_holds_every_row(tables: Tables, rows: Seq<TrainerRow>, k: int)
    requires
        listing_for(tables, rows) is Some,
        0 <= k < rows.len(),
    ensures
        listing_for(tables, rows).unwrap().len() == rows.len(),
        roster_of(tables, rows[k].trainer_id) matches Some(roster) && listing_for(
            tables,
            rows,
        ).unwrap()[k] == trainer_with(rows[k], roster),
    decreases rows.len(),
{
    listing_length(tables, rows);
    if k > 0 {
        listing_length(tables, rows.drop_first());
        listing_holds_every_row(tables, rows.drop_first(), k - 1);
    }
}

proof fn listing_length(tables: Tables, rows: Seq<TrainerRow>)
    requires
        listing_for(tables, rows) is Some,
    ensures
        listing_for(tables, rows).unwrap().len() == rows.len(),
    decreases rows.len(),
{
    if rows.len() > 0 {
        listing_length(tables, rows.drop_first());
    }
}

proof fn rows_resolve_alike(a: Tables, b: Tables, rows: Seq<PokemonRow>)
    requires
        a.region == b.region,
    ensures
        creatures_for_rows(a, rows) == creatures_for_rows(b, rows),
    decreases rows.len(),
{
    if rows.len() > 0 {
        rows_resolve_alike(a, b, rows.drop_first());
    }
}

proof fn ids_resolve_alike(a: Tables, b: Tables, ids: Seq<i32>)
    requires
        a.region == b.region,
        a.pokemon == b.pokemon,
    ensures
        creatures_for_ids(a, ids) == creatures_for_ids(b, ids),
    decreases ids.len(),
{
    if ids.len() > 0 {
        rows_resolve_alike(a, b, a.pokemon_by_id(ids[0]));
        ids_resolve_alike(a, b, ids.drop_first());
    }
}

/// The listing entries of trainer rows depend on the creature, region and
/// ownership tables alone: two snapshots that agree on these give the same
/// entries for the same rows.
pub proof fn listing_ignores_trainer_table(a: Tables, b: Tables, rows: Seq<TrainerRow>)
    requires
        a.region == b.region,
        a.pokemon == b.pokemon,
        a.trainerspokemon == b.trainerspokemon,
    ensures
        listing_for(a, rows) == listing_for(b, rows),
    decreases rows.len(),
{
    if rows.len() > 0 {
        ids_resolve_alike(a, b, a.owned_ids(rows[0].trainer_id));
        listing_ignores_trainer_table(a, b, rows.drop_first());
    }
}

/// The listing `first` followed by the listing `second`, where both exist.
pub open spec fn chained(
    first: Option<Seq<TrainerView>>,
    second: Option<Seq<TrainerView>>,
) -> Option<Seq<TrainerView>> {
    match (first, second) {
        (Some(first), Some(second)) => Some(first + second),
        _ => None,
    }
}

/// The listing of one sequence of trainer rows followed by another is the
/// listing of the first followed by the listing of the second.
pub proof fn listing_of_joined_rows(tables: Tables, first: Seq<TrainerRow>, second: Seq<TrainerRow>)
    ensures
        listing_for(tables, first + second) == chained(
            listing_for(tables, first),
            listing_for(tables, second),
        ),
    decreases first.len(),
{
    let all = first + second;
    if first.len() == 0 {
        assert(all =~= second);
        match listing_for(tables, second) {
            Some(rest) => {
                assert(Seq::<TrainerView>::empty() + rest =~= rest);
            },
            None => {},
        }
    } else {
        assert(all[0] == first[0]);
        assert(all.drop_first() =~= first.drop_first() + second);
        listing_of_joined_rows(tables, first.drop_first(), second);
        match (
            roster_of(tables, first[0].trainer_id),
            listing_for(tables, first.drop_first()),
            listing_for(tables, second),
        ) {
            (Some(roster), Some(rest), Some(more)) => {
                let head = trainer_with(first[0], roster);
                assert(seq![head] + (rest + more) =~= (seq![head] + rest) + more);
            },
            _ => {},
        }
    }
}

/// After trainers were created, in whatever order the store applied the
/// creations, the listing is the one before followed by one entry per
/// created row, in the order of the rows: each with the id that the store
/// assigned, the name and the flag that were sent, and the roster that the
/// ownership table holds under that id.
pub proof fn created_trainers_are_listed(tables: Tables, created: Seq<TrainerRow>)
    ensures
        listing_of(tables.with_trainers(created)) == chained(
            listing_of(tables),
            listing_for(tables, created),
        ),
        listing_of(tables.with_trainers(created)) matches Some(listing) ==> {
            &&& listing_of(tables) matches Some(before)
            &&& listing.len() == before.len() + created.len()
            &&& forall|k: int|
                0 <= k < created.len() ==> (roster_of(
                    tables,
                    (#[trigger] created[k]).trainer_id,
                ) matches Some(roster) && listing[before.len() + k] == trainer_with(
                    created[k],
                    roster,
                ))
        },
{
    let after = tables.with_trainers(created);
    listing_ignores_trainer_table(after, tables, after.trainer);
    listing_of_joined_rows(tables, tables.trainer, created);
    match (listing_of(tables), listing_for(tables, created)) {
        (Some(before), Some(added)) => {
            assert forall|k: int| 0 <= k < created.len() implies (roster_of(
                tables,
                (#[trigger] created[k]).trainer_id,
            ) matches Some(roster) && (before + added)[before.len() + k] == trainer_with(
                created[k],
                roster,
            )) by {
                listing_holds_every_row(tables, created, k);
            }
            if created.len() > 0 {
                listing_holds_every_row(tables, created, 0);
            } else {
                assert(added.len() == 0);
            }
        },
        _ => {},
    }
}

/// After one trainer was created, the listing is the one before with
/// exactly one new entry at its end: it has the id that the store assigned
/// and the name and the flag that were sent.
pub proof fn created_trainer_is_listed(tables: Tables, id: i32, name: String, gym_leader: bool)
    ensures
        listing_of(tables.with_trainer(id, name, gym_leader)) == match (
            listing_of(tables),
            roster_of(tables, id),
        ) {
            (Some(before), Some(roster)) => Some(
                before.push(trainer_with(TrainerRow { trainer_id: id, name, gym_leader }, roster)),
            ),
            _ => None,
        },
{
    let row = TrainerRow { trainer_id: id, name, gym_leader };
    let created = seq![row];
    assert(tables.trainer.push(row) =~= tables.trainer + created);
    assert(tables.with_trainer(id, name, gym_leader) == tables.with_trainers(created));
    created_trainers_are_listed(tables, created);
    assert(created.drop_first() =~= Seq::<TrainerRow>::empty());
    assert(listing_for(tables, created.drop_first()) == Some(Seq::<TrainerView>::empty()));
    match (listing_of(tables), roster_of(tables, id)) {
        (Some(before), Some(roster)) => {
            let entry = trainer_with(row, roster);
            assert(before + (seq![entry] + Seq::<TrainerView>::empty()) =~= before.push(entry));
        },
        _ => {},
    }
}

/// Two runs against the same snapshot that come to an end give the same
/// response: both fail, or both succeed with the same listing.
pub proof fn repeated_listing_is_the_same(
    tables: Tables,
    answers: Seq<Answer>,
    moves: Seq<Step<RosterAssembly, GetTrainersResponse>>,
    answers_again: Seq<Answer>,
    moves_again: Seq<Step<RosterAssembly, GetTrainersResponse>>,
)
    requires
        is_run(tables, answers, moves),
        is_run(tables, answers_again, moves_again),
        moves.last() is Done,
        moves_again.last() is Done,
    ensures
        match (moves.last(), moves_again.last()) {
            (Step::Done(ApiResponse::JsonData(body)), Step::Done(ApiResponse::JsonData(again))) => {
                trainer_views(body.trainers@) == trainer_views(again.trainers@)
            },
            (Step::Done(ApiResponse::Error), Step::Done(ApiResponse::Error)) => true,
            _ => false,
        },
{
    run_ends_in_listing(tables, answers, moves);
    run_ends_in_listing(tables, answers_again, moves_again);
}

/// The number of round trips that the rosters of a sequence of owned ids
/// take when nothing is missing: for each id one for its creature rows
/// and one for the region of each of them.
pub open spec fn round_trips_for_ids(tables: Tables, ids: Seq<i32>) -> nat
    decreases ids.len(),
{
    if ids.len() == 0 {
        0
    } else {
        1 + tables.pokemon_by_id(ids[0]).len() + round_trips_for_ids(tables, ids.drop_first())
    }
}

/// The number of round trips that the entries of a sequence of trainer rows
/// take when nothing is missing: for each trainer one for the owned ids,
/// and those of the ids.
pub open spec fn round_trips_for(tables: Tables, rows: Seq<TrainerRow>) -> nat
    decreases rows.len(),
{
    if rows.len() == 0 {
        0
    } else {
        1 + round_trips_for_ids(tables, tables.owned_ids(rows[0].trainer_id)) + round_trips_for(
            tables,
            rows.drop_first(),
        )
    }
}

/// A move made on an answer of the snapshot that asks again uses up one
/// round trip of the bound.
pub proof fn step_uses_one_round_trip(
    tables: Tables,
    state: RosterAssembly,
    answer: Answer,
    next: Step<RosterAssembly, GetTrainersResponse>,
)
    requires
        tables.answers(state.asked(), answer),
        state.steps_to(answer, next),
    ensures
        state.round_trips_left(tables) >= 1,
        next matches Step::Ask(after, _) ==> after.round_trips_left(tables) + 1
            == state.round_trips_left(tables),
{
}

proof fn run_uses_round_trips(
    tables: Tables,
    answers: Seq<Answer>,
    moves: Seq<Step<RosterAssembly, GetTrainersResponse>>,
    k: int,
)
    requires
        is_run(tables, answers, moves),
        0 <= k < moves.len(),
    ensures
        k <= 1 + round_trips_for(tables, tables.trainer),
        moves[k] matches Step::Ask(state, statement) ==> statement == state.asked()
            && state.round_trips_left(tables) + k == 1 + round_trips_for(tables, tables.trainer),
    decreases k,
{
    if k > 0 {
        run_uses_round_trips(tables, answers, moves, k - 1);
        match moves[k - 1] {
            Step::Ask(state, _) => {
                step_uses_one_round_trip(tables, state, answers[k - 1], moves[k]);
                step_keeps_outcome(tables, state, answers[k - 1], moves[k]);
            },
            Step::Done(_) => {},
        }
    }
}

/// A run against a snapshot makes at most one round trip for the trainer
/// rows and, for each of them, one for the owned ids, one for each id and
/// one for each creature row found under it.
pub proof fn run_is_bounded(
    tables: Tables,
    answers: Seq<Answer>,
    moves: Seq<Step<RosterAssembly, GetTrainersResponse>>,
)
    requires
        is_run(tables, answers, moves),
    ensures
        answers.len() <= 1 + round_trips_for(tables, tables.trainer),
{
    run_uses_round_trips(tables, answers, moves, moves.len() - 1);
}

/// The snapshot has a creature row under an owned id, and a region for
/// every creature row under it.
pub open spec fn has_creature(tables: Tables, pokemon_id: i32) -> bool {
    &&& tables.pokemon_by_id(pokemon_id).len() > 0
    &&& forall|k: int|
        0 <= k < tables.pokemon_by_id(pokemon_id).len() ==> has_region(
            tables,
            #[trigger] tables.pokemon_by_id(pokemon_id)[k],
        )
}

/// The snapshot has a creature row, with its region, for every creature id
/// that a trainer owns.
pub open spec fn has_whole_roster(tables: Tables, trainer_id: i32) -> bool {
    forall|k: int|
        0 <= k < tables.owned_ids(trainer_id).len() ==> has_creature(
            tables,
            #[trigger] tables.owned_ids(trainer_id)[k],
        )
}

proof fn rows_resolve_unless_region_missing(tables: Tables, rows: Seq<PokemonRow>)
    ensures
        creatures_for_rows(tables, rows) is Some <==> forall|k: int|
            0 <= k < rows.len() ==> has_region(tables, #[trigger] rows[k]),
    decreases rows.len(),
{
    if rows.len() > 0 {
        let rest = rows.drop_first();
        rows_resolve_unless_region_missing(tables, rest);
        if creatures_for_rows(tables, rows) is Some {
            assert forall|k: int| 0 <= k < rows.len() implies has_region(
                tables,
                #[trigger] rows[k],
            ) by {
                if k > 0 {
                    assert(rows[k] == rest[k - 1]);
                }
            }
        }
        if forall|k: int| 0 <= k < rows.len() ==> has_region(tables, #[trigger] rows[k]) {
            assert(has_region(tables, rows[0]));
            assert forall|j: int| 0 <= j < rest.len() implies has_region(
                tables,
                #[trigger] rest[j],
            ) by {
                assert(rest[j] == rows[j + 1]);
            }
        }
    }
}

proof fn ids_resolve_unless_row_missing(tables: Tables, ids: Seq<i32>)
    ensures
        creatures_for_ids(tables, ids) is Some <==> forall|k: int|
            0 <= k < ids.len() ==> has_creature(tables, #[trigger] ids[k]),
    decreases ids.len(),
{
    if ids.len() > 0 {
        let rest = ids.drop_first();
        ids_resolve_unless_row_missing(tables, rest);
        rows_resolve_unless_region_missing(tables, tables.pokemon_by_id(ids[0]));
        if creatures_for_ids(tables, ids) is Some {
            assert forall|k: int| 0 <= k < ids.len() implies has_creature(
                tables,
                #[trigger] ids[k],
            ) by {
                if k > 0 {
                    assert(ids[k] == rest[k - 1]);
                }
            }
        }
        if forall|k: int| 0 <= k < ids.len() ==> has_creature(tables, #[trigger] ids[k]) {
            assert(has_creature(tables, ids[0]));
            assert forall|j: int| 0 <= j < rest.len() implies has_creature(
                tables,
                #[trigger] rest[j],
            ) by {
                assert(rest[j] == ids[j + 1]);
            }
        }
    }
}

/// A listing exists exactly where the snapshot has, for every creature id
/// that any of the trainers owns, a creature row and its region: the
/// request fails if and only if one of them is missing.
pub proof fn listing_exists_unless_row_missing(tables: Tables, rows: Seq<TrainerRow>)
    ensures
        listing_for(tables, rows) is Some <==> forall|k: int|
            0 <= k < rows.len() ==> has_whole_roster(tables, (#[trigger] rows[k]).trainer_id),
    decreases rows.len(),
{
    if rows.len() > 0 {
        let rest = rows.drop_first();
        listing_exists_unless_row_missing(tables, rest);
        ids_resolve_unless_row_missing(tables, tables.owned_ids(rows[0].trainer_id));
        if listing_for(tables, rows) is Some {
            assert forall|k: int| 0 <= k < rows.len() implies has_whole_roster(
                tables,
                (#[trigger] rows[k]).trainer_id,
            ) by {
                if k > 0 {
                    assert(rows[k] == rest[k - 1]);
                }
            }
        }
        if forall|k: int|
            0 <= k < rows.len() ==> has_whole_roster(tables, (#[trigger] rows[k]).trainer_id) {
            assert(has_whole_roster(tables, rows[0].trainer_id));
            assert forall|j: int| 0 <= j < rest.len() implies has_whole_roster(
                tables,
                (#[trigger] rest[j]).trainer_id,
            ) by {
                assert(rest[j] == rows[j + 1]);
            }
        }
    }
}

/// After a trainer was created under an id that is new to the snapshot, a
/// listing that existed before exists after, with exactly one new entry at
/// its end: it has the id that the store assigned, which no earlier entry
/// has, the name and the flag that were sent, and an empty roster.
pub proof fn fresh_trainer_is_listed(tables: Tables, id: i32, name: String, gym_leader: bool)
    requires
        tables.is_fresh(id),
        listing_of(tables) is Some,
    ensures
        listing_of(tables.with_trainer(id, name, gym_leader)) == Some(
            listing_of(tables).unwrap().push(
                trainer_with(TrainerRow { trainer_id: id, name, gym_leader }, Seq::empty()),
            ),
        ),
        forall|i: int|
            0 <= i < listing_of(tables).unwrap().len() ==> (#[trigger] listing_of(
                tables,
            ).unwrap()[i]).trainer_id != id,
{
    created_trainer_is_listed(tables, id, name, gym_leader);
    let before = listing_of(tables).unwrap();
    listing_length(tables, tables.trainer);
    assert forall|i: int| 0 <= i < before.len() implies (#[trigger] before[i]).trainer_id != id by {
        listing_holds_every_row(tables, tables.trainer, i);
    }
}

/// After trainers were created under ids that own nothing, in whatever
/// order the store applied the creations, a listing that existed before
/// exists after: the entries before, unchanged, followed by one entry per
/// created row with that row's id, name and flag and an empty roster. The
/// new entries have distinct ids exactly where the store assigned distinct
/// ids.
pub proof fn fresh_trainers_are_listed(tables: Tables, created: Seq<TrainerRow>)
    requires
        listing_of(tables) is Some,
        forall|k: int|
            0 <= k < created.len() ==> tables.owned_ids((#[trigger] created[k]).trainer_id).len()
                == 0,
    ensures
        listing_of(tables.with_trainers(created)) matches Some(listing) && {
            let before = listing_of(tables).unwrap();
            &&& listing.len() == before.len() + created.len()
            &&& forall|i: int| 0 <= i < before.len() ==> #[trigger] listing[i] == before[i]
            &&& forall|k: int|
                0 <= k < created.len() ==> listing[before.len() + k] == trainer_with(
                    #[trigger] created[k],
                    Seq::empty(),
                )
        },
{
    listing_exists_unless_row_missing(tables, created);
    assert forall|k: int| 0 <= k < created.len() implies has_whole_roster(
        tables,
        (#[trigger] created[k]).trainer_id,
    ) by {}
    created_trainers_are_listed(tables, created);
}

} // verus!
