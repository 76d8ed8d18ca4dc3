use vstd::prelude::*;
use crate::abilities::{abilities_of, has_all_abilities, AbilityAssembly};
use crate::abilities;
use crate::envelope::ApiResponse;
use crate::model::{
    catalogued, pokemon_views, resolved, Ability, GetAbilityResponse, GetPokemonResponse, Pokemon,
    PokemonFull, PokemonFullView, PokemonRow,
};
use crate::statement::{Answer, Statement, Step};
use crate::tables::{has_region, region_name_is_of_a_row, Tables};

verus! {

/// Where the assembly of the creature catalog stands between two round
/// trips to the store. `done` holds the creatures assembled so far, `rows`
/// the creature rows still to come.
pub enum CatalogAssembly {
    /// Every creature row was asked for.
    Listing,
    /// The region name of `row` was asked for.
    Region { done: Vec<PokemonFull>, rows: Vec<PokemonRow>, row: PokemonRow },
    /// The region of `creature` is resolved and its abilities are being
    /// assembled by `abilities`.
    Abilities {
        done: Vec<PokemonFull>,
        rows: Vec<PokemonRow>,
        creature: Pokemon,
        abilities: AbilityAssembly,
    },
}

/// The catalog entry of a resolved creature with an ability list, where
/// there is one.
pub open spec fn entry_with(creature: Pokemon, abilities: Option<Seq<Ability>>) -> Option<
    PokemonFullView,
> {
    match abilities {
        Some(abilities) => Some(catalogued(creature, abilities)),
        None => None,
    }
}

/// The catalog entry of a creature row in a snapshot, or `None` where its
/// region or one of its linked abilities is missing.
pub open spec fn entry_of(tables: Tables, row: PokemonRow) -> Option<PokemonFullView> {
    match tables.creature(row) {
        Some(creature) => entry_with(creature, abilities_of(tables, row.pokemon_id)),
        None => None,
    }
}

/// The catalog entries of a sequence of creature rows, in order, or `None`
/// where the region or a linked ability of any of them is missing.
pub open spec fn catalog_for(tables: Tables, rows: Seq<PokemonRow>) -> Option<Seq<PokemonFullView>>
    decreases rows.len(),
{
    if rows.len() == 0 {
        Some(Seq::empty())
    } else {
        match (entry_of(tables, rows[0]), catalog_for(tables, rows.drop_first())) {
            (Some(entry), Some(rest)) => Some(seq![entry] + rest),
            _ => None,
        }
    }
}

/// The whole catalog of a snapshot.
pub open spec fn catalog_of(tables: Tables) -> Option<Seq<PokemonFullView>> {
    catalog_for(tables, tables.pokemon)
}

/// The catalog made of the entries `done`, then `entry`, then `rest`, if
/// the last two exist.
pub open spec fn joined(
    done: Seq<PokemonFullView>,
    entry: Option<PokemonFullView>,
    rest: Option<Seq<PokemonFullView>>,
) -> Option<Seq<PokemonFullView>> {
    match (entry, rest) {
        (Some(entry), Some(rest)) => Some(done + seq![entry] + rest),
        _ => None,
    }
}

impl CatalogAssembly {
    /// The statement whose answer this state waits for.
    pub open spec fn asked(self) -> Statement {
        match self {
            CatalogAssembly::Listing => Statement::AllPokemon,
            CatalogAssembly::Region { row, .. } => Statement::RegionName(row.region_id),
            CatalogAssembly::Abilities { abilities, .. } => abilities.asked(),
        }
    }

    /// What follows once the entries `done` are assembled and `rows` are
    /// still to come: the catalog as it is if no row is left, else the
    /// question for the region of the first row.
    pub open spec fn proceeds(
        done: Seq<PokemonFullView>,
        rows: Seq<PokemonRow>,
        next: Step<CatalogAssembly, GetPokemonResponse>,
    ) -> bool {
        if rows.len() == 0 {
            next matches Step::Done(ApiResponse::JsonData(body)) && pokemon_views(body.pokemons@)
                == done
        } else {
            &&& next matches Step::Ask(CatalogAssembly::Region { done: d, rows: r, row }, statement)
            &&& pokemon_views(d@) == done
            &&& r@ == rows.drop_first()
            &&& row == rows[0]
            &&& statement == Statement::RegionName(row.region_id)
        }
    }

    /// What follows in the catalog when the ability assembly of `creature`
    /// made the move `inner`: its question is passed on; its list completes
    /// the creature's entry; its failure fails the catalog.
    pub open spec fn follows(
        done: Seq<PokemonFullView>,
        rows: Seq<PokemonRow>,
        creature: Pokemon,
        inner: Step<AbilityAssembly, GetAbilityResponse>,
        next: Step<CatalogAssembly, GetPokemonResponse>,
    ) -> bool {
        match inner {
            Step::Ask(state, asked) => {
                &&& next matches Step::Ask(
                    CatalogAssembly::Abilities { done: d, rows: r, creature: c, abilities },
                    statement,
                )
                &&& pokemon_views(d@) == done
                &&& r@ == rows
                &&& c == creature
                &&& abilities == state
                &&& statement == asked
            },
            Step::Done(ApiResponse::JsonData(body)) => Self::proceeds(
                done.push(catalogued(creature, body.ability@)),
                rows,
                next,
            ),
            Step::Done(_) => next == Step::<CatalogAssembly, GetPokemonResponse>::Done(
                ApiResponse::Error,
            ),
        }
    }

    /// The transition relation: `next` is the move that follows `answer` in
    /// this state. A failed statement, an answer of another shape than the
    /// one waited for, a region without a row and a linked ability without
    /// a row end the request in `Error`.
    pub open spec fn steps_to(
        self,
        answer: Answer,
        next: Step<CatalogAssembly, GetPokemonResponse>,
    ) -> bool {
        match self {
            CatalogAssembly::Listing => match answer {
                Answer::Pokemon(rows) => Self::proceeds(Seq::empty(), rows@, next),
                _ => next == Step::<CatalogAssembly, GetPokemonResponse>::Done(ApiResponse::Error),
            },
            CatalogAssembly::Region { done, rows, row } => match answer {
                Answer::Regions(names) if names@.len() > 0 => {
                    &&& next matches Step::Ask(
                        CatalogAssembly::Abilities { done: d, rows: r, creature, abilities },
                        statement,
                    )
                    &&& pokemon_views(d@) == pokemon_views(done@)
                    &&& r@ == rows@
                    &&& creature == resolved(row, names@[0])
                    &&& abilities == (AbilityAssembly::Links { pokemon_id: row.pokemon_id })
                    &&& statement == Statement::AbilityLinks(row.pokemon_id)
                },
                _ => next == Step::<CatalogAssembly, GetPokemonResponse>::Done(ApiResponse::Error),
            },
            CatalogAssembly::Abilities { done, rows, creature, abilities } => exists|
                inner: Step<AbilityAssembly, GetAbilityResponse>,
            |
                #[trigger] abilities.steps_to(answer, inner) && Self::follows(
                    pokemon_views(done@),
                    rows@,
                    creature,
                    inner,
                    next,
                ),
        }
    }

    /// The catalog that this state leads to when every further answer comes
    /// from `tables`; `None` where a region or a linked ability is missing.
    pub open spec fn outcome(self, tables: Tables) -> Option<Seq<PokemonFullView>> {
        match self {
            CatalogAssembly::Listing => catalog_of(tables),
            CatalogAssembly::Region { done, rows, row } => joined(
                pokemon_views(done@),
                entry_of(tables, row),
                catalog_for(tables, rows@),
            ),
            CatalogAssembly::Abilities { done, rows, creature, abilities } => joined(
                pokemon_views(done@),
                entry_with(creature, abilities.outcome(tables)),
                catalog_for(tables, rows@),
            ),
        }
    }

    /// A bound on the number of statements still to be answered before the
    /// request ends, when every further answer comes from `tables`.
    pub open spec fn round_trips_left(self, tables: Tables) -> nat {
        match self {
            CatalogAssembly::Listing => 1 + round_trips_for(tables, tables.pokemon),
            CatalogAssembly::Region { rows, row, .. } => 2 + tables.links_of(row.pokemon_id).len()
                + round_trips_for(tables, rows@),
            CatalogAssembly::Abilities { rows, abilities, .. } => abilities.round_trips_left(tables)
                + round_trips_for(tables, rows@),
        }
    }

    /// Ends the catalog if no row is left, else asks for the region of the
    /// first row.
    fn proceed(done: Vec<PokemonFull>, rows: Vec<PokemonRow>) -> (next: Step<
        CatalogAssembly,
        GetPokemonResponse,
    >)
        ensures
            Self::proceeds(pokemon_views(done@), rows@, next),
    {
        if rows.len() == 0 {
            Step::Done(ApiResponse::JsonData(GetPokemonResponse { pokemons: done }))
        } else {
            let mut rest = rows;
            let row = rest.remove(0);
            assert(rest@ =~= rows@.drop_first());
            let region_id = row.region_id;
            Step::Ask(
                CatalogAssembly::Region { done, rows: rest, row },
                Statement::RegionName(region_id),
            )
        }
    }

    /// Takes the store's answer to the statement last asked and makes the
    /// next move.
    pub fn step(self, answer: Answer) -> (next: Step<CatalogAssembly, GetPokemonResponse>)
        ensures
            self.steps_to(answer, next),
    {
        match self {
            CatalogAssembly::Listing => match answer {
                Answer::Pokemon(rows) => {
                    let done: Vec<PokemonFull> = Vec::new();
                    assert(pokemon_views(done@) =~= Seq::empty());
                    Self::proceed(done, rows)
                },
                _ => Step::Done(ApiResponse::Error),
            },
            CatalogAssembly::Region { done, rows, row } => match answer {
                Answer::Regions(names) => {
                    if names.len() == 0 {
                        Step::Done(ApiResponse::Error)
                    } else {
                        let mut names = names;
                        let region = names.remove(0);
                        let pokemon_id = row.pokemon_id;
                        let creature = Pokemon { pokemon_id, name: row.name, region };
                        Step::Ask(
                            CatalogAssembly::Abilities {
                                done,
                                rows,
                                creature,
                                abilities: AbilityAssembly::Links { pokemon_id },
                            },
                            Statement::AbilityLinks(pokemon_id),
                        )
                    }
                },
                _ => Step::Done(ApiResponse::Error),
            },
            CatalogAssembly::Abilities { done, rows, creature, abilities } => {
                let inner = abilities.step(answer);
                let ghost made = inner;
                let next = match inner {
                    Step::Ask(state, statement) => Step::Ask(
                        CatalogAssembly::Abilities { done, rows, creature, abilities: state },
                        statement,
                    ),
                    Step::Done(ApiResponse::JsonData(body)) => {
                        let mut longer = done;
                        let entry = PokemonFull {
                            pokemon_id: creature.pokemon_id,
                            name: creature.name,
                            region: creature.region,
                            abilities: body.ability,
                        };
                        longer.push(entry);
                        assert(pokemon_views(longer@) =~= pokemon_views(done@).push(
                            catalogued(creature, body.ability@),
                        ));
                        Self::proceed(longer, rows)
                    },
                    Step::Done(_) => Step::Done(ApiResponse::Error),
                };
                assert(abilities.steps_to(answer, made) && Self::follows(
                    pokemon_views(done@),
                    rows@,
                    creature,
                    made,
                    next,
                ));
                next
            },
        }
    }
}

/// Starts the listing of the catalog: every creature row is asked for
/// first.
pub fn get_pokemon() -> (first: Step<CatalogAssembly, GetPokemonResponse>)
    ensures
        first == Step::<CatalogAssembly, GetPokemonResponse>::Ask(
            CatalogAssembly::Listing,
            Statement::AllPokemon,
        ),
{
    Step::Ask(CatalogAssembly::Listing, Statement::AllPokemon)
}

/// The catalog made of the entries `done` followed by `rest`, if `rest`
/// exists.
pub open spec fn extended(done: Seq<PokemonFullView>, rest: Option<Seq<PokemonFullView>>) -> Option<
    Seq<PokemonFullView>,
> {
    match rest {
        Some(rest) => Some(done + rest),
        None => None,
    }
}

/// Whether a response is the one owed for an expected catalog: the catalog
/// as the body where there is one, `Error` where there is none.
pub open spec fn delivers(
    response: ApiResponse<GetPokemonResponse>,
    expected: Option<Seq<PokemonFullView>>,
) -> bool {
    match expected {
        Some(list) => response matches ApiResponse::JsonData(body) && pokemon_views(body.pokemons@)
            == list,
        None => response is Error,
    }
}

/// Whether a move asks what its state waits for and leads to `expected`, or
/// ends the request with the response owed for `expected`.
pub open spec fn leads_to(
    tables: Tables,
    next: Step<CatalogAssembly, GetPokemonResponse>,
    expected: Option<Seq<PokemonFullView>>,
) -> bool {
    match next {
        Step::Ask(after, statement) => statement == after.asked() && after.outcome(tables)
            == expected,
        Step::Done(response) => delivers(response, expected),
    }
}

proof fn proceeding_leads_on(
    tables: Tables,
    done: Seq<PokemonFullView>,
    rows: Seq<PokemonRow>,
    next: Step<CatalogAssembly, GetPokemonResponse>,
)
    requires
        CatalogAssembly::proceeds(done, rows, next),
    ensures
        leads_to(tables, next, extended(done, catalog_for(tables, rows))),
{
    if rows.len() == 0 {
        assert(done + Seq::<PokemonFullView>::empty() =~= done);
    } else {
        match (entry_of(tables, rows[0]), catalog_for(tables, rows.drop_first())) {
            (Some(entry), Some(rest)) => {
                assert(done + (seq![entry] + rest) =~= done + seq![entry] + rest);
            },
            _ => {},
        }
    }
}

/// A move made on an answer of the snapshot asks what the new state waits
/// for and leads to the same catalog as before; a move that ends the
/// request ends it with that catalog, or with `Error` where the snapshot
/// lacks a region or a linked ability.
pub proof fn step_keeps_outcome(
    tables: Tables,
    state: CatalogAssembly,
    answer: Answer,
    next: Step<CatalogAssembly, GetPokemonResponse>,
)
    requires
        tables.answers(state.asked(), answer),
        state.steps_to(answer, next),
    ensures
        leads_to(tables, next, state.outcome(tables)),
{
    match state {
        CatalogAssembly::Listing => {
            match answer {
                Answer::Pokemon(rows) => {
                    proceeding_leads_on(tables, Seq::empty(), rows@, next);
                    match catalog_for(tables, rows@) {
                        Some(rest) => {
                            assert(Seq::<PokemonFullView>::empty() + rest =~= rest);
                        },
                        None => {},
                    }
                },
                _ => {},
            }
        },
        CatalogAssembly::Region { done, rows, row } => {},
        CatalogAssembly::Abilities { done, rows, creature, abilities: inner_state } => {
            let inner = choose|inner: Step<AbilityAssembly, GetAbilityResponse>|
                #[trigger] inner_state.steps_to(answer, inner) && CatalogAssembly::follows(
                    pokemon_views(done@),
                    rows@,
                    creature,
                    inner,
                    next,
                );
            abilities::step_keeps_outcome(tables, inner_state, answer, inner);
            match inner {
                Step::Ask(_, _) => {},
                Step::Done(ApiResponse::JsonData(body)) => {
                    let entry = catalogued(creature, body.ability@);
                    let longer = pokemon_views(done@).push(entry);
                    proceeding_leads_on(tables, longer, rows@, next);
                    match catalog_for(tables, rows@) {
                        Some(rest) => {
                            assert(longer + rest =~= pokemon_views(done@) + seq![entry] + rest);
                        },
                        None => {},
                    }
                },
                Step::Done(_) => {},
            }
        },
    }
}

/// Whether `moves` is a run of the catalog listing against the snapshot: it
/// begins with the first question, and each further move follows the one
/// before on the snapshot's answer to the statement that was asked.
pub open spec fn is_run(
    tables: Tables,
    answers: Seq<Answer>,
    moves: Seq<Step<CatalogAssembly, GetPokemonResponse>>,
) -> bool {
    &&& moves.len() == answers.len() + 1
    &&& moves[0] == Step::<CatalogAssembly, GetPokemonResponse>::Ask(
        CatalogAssembly::Listing,
        Statement::AllPokemon,
    )
    &&& forall|i: int|
        0 <= i < answers.len() ==> {
            &&& #[trigger] moves[i] matches Step::Ask(state, statement)
            &&& tables.answers(statement, answers[i])
            &&& state.steps_to(answers[i], moves[i + 1])
        }
}

proof fn run_keeps_outcome(
    tables: Tables,
    answers: Seq<Answer>,
    moves: Seq<Step<CatalogAssembly, GetPokemonResponse>>,
    k: int,
)
    requires
        is_run(tables, answers, moves),
        0 <= k < moves.len(),
    ensures
        leads_to(tables, moves[k], catalog_of(tables)),
    decreases k,
{
    if k > 0 {
        run_keeps_outcome(tables, answers, moves, k - 1);
        match moves[k - 1] {
            Step::Ask(state, _) => {
                step_keeps_outcome(tables, state, answers[k - 1], moves[k]);
            },
            Step::Done(_) => {},
        }
    }
}

/// Every run against a snapshot that comes to an end ends with the
/// snapshot's catalog: every creature row in order, each with the name of
/// its region and its ability list, or `Error` if and only if a region or
/// a linked ability is missing. The response depends on the snapshot alone, so two such runs
/// with no write between them give the same catalog.
pub proof fn run_ends_in_catalog(
    tables: Tables,
    answers: Seq<Answer>,
    moves: Seq<Step<CatalogAssembly, GetPokemonResponse>>,
)
    requires
        is_run(tables, answers, moves),
        moves.last() is Done,
    ensures
        moves.last() matches Step::Done(response) && delivers(response, catalog_of(tables)),
{
    run_keeps_outcome(tables, answers, moves, moves.len() - 1);
}

/// In a catalog every creature's region is the display name of a region
/// row of the snapshot whose id is the creature's region id, and the
/// catalog has one entry per creature row.
pub proof fn catalog_regions_are_names(tables: Tables, rows: Seq<PokemonRow>, k: int)
    requires
        catalog_for(tables, rows) is Some,
        0 <= k < rows.len(),
    ensures
        catalog_for(tables, rows).unwrap().len() == rows.len(),
        exists|j: int|
            0 <= j < tables.region.len() && tables.region[j].region_id == rows[k].region_id
                && #[trigger] tables.region[j].region_name == catalog_for(
                tables,
                rows,
            ).unwrap()[k].region,
        catalog_for(tables, rows).unwrap()[k].pokemon_id == rows[k].pokemon_id,
        catalog_for(tables, rows).unwrap()[k].name == rows[k].name,
        abilities_of(tables, rows[k].pokemon_id) == Some(
            catalog_for(tables, rows).unwrap()[k].abilities,
        ),
    decreases rows.len(),
{
    catalog_length(tables, rows);
    if k == 0 {
        region_name_is_of_a_row(tables, rows[0].region_id);
    } else {
        catalog_length(tables, rows.drop_first());
        catalog_regions_are_names(tables, rows.drop_first(), k - 1);
    }
}

proof fn catalog_length(tables: Tables, rows: Seq<PokemonRow>)
    requires
        catalog_for(tables, rows) is Some,
    ensures
        catalog_for(tables, rows).unwrap().len() == rows.len(),
    decreases rows.len(),
{
    if rows.len() > 0 {
        catalog_length(tables, rows.drop_first());
    }
}

/// Where every region of the snapshot has a name that is not empty, so has
/// every creature of a catalog.
pub proof fn catalog_regions_are_not_empty(tables: Tables, rows: Seq<PokemonRow>, k: int)
    requires
        forall|j: int| 0 <= j < tables.region.len() ==> (#[trigger] tables.region[j]).region_name@.len() > 0,
        catalog_for(tables, rows) is Some,
        0 <= k < rows.len(),
    ensures
        k < catalog_for(tables, rows).unwrap().len(),
        catalog_for(tables, rows).unwrap()[k].region@.len() > 0,
{
    catalog_regions_are_names(tables, rows, k);
}

/// Two runs against the same snapshot that come to an end give the same
/// response: both fail, or both succeed with the same catalog.
pub proof fn repeated_catalog_is_the_same(
    tables: Tables,
    answers: Seq<Answer>,
    moves: Seq<Step<CatalogAssembly, GetPokemonResponse>>,
    answers_again: Seq<Answer>,
    moves_again: Seq<Step<CatalogAssembly, GetPokemonResponse>>,
)
    requires
        is_run(tables, answers, moves),
        is_run(tables, answers_again, moves_again),
        moves.last() is Done,
        moves_again.last() is Done,
    ensures
        match (moves.last(), moves_again.last()) {
            (Step::Done(ApiResponse::JsonData(body)), Step::Done(ApiResponse::JsonData(again))) => {
                pokemon_views(body.pokemons@) == pokemon_views(again.pokemons@)
            },
            (Step::Done(ApiResponse::Error), Step::Done(ApiResponse::Error)) => true,
            _ => false,
        },
{
    run_ends_in_catalog(tables, answers, moves);
    run_ends_in_catalog(tables, answers_again, moves_again);
}

/// The number of round trips that the entries of a sequence of creature
/// rows take when nothing is missing: for each row one for its region,
/// one for its links and one for each link.
pub open spec fn round_trips_for(tables: Tables, rows: Seq<PokemonRow>) -> nat
    decreases rows.len(),
{
    if rows.len() == 0 {
        0
    } else {
        2 + tables.links_of(rows[0].pokemon_id).len() + round_trips_for(tables, rows.drop_first())
    }
}

/// A move made on an answer of the snapshot that asks again uses up one
/// round trip of the bound.
pub proof fn step_uses_one_round_trip(
    tables: Tables,
    state: CatalogAssembly,
    answer: Answer,
    next: Step<CatalogAssembly, GetPokemonResponse>,
)
    requires
        tables.answers(state.asked(), answer),
        state.steps_to(answer, next),
    ensures
        state.round_trips_left(tables) >= 1,
        next matches Step::Ask(after, _) ==> after.round_trips_left(tables) + 1
            == state.round_trips_left(tables),
{
    match state {
        CatalogAssembly::Abilities { done, rows, creature, abilities: inner_state } => {
            let inner = choose|inner: Step<AbilityAssembly, GetAbilityResponse>|
                #[trigger] inner_state.steps_to(answer, inner) && CatalogAssembly::follows(
                    pokemon_views(done@),
                    rows@,
                    creature,
                    inner,
                    next,
                );
            abilities::step_uses_one_round_trip(tables, inner_state, answer, inner);
            abilities::step_keeps_outcome(tables, inner_state, answer, inner);
        },
        _ => {},
    }
}

proof fn run_uses_round_trips(
    tables: Tables,
    answers: Seq<Answer>,
    moves: Seq<Step<CatalogAssembly, GetPokemonResponse>>,
    k: int,
)
    requires
        is_run(tables, answers, moves),
        0 <= k < moves.len(),
    ensures
        k <= 1 + round_trips_for(tables, tables.pokemon),
        moves[k] matches Step::Ask(state, statement) ==> statement == state.asked()
            && state.round_trips_left(tables) + k == 1 + round_trips_for(tables, tables.pokemon),
    decreases k,
{
    if k > 0 {
        run_uses_round_trips(tables, answers, moves, k - 1);
        match moves[k - 1] {
            Step::Ask(state, _) => {
                step_uses_one_round_trip(tables, state, answers[k - 1], moves[k]);
                step_keeps_outcome(tables, state, answers[k - 1], moves[k]);
            },
            Step::Done(_) => {},
        }
    }
}

/// A run against a snapshot makes at most one round trip for the creature
/// rows and, for each of them, one for its region, one for its links and
/// one for each link.
pub proof fn run_is_bounded(
    tables: Tables,
    answers: Seq<Answer>,
    moves: Seq<Step<CatalogAssembly, GetPokemonResponse>>,
)
    requires
        is_run(tables, answers, moves),
    ensures
        answers.len() <= 1 + round_trips_for(tables, tables.pokemon),
{
    run_uses_round_trips(tables, answers, moves, moves.len() - 1);
}

/// The snapshot has what the catalog entry of a creature row takes: a
/// region under the row's region id and an ability row for every link of
/// the creature.
pub open spec fn is_complete(tables: Tables, row: PokemonRow) -> bool {
    has_region(tables, row) && has_all_abilities(tables, row.pokemon_id)
}

/// A catalog exists exactly where the snapshot has, for every creature row,
/// a region and an ability row for every link: the request fails if and
/// only if one of them is missing.
pub proof fn catalog_exists_unless_row_missing(tables: Tables, rows: Seq<PokemonRow>)
    ensures
        catalog_for(tables, rows) is Some <==> forall|k: int|
            0 <= k < rows.len() ==> is_complete(tables, #[trigger] rows[k]),
    decreases rows.len(),
{
    if rows.len() > 0 {
        let rest = rows.drop_first();
        catalog_exists_unless_row_missing(tables, rest);
        abilities::ability_list_exists_unless_row_missing(tables, rows[0].pokemon_id);
        if catalog_for(tables, rows) is Some {
            assert forall|k: int| 0 <= k < rows.len() implies is_complete(
                tables,
                #[trigger] rows[k],
            ) by {
                if k > 0 {
                    assert(rows[k] == rest[k - 1]);
                }
            }
        }
        if forall|k: int| 0 <= k < rows.len() ==> is_complete(tables, #[trigger] rows[k]) {
            assert(is_complete(tables, rows[0]));
            assert forall|j: int| 0 <= j < rest.len() implies is_complete(
                tables,
                #[trigger] rest[j],
            ) by {
                assert(rest[j] == rows[j + 1]);
            }
        }
    }
}

} // verus!
