use vstd::prelude::*;
use crate::envelope::ApiResponse;
use crate::model::{Ability, GetAbilityResponse, PokemonAbilities};
use crate::statement::{Answer, Statement, Step};
use crate::tables::Tables;

verus! {

/// Where the assembly of a creature's ability list stands between two
/// round trips to the store.
pub enum AbilityAssembly {
    /// The links of the creature were asked for.
    Links { pokemon_id: i32 },
    /// The ability `ability_id` was asked for; `found` holds the abilities of
    /// the links before it, `pending` the links after it.
    Ability { ability_id: i32, found: Vec<Ability>, pending: Vec<PokemonAbilities> },
}

/// The ability rows that the snapshot holds under an id, or `None` where it
/// holds none: a link to such an id points at nothing.
pub open spec fn ability_rows(tables: Tables, ability_id: i32) -> Option<Seq<Ability>> {
    let rows = tables.abilities_by_id(ability_id);
    if rows.len() == 0 {
        None
    } else {
        Some(rows)
    }
}

/// The abilities that a sequence of links resolves to: for each link in
/// order, every ability row that the snapshot holds under the link's id.
/// `None` where the snapshot holds no row for any of the links.
pub open spec fn abilities_for(tables: Tables, links: Seq<PokemonAbilities>) -> Option<Seq<Ability>>
    decreases links.len(),
{
    if links.len() == 0 {
        Some(Seq::empty())
    } else {
        match (
            ability_rows(tables, links[0].ability_id),
            abilities_for(tables, links.drop_first()),
        ) {
            (Some(first), Some(rest)) => Some(first + rest),
            _ => None,
        }
    }
}

/// The ability list of a creature in a snapshot, or `None` where one of its
/// links has no ability row.
pub open spec fn abilities_of(tables: Tables, pokemon_id: i32) -> Option<Seq<Ability>> {
    abilities_for(tables, tables.links_of(pokemon_id))
}

/// Whether a response is the one owed for an expected ability list: the
/// list as the body where there is one, `Error` where there is none.
pub open spec fn delivers(
    response: ApiResponse<GetAbilityResponse>,
    expected: Option<Seq<Ability>>,
) -> bool {
    match expected {
        Some(list) => response matches ApiResponse::JsonData(body) && body.ability@ == list,
        None => response is Error,
    }
}

/// Whether a move asks what its state waits for and leads to `expected`, or
/// ends the request with the response owed for `expected`.
pub open spec fn leads_to(
    tables: Tables,
    next: Step<AbilityAssembly, GetAbilityResponse>,
    expected: Option<Seq<Ability>>,
) -> bool {
    match next {
        Step::Ask(after, statement) => statement == after.asked() && after.outcome(tables)
            == expected,
        Step::Done(response) => delivers(response, expected),
    }
}

impl AbilityAssembly {
    /// The statement whose answer this state waits for.
    pub open spec fn asked(self) -> Statement {
        match self {
            AbilityAssembly::Links { pokemon_id } => Statement::AbilityLinks(pokemon_id),
            AbilityAssembly::Ability { ability_id, .. } => Statement::AbilityById(ability_id),
        }
    }

    /// What follows once `found` is assembled and `pending` is still to be
    /// resolved: the abilities as they are if no link is left, else the
    /// question for the first pending link.
    pub open spec fn proceeds(
        found: Seq<Ability>,
        pending: Seq<PokemonAbilities>,
        next: Step<AbilityAssembly, GetAbilityResponse>,
    ) -> bool {
        if pending.len() == 0 {
            next matches Step::Done(ApiResponse::JsonData(body)) && body.ability@ == found
        } else {
            &&& next matches Step::Ask(AbilityAssembly::Ability { ability_id, found: f, pending: p }, statement)
            &&& ability_id == pending[0].ability_id
            &&& f@ == found
            &&& p@ == pending.drop_first()
            &&& statement == Statement::AbilityById(ability_id)
        }
    }

    /// The transition relation: `next` is the move that follows `answer` in
    /// this state. A failed statement, an answer of another shape than the
    /// one waited for, and an ability without a row end the request in
    /// `Error`.
    pub open spec fn steps_to(
        self,
        answer: Answer,
        next: Step<AbilityAssembly, GetAbilityResponse>,
    ) -> bool {
        match (self, answer) {
            (AbilityAssembly::Links { .. }, Answer::Links(rows)) => Self::proceeds(
                Seq::empty(),
                rows@,
                next,
            ),
            (AbilityAssembly::Ability { found, pending, .. }, Answer::Abilities(rows))
                if rows@.len() > 0 => Self::proceeds(found@ + rows@, pending@, next),
            _ => next == Step::<AbilityAssembly, GetAbilityResponse>::Done(ApiResponse::Error),
        }
    }

    /// The ability list that this state leads to when every further answer
    /// comes from `tables`; `None` where an ability is missing.
    pub open spec fn outcome(self, tables: Tables) -> Option<Seq<Ability>> {
        match self {
            AbilityAssembly::Links { pokemon_id } => abilities_of(tables, pokemon_id),
            AbilityAssembly::Ability { ability_id, found, pending } => match (
                ability_rows(tables, ability_id),
                abilities_for(tables, pending@),
            ) {
                (Some(rows), Some(rest)) => Some(found@ + rows + rest),
                _ => None,
            },
        }
    }

    /// A bound on the number of statements still to be answered before the
    /// request ends, when every further answer comes from `tables`: the one
    /// asked and one per link that is pending.
    pub open spec fn round_trips_left(self, tables: Tables) -> nat {
        match self {
            AbilityAssembly::Links { pokemon_id } => 1 + tables.links_of(pokemon_id).len(),
            AbilityAssembly::Ability { pending, .. } => 1 + pending@.len(),
        }
    }

    /// Ends the assembly if no link is pending, else asks for the ability
    /// of the first pending link.
    fn proceed(found: Vec<Ability>, pending: Vec<PokemonAbilities>) -> (next: Step<
        AbilityAssembly,
        GetAbilityResponse,
    >)
        ensures
            Self::proceeds(found@, pending@, next),
    {
        if pending.len() == 0 {
            Step::Done(ApiResponse::JsonData(GetAbilityResponse { ability: found }))
        } else {
            let mut rest = pending;
            let link = rest.remove(0);
            assert(rest@ =~= pending@.drop_first());
            Step::Ask(
                AbilityAssembly::Ability { ability_id: link.ability_id, found, pending: rest },
                Statement::AbilityById(link.ability_id),
            )
        }
    }

    /// Takes the store's answer to the statement last asked and makes the
    /// next move.
    pub fn step(self, answer: Answer) -> (next: Step<AbilityAssembly, GetAbilityResponse>)
        ensures
            self.steps_to(answer, next),
    {
        match (self, answer) {
            (AbilityAssembly::Links { .. }, Answer::Links(rows)) => Self::proceed(Vec::new(), rows),
            (AbilityAssembly::Ability { found, pending, .. }, Answer::Abilities(rows)) => {
                if rows.len() == 0 {
                    Step::Done(ApiResponse::Error)
                } else {
                    let mut found = found;
                    let mut rows = rows;
                    found.append(&mut rows);
                    Self::proceed(found, pending)
                }
            },
            _ => Step::Done(ApiResponse::Error),
        }
    }
}

/// Starts the listing of the abilities of creature `id`: the links of the
/// creature are asked for first.
pub fn get_ability(id: i32) -> (first: Step<AbilityAssembly, GetAbilityResponse>)
    ensures
        first == Step::<AbilityAssembly, GetAbilityResponse>::Ask(
            AbilityAssembly::Links { pokemon_id: id },
            Statement::AbilityLinks(id),
        ),
{
    Step::Ask(AbilityAssembly::Links { pokemon_id: id }, Statement::AbilityLinks(id))
}

/// A move made on an answer of the snapshot asks what the new state waits
/// for and leads to the same ability list as before; a move that ends the
/// request ends it with that list, or with `Error` where the snapshot lacks
/// an ability.
pub proof fn step_keeps_outcome(
    tables: Tables,
    state: AbilityAssembly,
    answer: Answer,
    next: Step<AbilityAssembly, GetAbilityResponse>,
)
    requires
        tables.answers(state.asked(), answer),
        state.steps_to(answer, next),
    ensures
        leads_to(tables, next, state.outcome(tables)),
{
    let none = Seq::<Ability>::empty();
    match (state, answer) {
        (AbilityAssembly::Links { pokemon_id }, Answer::Links(rows)) => {
            if rows@.len() > 0 {
                match (
                    ability_rows(tables, rows@[0].ability_id),
                    abilities_for(tables, rows@.drop_first()),
                ) {
                    (Some(first), Some(rest)) => {
                        assert(none + first + rest =~= first + rest);
                    },
                    _ => {},
                }
            }
        },
        (AbilityAssembly::Ability { found, pending, ability_id }, Answer::Abilities(rows)) => {
            if rows@.len() > 0 {
                if pending@.len() == 0 {
                    assert(found@ + rows@ + none =~= found@ + rows@);
                } else {
                    match (
                        ability_rows(tables, pending@[0].ability_id),
                        abilities_for(tables, pending@.drop_first()),
                    ) {
                        (Some(first), Some(rest)) => {
                            assert(found@ + rows@ + first + rest =~= found@ + rows@ + (first
                                + rest));
                        },
                        _ => {},
                    }
                }
            }
        },
        _ => {},
    }
}

/// Whether `moves` is a run of the ability listing for creature `id`
/// against the snapshot: it begins with the first question, and each
/// further move follows the one before on the snapshot's answer to the
/// statement that was asked.
pub open spec fn is_run(
    tables: Tables,
    id: i32,
    answers: Seq<Answer>,
    moves: Seq<Step<AbilityAssembly, GetAbilityResponse>>,
) -> bool {
    &&& moves.len() == answers.len() + 1
    &&& moves[0] == Step::<AbilityAssembly, GetAbilityResponse>::Ask(
        AbilityAssembly::Links { pokemon_id: id },
        Statement::AbilityLinks(id),
    )
    &&& forall|i: int|
        0 <= i < answers.len() ==> {
            &&& #[trigger] moves[i] matches Step::Ask(state, statement)
            &&& tables.answers(statement, answers[i])
            &&& state.steps_to(answers[i], moves[i + 1])
        }
}

proof fn run_keeps_outcome(
    tables: Tables,
    id: i32,
    answers: Seq<Answer>,
    moves: Seq<Step<AbilityAssembly, GetAbilityResponse>>,
    k: int,
)
    requires
        is_run(tables, id, answers, moves),
        0 <= k < moves.len(),
    ensures
        leads_to(tables, moves[k], abilities_of(tables, id)),
    decreases k,
{
    if k > 0 {
        run_keeps_outcome(tables, id, answers, moves, k - 1);
        match moves[k - 1] {
            Step::Ask(state, _) => {
                step_keeps_outcome(tables, state, answers[k - 1], moves[k]);
            },
            Step::Done(_) => {},
        }
    }
}

/// Every run against a snapshot that comes to an end ends with the
/// creature's ability list in the snapshot: for each link in order, the
/// ability rows under the link's id, or `Error` if and only if a linked
/// ability has no row.
pub proof fn run_ends_in_ability_list(
    tables: Tables,
    id: i32,
    answers: Seq<Answer>,
    moves: Seq<Step<AbilityAssembly, GetAbilityResponse>>,
)
    requires
        is_run(tables, id, answers, moves),
        moves.last() is Done,
    ensures
        moves.last() matches Step::Done(response) && delivers(response, abilities_of(tables, id)),
{
    run_keeps_outcome(tables, id, answers, moves, moves.len() - 1);
}

/// The snapshot has an ability row for a link.
pub open spec fn has_ability(tables: Tables, link: PokemonAbilities) -> bool {
    tables.abilities_by_id(link.ability_id).len() > 0
}

/// The snapshot has an ability row for every link of a creature.
pub open spec fn has_all_abilities(tables: Tables, pokemon_id: i32) -> bool {
    forall|k: int|
        0 <= k < tables.links_of(pokemon_id).len() ==> has_ability(
            tables,
            #[trigger] tables.links_of(pokemon_id)[k],
        )
}

/// An ability list exists exactly where the snapshot has an ability row for
/// every link: the request fails if and only if one is missing.
pub proof fn abilities_exist_unless_row_missing(tables: Tables, links: Seq<PokemonAbilities>)
    ensures
        abilities_for(tables, links) is Some <==> forall|k: int|
            0 <= k < links.len() ==> has_ability(tables, #[trigger] links[k]),
    decreases links.len(),
{
    if links.len() > 0 {
        let rest = links.drop_first();
        abilities_exist_unless_row_missing(tables, rest);
        if abilities_for(tables, links) is Some {
            assert forall|k: int| 0 <= k < links.len() implies has_ability(
                tables,
                #[trigger] links[k],
            ) by {
                if k > 0 {
                    assert(links[k] == rest[k - 1]);
                }
            }
        }
        if forall|k: int| 0 <= k < links.len() ==> has_ability(tables, #[trigger] links[k]) {
            assert(has_ability(tables, links[0]));
            assert forall|j: int| 0 <= j < rest.len() implies has_ability(
                tables,
                #[trigger] rest[j],
            ) by {
                assert(rest[j] == links[j + 1]);
            }
        }
    }
}

/// The ability list of a creature exists exactly where every one of its
/// links has an ability row.
pub proof fn ability_list_exists_unless_row_missing(tables: Tables, pokemon_id: i32)
    ensures
        abilities_of(tables, pokemon_id) is Some <==> has_all_abilities(tables, pokemon_id),
{
    abilities_exist_unless_row_missing(tables, tables.links_of(pokemon_id));
}

/// For a creature without links, every run against the snapshot that comes
/// to an end ends in success with the empty list.
pub proof fn no_links_no_abilities(
    tables: Tables,
    id: i32,
    answers: Seq<Answer>,
    moves: Seq<Step<AbilityAssembly, GetAbilityResponse>>,
)
    requires
        tables.links_of(id).len() == 0,
        is_run(tables, id, answers, moves),
        moves.last() is Done,
    ensures
        abilities_of(tables, id) == Some(Seq::<Ability>::empty()),
        moves.last() matches Step::Done(ApiResponse::JsonData(body)) && body.ability@
            == Seq::<Ability>::empty(),
{
    run_ends_in_ability_list(tables, id, answers, moves);
}

/// Two runs for the same creature against the same snapshot that come to an
/// end give the same response: both fail, or both succeed with the same
/// ability list.
pub proof fn repeated_ability_list_is_the_same(
    tables: Tables,
    id: i32,
    answers: Seq<Answer>,
    moves: Seq<Step<AbilityAssembly, GetAbilityResponse>>,
    answers_again: Seq<Answer>,
    moves_again: Seq<Step<AbilityAssembly, GetAbilityResponse>>,
)
    requires
        is_run(tables, id, answers, moves),
        is_run(tables, id, answers_again, moves_again),
        moves.last() is Done,
        moves_again.last() is Done,
    ensures
        match (moves.last(), moves_again.last()) {
            (Step::Done(ApiResponse::JsonData(body)), Step::Done(ApiResponse::JsonData(again))) => {
                body.ability@ == again.ability@
            },
            (Step::Done(ApiResponse::Error), Step::Done(ApiResponse::Error)) => true,
            _ => false,
        },
{
    run_ends_in_ability_list(tables, id, answers, moves);
    run_ends_in_ability_list(tables, id, answers_again, moves_again);
}

/// A move made on an answer of the snapshot that asks again uses up one
/// round trip of the bound; a move that ends the request in success used
/// the last one.
pub proof fn step_uses_one_round_trip(
    tables: Tables,
    state: AbilityAssembly,
    answer: Answer,
    next: Step<AbilityAssembly, GetAbilityResponse>,
)
    requires
        tables.answers(state.asked(), answer),
        state.steps_to(answer, next),
    ensures
        state.round_trips_left(tables) >= 1,
        match next {
            Step::Ask(after, _) => after.round_trips_left(tables) + 1 == state.round_trips_left(
                tables,
            ),
            Step::Done(ApiResponse::JsonData(_)) => state.round_trips_left(tables) == 1,
            Step::Done(_) => true,
        },
{
}

proof fn run_uses_round_trips(
    tables: Tables,
    id: i32,
    answers: Seq<Answer>,
    moves: Seq<Step<AbilityAssembly, GetAbilityResponse>>,
    k: int,
)
    requires
        is_run(tables, id, answers, moves),
        0 <= k < moves.len(),
    ensures
        k <= 1 + tables.links_of(id).len(),
        match moves[k] {
            Step::Ask(state, statement) => statement == state.asked() && state.round_trips_left(
                tables,
            ) + k == 1 + tables.links_of(id).len(),
            Step::Done(ApiResponse::JsonData(_)) => k == 1 + tables.links_of(id).len(),
            Step::Done(_) => true,
        },
    decreases k,
{
    if k > 0 {
        run_uses_round_trips(tables, id, answers, moves, k - 1);
        match moves[k - 1] {
            Step::Ask(state, _) => {
                step_uses_one_round_trip(tables, state, answers[k - 1], moves[k]);
                step_keeps_outcome(tables, state, answers[k - 1], moves[k]);
            },
            Step::Done(_) => {},
        }
    }
}

/// A run against a snapshot makes at most one round trip for the links and
/// one for each link. A run that ends in success made exactly that many.
pub proof fn run_makes_one_round_trip_per_link(
    tables: Tables,
    id: i32,
    answers: Seq<Answer>,
    moves: Seq<Step<AbilityAssembly, GetAbilityResponse>>,
)
    requires
        is_run(tables, id, answers, moves),
    ensures
        answers.len() <= 1 + tables.links_of(id).len(),
        moves.last() matches Step::Done(ApiResponse::JsonData(_)) ==> answers.len() == 1
            + tables.links_of(id).len(),
{
    run_uses_round_trips(tables, id, answers, moves, moves.len() - 1);
}

} // verus!
