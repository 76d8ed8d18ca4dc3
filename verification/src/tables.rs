use vstd::prelude::*;
use crate::model::{
    resolved, Ability, Pokemon, PokemonAbilities, PokemonRow, RegionRow, TrainerRow, TrainersPokemon,
};
use crate::statement::{Answer, Statement};

verus! {

/// A snapshot of the relational store: each table as the sequence of its
/// rows, in the order in which the store returns them.
pub struct Tables {
    pub trainer: Seq<TrainerRow>,
    pub pokemon: Seq<PokemonRow>,
    pub region: Seq<RegionRow>,
    pub ability: Seq<Ability>,
    pub pokemonabilities: Seq<PokemonAbilities>,
    pub trainerspokemon: Seq<TrainersPokemon>,
}

impl Tables {
    /// The trainer rows with the given id.
    pub open spec fn trainers_by_id(self, id: i32) -> Seq<TrainerRow> {
        self.trainer.filter(|row: TrainerRow| row.trainer_id == id)
    }

    /// The ids of the creatures that the given trainer owns, one per
    /// ownership row.
    pub open spec fn owned_ids(self, trainer_id: i32) -> Seq<i32> {
        self.trainerspokemon.filter(|row: TrainersPokemon| row.trainer_id == trainer_id).map_values(
            |row: TrainersPokemon| row.pokemon_id,
        )
    }

    /// The creature rows with the given id.
    pub open spec fn pokemon_by_id(self, id: i32) -> Seq<PokemonRow> {
        self.pokemon.filter(|row: PokemonRow| row.pokemon_id == id)
    }

    /// The display names of the regions with the given id.
    pub open spec fn region_names(self, id: i32) -> Seq<String> {
        self.region.filter(|row: RegionRow| row.region_id == id).map_values(
            |row: RegionRow| row.region_name,
        )
    }

    /// The ability links of the given creature.
    pub open spec fn links_of(self, pokemon_id: i32) -> Seq<PokemonAbilities> {
        self.pokemonabilities.filter(|row: PokemonAbilities| row.pokemon_id == pokemon_id)
    }

    /// The ability rows with the given id.
    pub open spec fn abilities_by_id(self, id: i32) -> Seq<Ability> {
        self.ability.filter(|row: Ability| row.ability_id == id)
    }

    /// The creature of a row with its region shown by name: the name of the
    /// first region row under the creature's region id. `None` where the
    /// snapshot holds no such region.
    pub open spec fn creature(self, row: PokemonRow) -> Option<Pokemon> {
        let names = self.region_names(row.region_id);
        if names.len() == 0 {
            None
        } else {
            Some(resolved(row, names[0]))
        }
    }

    /// Whether `answer` is what this snapshot gives for the query
    /// `statement`. No answer to a write is described here.
    pub open spec fn answers(self, statement: Statement, answer: Answer) -> bool {
        match (statement, answer) {
            (Statement::AllTrainers, Answer::Trainers(rows)) => rows@ == self.trainer,
            (Statement::TrainerById(id), Answer::Trainers(rows)) => rows@ == self.trainers_by_id(
                id,
            ),
            (Statement::OwnedPokemon(id), Answer::Owned(ids)) => ids@ == self.owned_ids(id),
            (Statement::PokemonById(id), Answer::Pokemon(rows)) => rows@ == self.pokemon_by_id(id),
            (Statement::RegionName(id), Answer::Regions(names)) => names@ == self.region_names(id),
            (Statement::AllPokemon, Answer::Pokemon(rows)) => rows@ == self.pokemon,
            (Statement::AbilityLinks(id), Answer::Links(rows)) => rows@ == self.links_of(id),
            (Statement::AbilityById(id), Answer::Abilities(rows)) => rows@ == self.abilities_by_id(
                id,
            ),
            _ => false,
        }
    }

    /// Whether no two trainer rows have the same id.
    pub open spec fn trainer_ids_are_distinct(self) -> bool {
        forall|i: int, j: int|
            0 <= i < j < self.trainer.len() ==> (#[trigger] self.trainer[i]).trainer_id != (
            #[trigger] self.trainer[j]).trainer_id
    }

    /// Whether an id is new to the snapshot: no trainer row has it and the
    /// ownership table holds nothing under it.
    pub open spec fn is_fresh(self, id: i32) -> bool {
        &&& forall|j: int|
            0 <= j < self.trainer.len() ==> (#[trigger] self.trainer[j]).trainer_id != id
        &&& self.owned_ids(id).len() == 0
    }

    /// The snapshot after a trainer was inserted under the id `id` that the
    /// store assigned.
    pub open spec fn with_trainer(self, id: i32, name: String, gym_leader: bool) -> Tables {
        Tables { trainer: self.trainer.push(TrainerRow { trainer_id: id, name, gym_leader }), ..self }
    }

    /// The snapshot after the store appended the trainer rows `created`.
    pub open spec fn with_trainers(self, created: Seq<TrainerRow>) -> Tables {
        Tables { trainer: self.trainer + created, ..self }
    }

    /// The snapshot after the trainers with the given id were deleted.
    pub open spec fn without_trainer(self, id: i32) -> Tables {
        Tables { trainer: self.trainer.filter(|row: TrainerRow| row.trainer_id != id), ..self }
    }
}

/// The snapshot has a region for a creature row: a region row under the
/// row's region id.
pub open spec fn has_region(tables: Tables, row: PokemonRow) -> bool {
    tables.region_names(row.region_id).len() > 0
}

/// The first region name found under an id belongs to a region row of the
/// snapshot with that id.
pub proof fn region_name_is_of_a_row(tables: Tables, id: i32)
    requires
        tables.region_names(id).len() > 0,
    ensures
        exists|j: int|
            0 <= j < tables.region.len() && tables.region[j].region_id == id
                && #[trigger] tables.region[j].region_name == tables.region_names(id)[0],
{
    let pred = |row: RegionRow| row.region_id == id;
    let found = tables.region.filter(pred);
    assert(found.len() > 0);
    tables.region.lemma_filter_pred(pred, 0);
    assert(found.contains(found[0]));
    tables.region.lemma_filter_contains_rev(pred, found[0]);
    let j = choose|j: int| 0 <= j < tables.region.len() && tables.region[j] == found[0];
    assert(tables.region[j].region_name == tables.region_names(id)[0]);
}

} // verus!
