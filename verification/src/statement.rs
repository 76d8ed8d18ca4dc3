use vstd::prelude::*;
use crate::envelope::ApiResponse;
use crate::model::{Ability, PokemonAbilities, PokemonRow, TrainerRow};

verus! {

/// A parameterized statement against the store. Values supplied by a caller
/// travel as parameters of the variant, never inside the statement's text.
#[derive(Debug, Clone, PartialEq, Eq)]
pub enum Statement {
    /// Every trainer row.
    AllTrainers,
    /// The trainer rows with the given id.
    TrainerById(i32),
    /// The ids of the creatures owned by the given trainer.
    OwnedPokemon(i32),
    /// The creature rows with the given id.
    PokemonById(i32),
    /// The display names of the regions with the given id.
    RegionName(i32),
    /// Every creature row.
    AllPokemon,
    /// The ability links of the given creature.
    AbilityLinks(i32),
    /// The ability rows with the given id.
    AbilityById(i32),
    /// Insert a trainer with the given name and gym-leader flag.
    InsertTrainer(String, bool),
    /// Delete the trainers with the given id.
    DeleteTrainer(i32),
}

/// What the store gave back for a statement, already read into plain rows.
#[derive(Debug, Clone, PartialEq, Eq)]
pub enum Answer {
    /// The store rejected or failed the statement.
    Failed,
    /// Number of rows that an insert or a delete affected.
    Affected(u64),
    Trainers(Vec<TrainerRow>),
    /// Creature ids, one per ownership row.
    Owned(Vec<i32>),
    Pokemon(Vec<PokemonRow>),
    /// Region display names.
    Regions(Vec<String>),
    Links(Vec<PokemonAbilities>),
    Abilities(Vec<Ability>),
}

/// One move of a request handler: either it asks the store one more
/// statement and waits in state `S`, or the request is finished.
pub enum Step<S, T> {
    Ask(S, Statement),
    Done(ApiResponse<T>),
}

impl Statement {
    /// The SQL text of the statement, with positional placeholders.
    pub open spec fn spec_text(self) -> Seq<char> {
        match self {
            Statement::AllTrainers => "SELECT * FROM trainer"@,
            Statement::TrainerById(_) => "SELECT * FROM trainer WHERE trainer_id = $1"@,
            Statement::OwnedPokemon(_) =>
                "SELECT pokemon_id FROM trainerspokemon WHERE trainer_id = $1"@,
            Statement::PokemonById(_) => "SELECT * FROM pokemon WHERE pokemon_id = $1"@,
            Statement::RegionName(_) => "SELECT region_name FROM region WHERE region_id = $1"@,
            Statement::AllPokemon => "SELECT * FROM pokemon"@,
            Statement::AbilityLinks(_) => "SELECT * FROM pokemonabilities WHERE pokemon_id = $1"@,
            Statement::AbilityById(_) => "SELECT * FROM ability WHERE ability_id = $1"@,
            Statement::InsertTrainer(_, _) =>
                "INSERT INTO trainer (name, gym_leader) VALUES ($1, $2)"@,
            Statement::DeleteTrainer(_) => "DELETE FROM trainer WHERE trainer_id = $1"@,
        }
    }

    /// The integer bound to `$1`, for the statements that take one.
    pub open spec fn spec_id(self) -> Option<i32> {
        match self {
            Statement::TrainerById(id) => Some(id),
            Statement::OwnedPokemon(id) => Some(id),
            Statement::PokemonById(id) => Some(id),
            Statement::RegionName(id) => Some(id),
            Statement::AbilityLinks(id) => Some(id),
            Statement::AbilityById(id) => Some(id),
            Statement::DeleteTrainer(id) => Some(id),
            _ => None,
        }
    }

    /// Whether the statement changes the store.
    pub open spec fn spec_is_write(self) -> bool {
        self matches Statement::InsertTrainer(_, _) || self matches Statement::DeleteTrainer(_)
    }

    /// The SQL text to send to the store.
    pub fn text(&self) -> (sql: &'static str)
        ensures
            sql@ == self.spec_text(),
    {
        match self {
            Statement::AllTrainers => "SELECT * FROM trainer",
            Statement::TrainerById(_) => "SELECT * FROM trainer WHERE trainer_id = $1",
            Statement::OwnedPokemon(_) =>
                "SELECT pokemon_id FROM trainerspokemon WHERE trainer_id = $1",
            Statement::PokemonById(_) => "SELECT * FROM pokemon WHERE pokemon_id = $1",
            Statement::RegionName(_) => "SELECT region_name FROM region WHERE region_id = $1",
            Statement::AllPokemon => "SELECT * FROM pokemon",
            Statement::AbilityLinks(_) => "SELECT * FROM pokemonabilities WHERE pokemon_id = $1",
            Statement::AbilityById(_) => "SELECT * FROM ability WHERE ability_id = $1",
            Statement::InsertTrainer(_, _) =>
                "INSERT INTO trainer (name, gym_leader) VALUES ($1, $2)",
            Statement::DeleteTrainer(_) => "DELETE FROM trainer WHERE trainer_id = $1",
        }
    }

    /// The integer to bind to `$1`, or `None` where the statement takes no
    /// integer parameter.
    pub fn id(&self) -> (id: Option<i32>)
        ensures
            id == self.spec_id(),
    {
        match self {
            Statement::TrainerById(id) => Some(*id),
            Statement::OwnedPokemon(id) => Some(*id),
            Statement::PokemonById(id) => Some(*id),
            Statement::RegionName(id) => Some(*id),
            Statement::AbilityLinks(id) => Some(*id),
            Statement::AbilityById(id) => Some(*id),
            Statement::DeleteTrainer(id) => Some(*id),
            _ => None,
        }
    }

    /// Whether the statement is to be executed for its row count rather than
    /// queried for rows.
    pub fn is_write(&self) -> (write: bool)
        ensures
            write == self.spec_is_write(),
    {
        match self {
            Statement::InsertTrainer(_, _) => true,
            Statement::DeleteTrainer(_) => true,
            _ => false,
        }
    }
}

} // verus!
