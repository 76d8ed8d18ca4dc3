use vstd::prelude::*;

verus! {

/// A row of the `trainer` table, columns in declaration order.
#[derive(Debug, Clone, PartialEq, Eq)]
pub struct TrainerRow {
    pub trainer_id: i32,
    pub name: String,
    pub gym_leader: bool,
}

/// A row of the `pokemon` table, columns in declaration order. The region is
/// still the raw foreign key here.
#[derive(Debug, Clone, PartialEq, Eq)]
pub struct PokemonRow {
    pub pokemon_id: i32,
    pub name: String,
    pub region_id: i32,
}

/// A row of the `region` lookup table.
#[derive(Debug, Clone, PartialEq, Eq)]
pub struct RegionRow {
    pub region_id: i32,
    pub region_name: String,
}

/// A row of the `trainerspokemon` ownership table.
#[derive(Debug, Clone, Copy, PartialEq, Eq)]
pub struct TrainersPokemon {
    pub trainer_id: i32,
    pub pokemon_id: i32,
}

/// A row of the `pokemonabilities` join table.
#[derive(Debug, Clone, Copy, PartialEq, Eq)]
pub struct PokemonAbilities {
    pub pokemon_id: i32,
    pub ability_id: i32,
}

/// An ability: both the row of the `ability` table and the record sent to
/// clients.
#[derive(Debug, Clone, PartialEq, Eq)]
pub struct Ability {
    pub ability_id: i32,
    pub name: String,
    pub damage: i32,
    pub status_effect: String,
}

/// A creature as it appears in a trainer's roster: the region is shown by its
/// display name and abilities are left out.
#[derive(Debug, Clone, PartialEq, Eq)]
pub struct Pokemon {
    pub pokemon_id: i32,
    pub name: String,
    pub region: String,
}

/// A creature of the catalog, with its abilities.
#[derive(Debug, Clone, PartialEq, Eq)]
pub struct PokemonFull {
    pub pokemon_id: i32,
    pub name: String,
    pub region: String,
    pub abilities: Vec<Ability>,
}

/// A trainer as sent to clients. `pokemon` is `None` on a lookup by id and
/// holds the resolved roster on the full listing.
#[derive(Debug, Clone, PartialEq, Eq)]
pub struct Trainer {
    pub trainer_id: i32,
    pub name: String,
    pub gym_leader: bool,
    pub pokemon: Option<Vec<Pokemon>>,
}

/// Body of a request that creates a trainer.
#[derive(Debug, Clone, PartialEq, Eq)]
pub struct CreateUserRequest {
    pub name: String,
    pub gym_leader: bool,
}

/// Body of the full trainer listing.
#[derive(Debug, Clone, PartialEq, Eq)]
pub struct GetTrainersResponse {
    pub trainers: Vec<Trainer>,
}

/// Body of a trainer lookup by id.
#[derive(Debug, Clone, PartialEq, Eq)]
pub struct GetTrainerResponse {
    pub trainers: Vec<Trainer>,
}

/// Body of a creature's ability listing.
#[derive(Debug, Clone, PartialEq, Eq)]
pub struct GetAbilityResponse {
    pub ability: Vec<Ability>,
}

/// Body of the creature catalog.
#[derive(Debug, Clone, PartialEq, Eq)]
pub struct GetPokemonResponse {
    pub pokemons: Vec<PokemonFull>,
}

/// What a `Trainer` is, with its roster as a sequence.
pub struct TrainerView {
    pub trainer_id: i32,
    pub name: String,
    pub gym_leader: bool,
    pub pokemon: Option<Seq<Pokemon>>,
}

/// What a `PokemonFull` is, with its abilities as a sequence.
pub struct PokemonFullView {
    pub pokemon_id: i32,
    pub name: String,
    pub region: String,
    pub abilities: Seq<Ability>,
}

impl View for Trainer {
    type V = TrainerView;

    open spec fn view(&self) -> TrainerView {
        TrainerView {
            trainer_id: self.trainer_id,
            name: self.name,
            gym_leader: self.gym_leader,
            pokemon: match self.pokemon {
                Some(list) => Some(list@),
                None => None,
            },
        }
    }
}

impl View for PokemonFull {
    type V = PokemonFullView;

    open spec fn view(&self) -> PokemonFullView {
        PokemonFullView {
            pokemon_id: self.pokemon_id,
            name: self.name,
            region: self.region,
            abilities: self.abilities@,
        }
    }
}

/// The views of a sequence of trainers, in order.
pub open spec fn trainer_views(trainers: Seq<Trainer>) -> Seq<TrainerView> {
    Seq::new(trainers.len(), |i: int| trainers[i]@)
}

/// The views of a sequence of catalog creatures, in order.
pub open spec fn pokemon_views(pokemons: Seq<PokemonFull>) -> Seq<PokemonFullView> {
    Seq::new(pokemons.len(), |i: int| pokemons[i]@)
}

/// The trainer record of a row on a lookup by id: the roster is left out.
pub open spec fn bare_trainer(row: TrainerRow) -> TrainerView {
    TrainerView {
        trainer_id: row.trainer_id,
        name: row.name,
        gym_leader: row.gym_leader,
        pokemon: None,
    }
}

/// The trainer record of a row together with its resolved roster.
pub open spec fn trainer_with(row: TrainerRow, roster: Seq<Pokemon>) -> TrainerView {
    TrainerView {
        trainer_id: row.trainer_id,
        name: row.name,
        gym_leader: row.gym_leader,
        pokemon: Some(roster),
    }
}

/// The roster record of a creature row whose region resolved to `region`.
pub open spec fn resolved(row: PokemonRow, region: String) -> Pokemon {
    Pokemon { pokemon_id: row.pokemon_id, name: row.name, region }
}

/// The catalog record of a resolved creature with its abilities.
pub open spec fn catalogued(creature: Pokemon, abilities: Seq<Ability>) -> PokemonFullView {
    PokemonFullView {
        pokemon_id: creature.pokemon_id,
        name: creature.name,
        region: creature.region,
        abilities,
    }
}

} // verus!
