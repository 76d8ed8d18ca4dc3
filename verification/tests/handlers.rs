use pokedex_service::abilities::{get_ability, AbilityAssembly};
use pokedex_service::catalog::{get_pokemon, CatalogAssembly};
use pokedex_service::envelope::ApiResponse;
use pokedex_service::model::{
    Ability, CreateUserRequest, GetAbilityResponse, GetPokemonResponse, GetTrainerResponse,
    GetTrainersResponse, Pokemon, PokemonAbilities, PokemonFull, PokemonRow, RegionRow, Trainer,
    TrainerRow, TrainersPokemon,
};
use pokedex_service::roster::{get_trainers, RosterAssembly};
use pokedex_service::statement::{Answer, Statement, Step};
use pokedex_service::trainer::{create_trainer, delete_trainer, get_trainer};

/// An in-memory store that answers statements the way the relational store
/// does, and records every statement it was asked.
struct Store {
    trainer: Vec<TrainerRow>,
    pokemon: Vec<PokemonRow>,
    region: Vec<RegionRow>,
    ability: Vec<Ability>,
    pokemonabilities: Vec<PokemonAbilities>,
    trainerspokemon: Vec<TrainersPokemon>,
    next_id: i32,
    asked: Vec<Statement>,
    fail_at: Option<usize>,
}

impl Store {
    fn empty() -> Store {
        Store {
            trainer: Vec::new(),
            pokemon: Vec::new(),
            region: Vec::new(),
            ability: Vec::new(),
            pokemonabilities: Vec::new(),
            trainerspokemon: Vec::new(),
            next_id: 1,
            asked: Vec::new(),
            fail_at: None,
        }
    }

    fn sample() -> Store {
        let mut store = Store::empty();
        store.region = vec![region(1, "Kanto"), region(2, "Johto")];
        store.pokemon = vec![pokemon(25, "Pikachu", 1), pokemon(152, "Chikorita", 2), pokemon(7, "Squirtle", 1)];
        store.ability = vec![
            ability(1, "Static", 10, "paralysis"),
            ability(2, "Overgrow", 20, "none"),
            ability(3, "Lightning Rod", 15, "stun"),
        ];
        store.pokemonabilities = vec![link(25, 1), link(152, 2), link(25, 3)];
        store.trainer = vec![trainer_row(1, "Ash", false), trainer_row(2, "Misty", true)];
        store.trainerspokemon = vec![owns(1, 25), owns(2, 7), owns(1, 152)];
        store.next_id = 3;
        store
    }

    fn answer(&mut self, statement: &Statement) -> Answer {
        self.asked.push(statement.clone());
        if self.fail_at == Some(self.asked.len()) {
            return Answer::Failed;
        }
        match statement {
            Statement::AllTrainers => Answer::Trainers(self.trainer.clone()),
            Statement::TrainerById(id) => Answer::Trainers(
                self.trainer.iter().filter(|r| r.trainer_id == *id).cloned().collect(),
            ),
            Statement::OwnedPokemon(id) => Answer::Owned(
                self.trainerspokemon.iter().filter(|r| r.trainer_id == *id).map(|r| r.pokemon_id).collect(),
            ),
            Statement::PokemonById(id) => Answer::Pokemon(
                self.pokemon.iter().filter(|r| r.pokemon_id == *id).cloned().collect(),
            ),
            Statement::RegionName(id) => Answer::Regions(
                self.region.iter().filter(|r| r.region_id == *id).map(|r| r.region_name.clone()).collect(),
            ),
            Statement::AllPokemon => Answer::Pokemon(self.pokemon.clone()),
            Statement::AbilityLinks(id) => Answer::Links(
                self.pokemonabilities.iter().filter(|r| r.pokemon_id == *id).cloned().collect(),
            ),
            Statement::AbilityById(id) => Answer::Abilities(
                self.ability.iter().filter(|r| r.ability_id == *id).cloned().collect(),
            ),
            Statement::InsertTrainer(name, gym_leader) => {
                let trainer_id = self.next_id;
                self.next_id += 1;
                self.trainer.push(TrainerRow { trainer_id, name: name.clone(), gym_leader: *gym_leader });
                Answer::Affected(1)
            }
            Statement::DeleteTrainer(id) => {
                let before = self.trainer.len();
                self.trainer.retain(|r| r.trainer_id != *id);
                Answer::Affected((before - self.trainer.len()) as u64)
            }
        }
    }

    fn list_trainers(&mut self) -> ApiResponse<GetTrainersResponse> {
        let mut step = get_trainers();
        loop {
            match step {
                Step::Ask(state, statement) => step = state.step(self.answer(&statement)),
                Step::Done(response) => return response,
            }
        }
    }

    fn find_trainer(&mut self, id: i32) -> ApiResponse<GetTrainerResponse> {
        let mut step = get_trainer(id);
        loop {
            match step {
                Step::Ask(state, statement) => step = state.step(self.answer(&statement)),
                Step::Done(response) => return response,
            }
        }
    }

    fn create(&mut self, name: &str, gym_leader: bool) -> ApiResponse<()> {
        let mut step = create_trainer(CreateUserRequest { name: name.to_string(), gym_leader });
        loop {
            match step {
                Step::Ask(state, statement) => step = state.step(self.answer(&statement)),
                Step::Done(response) => return response,
            }
        }
    }

    fn delete(&mut self, id: i32) -> ApiResponse<()> {
        let mut step = delete_trainer(id);
        loop {
            match step {
                Step::Ask(state, statement) => step = state.step(self.answer(&statement)),
                Step::Done(response) => return response,
            }
        }
    }

    fn list_pokemon(&mut self) -> ApiResponse<GetPokemonResponse> {
        let mut step = get_pokemon();
        loop {
            match step {
                Step::Ask(state, statement) => step = state.step(self.answer(&statement)),
                Step::Done(response) => return response,
            }
        }
    }

    fn list_abilities(&mut self, id: i32) -> ApiResponse<GetAbilityResponse> {
        let mut step = get_ability(id);
        loop {
            match step {
                Step::Ask(state, statement) => step = state.step(self.answer(&statement)),
                Step::Done(response) => return response,
            }
        }
    }
}

fn region(region_id: i32, name: &str) -> RegionRow {
    RegionRow { region_id, region_name: name.to_string() }
}

fn pokemon(pokemon_id: i32, name: &str, region_id: i32) -> PokemonRow {
    PokemonRow { pokemon_id, name: name.to_string(), region_id }
}

fn ability(ability_id: i32, name: &str, damage: i32, status_effect: &str) -> Ability {
    Ability { ability_id, name: name.to_string(), damage, status_effect: status_effect.to_string() }
}

fn link(pokemon_id: i32, ability_id: i32) -> PokemonAbilities {
    PokemonAbilities { pokemon_id, ability_id }
}

fn owns(trainer_id: i32, pokemon_id: i32) -> TrainersPokemon {
    TrainersPokemon { trainer_id, pokemon_id }
}

fn trainer_row(trainer_id: i32, name: &str, gym_leader: bool) -> TrainerRow {
    TrainerRow { trainer_id, name: name.to_string(), gym_leader }
}

fn creature(pokemon_id: i32, name: &str, region: &str) -> Pokemon {
    Pokemon { pokemon_id, name: name.to_string(), region: region.to_string() }
}

fn trainers_of(response: ApiResponse<GetTrainersResponse>) -> Vec<Trainer> {
    match response {
        ApiResponse::JsonData(body) => body.trainers,
        other => panic!("expected a body, got {:?}", other),
    }
}

fn found_of(response: ApiResponse<GetTrainerResponse>) -> Vec<Trainer> {
    match response {
        ApiResponse::JsonData(body) => body.trainers,
        other => panic!("expected a body, got {:?}", other),
    }
}

fn pokemons_of(response: ApiResponse<GetPokemonResponse>) -> Vec<PokemonFull> {
    match response {
        ApiResponse::JsonData(body) => body.pokemons,
        other => panic!("expected a body, got {:?}", other),
    }
}

fn abilities_of(response: ApiResponse<GetAbilityResponse>) -> Vec<Ability> {
    match response {
        ApiResponse::JsonData(body) => body.ability,
        other => panic!("expected a body, got {:?}", other),
    }
}

#[test]
fn trainer_listing_has_every_trainer_with_roster() {
    let mut store = Store::sample();
    let trainers = trainers_of(store.list_trainers());
    assert_eq!(
        trainers,
        vec![
            Trainer {
                trainer_id: 1,
                name: "Ash".to_string(),
                gym_leader: false,
                pokemon: Some(vec![creature(25, "Pikachu", "Kanto"), creature(152, "Chikorita", "Johto")]),
            },
            Trainer {
                trainer_id: 2,
                name: "Misty".to_string(),
                gym_leader: true,
                pokemon: Some(vec![creature(7, "Squirtle", "Kanto")]),
            },
        ]
    );
}

#[test]
fn trainer_listing_asks_one_statement_per_row() {
    let mut store = Store::sample();
    store.trainer.truncate(1);
    let _ = store.list_trainers();
    assert_eq!(
        store.asked,
        vec![
            Statement::AllTrainers,
            Statement::OwnedPokemon(1),
            Statement::PokemonById(25),
            Statement::RegionName(1),
            Statement::PokemonById(152),
            Statement::RegionName(2),
        ]
    );
}

#[test]
fn trainer_listing_of_empty_store_is_empty() {
    let mut store = Store::empty();
    assert_eq!(trainers_of(store.list_trainers()), Vec::<Trainer>::new());
    assert_eq!(store.asked, vec![Statement::AllTrainers]);
}

#[test]
fn trainer_without_creatures_has_empty_roster() {
    let mut store = Store::sample();
    store.trainerspokemon.clear();
    let trainers = trainers_of(store.list_trainers());
    assert_eq!(trainers.len(), 2);
    assert_eq!(trainers[0].pokemon, Some(Vec::new()));
    assert_eq!(trainers[1].pokemon, Some(Vec::new()));
}

#[test]
fn roster_keeps_repeated_creatures_in_ownership_order() {
    let mut store = Store::sample();
    store.trainerspokemon = vec![owns(1, 7), owns(1, 25), owns(1, 7)];
    let trainers = trainers_of(store.list_trainers());
    assert_eq!(
        trainers[0].pokemon,
        Some(vec![
            creature(7, "Squirtle", "Kanto"),
            creature(25, "Pikachu", "Kanto"),
            creature(7, "Squirtle", "Kanto"),
        ])
    );
}

#[test]
fn roster_fails_on_owned_id_without_creature_row() {
    let mut store = Store::sample();
    store.trainerspokemon = vec![owns(1, 999), owns(1, 25)];
    assert_eq!(store.list_trainers(), ApiResponse::Error);
    assert_eq!(
        store.asked,
        vec![Statement::AllTrainers, Statement::OwnedPokemon(1), Statement::PokemonById(999)]
    );
}

#[test]
fn roster_fails_when_last_owned_id_has_no_creature_row() {
    let mut store = Store::sample();
    store.trainerspokemon = vec![owns(2, 7), owns(2, 999)];
    assert_eq!(store.list_trainers(), ApiResponse::Error);
}

#[test]
fn roster_step_fails_on_empty_creature_answer() {
    let waiting = RosterAssembly::Creature {
        done: Vec::new(),
        trainers: Vec::new(),
        current: trainer_row(1, "Ash", false),
        creatures: vec![creature(25, "Pikachu", "Kanto")],
        ids: Vec::new(),
        pokemon_id: 999,
    };
    assert!(matches!(waiting.step(Answer::Pokemon(Vec::new())), Step::Done(ApiResponse::Error)));
}

#[test]
fn trainer_listing_fails_on_missing_region() {
    let mut store = Store::sample();
    store.region.retain(|r| r.region_id != 2);
    assert_eq!(store.list_trainers(), ApiResponse::Error);
}

#[test]
fn trainer_listing_fails_when_any_statement_fails() {
    for at in 1..=9 {
        let mut store = Store::sample();
        store.fail_at = Some(at);
        assert_eq!(store.list_trainers(), ApiResponse::Error);
        assert_eq!(store.asked.len(), at);
    }
    let mut store = Store::sample();
    store.fail_at = Some(10);
    assert!(matches!(store.list_trainers(), ApiResponse::JsonData(_)));
    assert_eq!(store.asked.len(), 9);
}

#[test]
fn trainer_listing_rejects_answer_of_wrong_shape() {
    match get_trainers() {
        Step::Ask(state, _) => {
            let next = state.step(Answer::Owned(vec![1, 2]));
            assert!(matches!(next, Step::Done(ApiResponse::Error)));
        }
        Step::Done(_) => panic!("the listing must begin with a question"),
    }
    let waiting = RosterAssembly::Owned {
        done: Vec::new(),
        trainers: Vec::new(),
        current: trainer_row(1, "Ash", false),
    };
    assert!(matches!(waiting.step(Answer::Affected(1)), Step::Done(ApiResponse::Error)));
}

#[test]
fn trainer_lookup_returns_matching_rows_without_roster() {
    let mut store = Store::sample();
    assert_eq!(
        found_of(store.find_trainer(2)),
        vec![Trainer { trainer_id: 2, name: "Misty".to_string(), gym_leader: true, pokemon: None }]
    );
    assert_eq!(store.asked, vec![Statement::TrainerById(2)]);
    assert_eq!(found_of(store.find_trainer(77)), Vec::<Trainer>::new());
}

#[test]
fn trainer_lookup_fails_when_the_statement_fails() {
    let mut store = Store::sample();
    store.fail_at = Some(1);
    assert_eq!(store.find_trainer(1), ApiResponse::Error);
    match get_trainer(1) {
        Step::Ask(state, _) => {
            assert!(matches!(state.step(Answer::Pokemon(Vec::new())), Step::Done(ApiResponse::Error)));
        }
        Step::Done(_) => panic!("the lookup must begin with a question"),
    }
}

#[test]
fn created_trainer_appears_once_in_listing() {
    let mut store = Store::sample();
    let before = trainers_of(store.list_trainers());
    assert_eq!(store.create("Ash", false), ApiResponse::OK);
    let after = trainers_of(store.list_trainers());
    assert_eq!(after.len(), before.len() + 1);
    assert_eq!(&after[..before.len()], &before[..]);
    let added = &after[before.len()];
    assert_eq!(added.name, "Ash");
    assert!(!added.gym_leader);
    assert_eq!(added.trainer_id, 3);
    assert_eq!(added.pokemon, Some(Vec::new()));
}

#[test]
fn create_sends_name_and_flag_as_parameters() {
    match create_trainer(CreateUserRequest { name: "Brock".to_string(), gym_leader: true }) {
        Step::Ask(_, statement) => {
            assert_eq!(statement, Statement::InsertTrainer("Brock".to_string(), true));
            assert_eq!(statement.text(), "INSERT INTO trainer (name, gym_leader) VALUES ($1, $2)");
        }
        Step::Done(_) => panic!("the creation must begin with a question"),
    }
}

#[test]
fn create_fails_when_the_statement_fails() {
    let mut store = Store::sample();
    store.fail_at = Some(1);
    assert_eq!(store.create("Gary", false), ApiResponse::Error);
}

#[test]
fn deleted_trainer_is_no_longer_found() {
    let mut store = Store::sample();
    assert_eq!(found_of(store.find_trainer(1)).len(), 1);
    assert_eq!(store.delete(1), ApiResponse::OK);
    assert_eq!(found_of(store.find_trainer(1)), Vec::<Trainer>::new());
    assert_eq!(found_of(store.find_trainer(2)).len(), 1);
}

#[test]
fn delete_of_unknown_id_succeeds() {
    let mut store = Store::sample();
    assert_eq!(store.delete(4242), ApiResponse::OK);
    assert_eq!(store.trainer.len(), 2);
    assert_eq!(store.asked, vec![Statement::DeleteTrainer(4242)]);
}

#[test]
fn delete_fails_when_the_statement_fails() {
    let mut store = Store::sample();
    store.fail_at = Some(1);
    assert_eq!(store.delete(1), ApiResponse::Error);
}

#[test]
fn catalog_resolves_region_names_and_abilities() {
    let mut store = Store::sample();
    let pokemons = pokemons_of(store.list_pokemon());
    assert_eq!(
        pokemons,
        vec![
            PokemonFull {
                pokemon_id: 25,
                name: "Pikachu".to_string(),
                region: "Kanto".to_string(),
                abilities: vec![
                    ability(1, "Static", 10, "paralysis"),
                    ability(3, "Lightning Rod", 15, "stun"),
                ],
            },
            PokemonFull {
                pokemon_id: 152,
                name: "Chikorita".to_string(),
                region: "Johto".to_string(),
                abilities: vec![ability(2, "Overgrow", 20, "none")],
            },
            PokemonFull {
                pokemon_id: 7,
                name: "Squirtle".to_string(),
                region: "Kanto".to_string(),
                abilities: Vec::new(),
            },
        ]
    );
}

#[test]
fn catalog_asks_region_then_links_then_each_ability() {
    let mut store = Store::sample();
    store.pokemon.truncate(1);
    let _ = store.list_pokemon();
    assert_eq!(
        store.asked,
        vec![
            Statement::AllPokemon,
            Statement::RegionName(1),
            Statement::AbilityLinks(25),
            Statement::AbilityById(1),
            Statement::AbilityById(3),
        ]
    );
}

#[test]
fn catalog_region_is_a_name_of_the_region_table() {
    let mut store = Store::sample();
    let names: Vec<String> = store.region.iter().map(|r| r.region_name.clone()).collect();
    for entry in pokemons_of(store.list_pokemon()) {
        assert!(!entry.region.is_empty());
        assert!(names.contains(&entry.region));
    }
}

#[test]
fn catalog_fails_on_missing_region() {
    let mut store = Store::sample();
    store.region.clear();
    assert_eq!(store.list_pokemon(), ApiResponse::Error);
    assert_eq!(store.asked, vec![Statement::AllPokemon, Statement::RegionName(1)]);
}

#[test]
fn catalog_fails_when_any_statement_fails() {
    for at in 1..=10 {
        let mut store = Store::sample();
        store.fail_at = Some(at);
        assert_eq!(store.list_pokemon(), ApiResponse::Error);
        assert_eq!(store.asked.len(), at);
    }
    let mut store = Store::sample();
    store.fail_at = Some(11);
    assert!(matches!(store.list_pokemon(), ApiResponse::JsonData(_)));
}

#[test]
fn catalog_of_empty_store_is_empty() {
    let mut store = Store::empty();
    assert_eq!(pokemons_of(store.list_pokemon()), Vec::<PokemonFull>::new());
}

#[test]
fn catalog_rejects_answer_of_wrong_shape() {
    let waiting = CatalogAssembly::Region { done: Vec::new(), rows: Vec::new(), row: pokemon(25, "Pikachu", 1) };
    assert!(matches!(waiting.step(Answer::Pokemon(Vec::new())), Step::Done(ApiResponse::Error)));
    let inner = CatalogAssembly::Abilities {
        done: Vec::new(),
        rows: Vec::new(),
        creature: creature(25, "Pikachu", "Kanto"),
        abilities: AbilityAssembly::Links { pokemon_id: 25 },
    };
    assert!(matches!(inner.step(Answer::Regions(Vec::new())), Step::Done(ApiResponse::Error)));
}

#[test]
fn abilities_of_creature_follow_link_order() {
    let mut store = Store::sample();
    assert_eq!(
        abilities_of(store.list_abilities(25)),
        vec![ability(1, "Static", 10, "paralysis"), ability(3, "Lightning Rod", 15, "stun")]
    );
    assert_eq!(
        store.asked,
        vec![Statement::AbilityLinks(25), Statement::AbilityById(1), Statement::AbilityById(3)]
    );
}

#[test]
fn creature_without_links_has_empty_ability_list() {
    let mut store = Store::sample();
    assert_eq!(
        store.list_abilities(7),
        ApiResponse::JsonData(GetAbilityResponse { ability: Vec::new() })
    );
    assert_eq!(store.asked, vec![Statement::AbilityLinks(7)]);
}

#[test]
fn link_to_unknown_ability_fails() {
    let mut store = Store::sample();
    store.pokemonabilities.push(link(7, 99));
    assert_eq!(store.list_abilities(7), ApiResponse::Error);
    assert_eq!(store.asked, vec![Statement::AbilityLinks(7), Statement::AbilityById(99)]);
}

#[test]
fn link_to_unknown_ability_fails_after_known_ones() {
    let mut store = Store::sample();
    store.pokemonabilities.push(link(25, 99));
    assert_eq!(store.list_abilities(25), ApiResponse::Error);
    assert_eq!(
        store.asked,
        vec![
            Statement::AbilityLinks(25),
            Statement::AbilityById(1),
            Statement::AbilityById(3),
            Statement::AbilityById(99),
        ]
    );
}

#[test]
fn ability_step_fails_on_empty_ability_answer() {
    let waiting = AbilityAssembly::Ability {
        ability_id: 99,
        found: vec![ability(1, "Static", 10, "paralysis")],
        pending: Vec::new(),
    };
    assert!(matches!(waiting.step(Answer::Abilities(Vec::new())), Step::Done(ApiResponse::Error)));
}

#[test]
fn catalog_fails_on_link_to_unknown_ability() {
    let mut store = Store::sample();
    store.pokemonabilities.push(link(152, 99));
    assert_eq!(store.list_pokemon(), ApiResponse::Error);
    assert_eq!(store.asked.last(), Some(&Statement::AbilityById(99)));
}

#[test]
fn lookup_under_distinct_ids_finds_at_most_one() {
    let mut store = Store::sample();
    for id in 0..5 {
        let found = found_of(store.find_trainer(id));
        let expected = if id == 1 || id == 2 { 1 } else { 0 };
        assert_eq!(found.len(), expected);
    }
}

#[test]
fn abilities_fail_when_any_statement_fails() {
    for at in 1..=3 {
        let mut store = Store::sample();
        store.fail_at = Some(at);
        assert_eq!(store.list_abilities(25), ApiResponse::Error);
    }
}

#[test]
fn repeated_reads_give_equal_responses() {
    let mut store = Store::sample();
    assert_eq!(store.list_trainers(), store.list_trainers());
    assert_eq!(store.find_trainer(1), store.find_trainer(1));
    assert_eq!(store.list_pokemon(), store.list_pokemon());
    assert_eq!(store.list_abilities(25), store.list_abilities(25));
}

#[test]
fn many_creates_are_all_listed_under_distinct_ids() {
    let mut store = Store::empty();
    for i in 0..20 {
        assert_eq!(store.create(&format!("trainer-{}", i), i % 2 == 0), ApiResponse::OK);
    }
    let trainers = trainers_of(store.list_trainers());
    assert_eq!(trainers.len(), 20);
    for i in 0..20 {
        assert_eq!(trainers[i].name, format!("trainer-{}", i));
        for j in 0..i {
            assert_ne!(trainers[i].trainer_id, trainers[j].trainer_id);
        }
    }
}
