use pokedex_service::envelope::{ApiResponse, STATUS_INTERNAL_SERVER_ERROR, STATUS_OK};
use pokedex_service::statement::Statement;

#[test]
fn ok_is_200_without_body() {
    let response: ApiResponse<i32> = ApiResponse::OK;
    assert_eq!(response.status(), 200);
    assert_eq!(response.into_parts(), (200, None));
}

#[test]
fn error_is_500_without_body() {
    let response: ApiResponse<String> = ApiResponse::Error;
    assert_eq!(response.status(), 500);
    assert_eq!(response.into_parts(), (500, None));
}

#[test]
fn data_is_200_with_body() {
    let response = ApiResponse::JsonData(vec![1, 2, 3]);
    assert_eq!(response.status(), 200);
    assert_eq!(response.into_parts(), (200, Some(vec![1, 2, 3])));
}

#[test]
fn status_constants() {
    assert_eq!(STATUS_OK, 200);
    assert_eq!(STATUS_INTERNAL_SERVER_ERROR, 500);
}

#[test]
fn statement_texts_use_positional_placeholders() {
    assert_eq!(Statement::AllTrainers.text(), "SELECT * FROM trainer");
    assert_eq!(Statement::TrainerById(1).text(), "SELECT * FROM trainer WHERE trainer_id = $1");
    assert_eq!(
        Statement::OwnedPokemon(1).text(),
        "SELECT pokemon_id FROM trainerspokemon WHERE trainer_id = $1"
    );
    assert_eq!(Statement::PokemonById(1).text(), "SELECT * FROM pokemon WHERE pokemon_id = $1");
    assert_eq!(
        Statement::RegionName(1).text(),
        "SELECT region_name FROM region WHERE region_id = $1"
    );
    assert_eq!(Statement::AllPokemon.text(), "SELECT * FROM pokemon");
    assert_eq!(
        Statement::AbilityLinks(1).text(),
        "SELECT * FROM pokemonabilities WHERE pokemon_id = $1"
    );
    assert_eq!(Statement::AbilityById(1).text(), "SELECT * FROM ability WHERE ability_id = $1");
    assert_eq!(
        Statement::InsertTrainer("Ash".to_string(), false).text(),
        "INSERT INTO trainer (name, gym_leader) VALUES ($1, $2)"
    );
    assert_eq!(Statement::DeleteTrainer(1).text(), "DELETE FROM trainer WHERE trainer_id = $1");
}

#[test]
fn statement_text_does_not_depend_on_the_parameter() {
    assert_eq!(Statement::TrainerById(1).text(), Statement::TrainerById(-7).text());
    assert_eq!(
        Statement::InsertTrainer("a".to_string(), true).text(),
        Statement::InsertTrainer("'; DROP TABLE trainer; --".to_string(), false).text()
    );
}

#[test]
fn statement_id_is_the_bound_integer() {
    assert_eq!(Statement::AllTrainers.id(), None);
    assert_eq!(Statement::AllPokemon.id(), None);
    assert_eq!(Statement::InsertTrainer("Ash".to_string(), false).id(), None);
    assert_eq!(Statement::TrainerById(5).id(), Some(5));
    assert_eq!(Statement::OwnedPokemon(i32::MIN).id(), Some(i32::MIN));
    assert_eq!(Statement::PokemonById(i32::MAX).id(), Some(i32::MAX));
    assert_eq!(Statement::RegionName(0).id(), Some(0));
    assert_eq!(Statement::AbilityLinks(-1).id(), Some(-1));
    assert_eq!(Statement::AbilityById(9).id(), Some(9));
    assert_eq!(Statement::DeleteTrainer(3).id(), Some(3));
}

#[test]
fn only_insert_and_delete_are_writes() {
    assert!(Statement::InsertTrainer("Ash".to_string(), false).is_write());
    assert!(Statement::DeleteTrainer(1).is_write());
    assert!(!Statement::AllTrainers.is_write());
    assert!(!Statement::TrainerById(1).is_write());
    assert!(!Statement::OwnedPokemon(1).is_write());
    assert!(!Statement::PokemonById(1).is_write());
    assert!(!Statement::RegionName(1).is_write());
    assert!(!Statement::AllPokemon.is_write());
    assert!(!Statement::AbilityLinks(1).is_write());
    assert!(!Statement::AbilityById(1).is_write());
}
