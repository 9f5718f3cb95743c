use todoer::helpers::{get_output_dir, handle_error, tasks_path, AppError};
use todoer::notion::{
    answer_value, checkbox_answer, date_answer, get_notion_keys, is_valid_relation_input,
    parse_bool, property_kind, read_and_parse_config, relation_answer, response_kind,
    title_property, unexpected_status, KeyPlan, NotionApi, NotionKeys, NotionManager,
    ResponseKind,
};
use todoer::notion_props::PropertyKind;

const RANDOM_A: &str = "550e8400-e29b-41d4-a716-446655440000";
const RANDOM_B: &str = "67e55044-10b1-426f-9247-bb680e5fe0c8";
const MD5: &str = "02f09a3f-1624-3b1d-8409-44eff7708208";

#[test]
fn parse_bool_takes_the_four_answers() {
    assert_eq!(parse_bool("true"), Ok(true));
    assert_eq!(parse_bool("y"), Ok(true));
    assert_eq!(parse_bool("false"), Ok(false));
    assert_eq!(parse_bool("n"), Ok(false));
}

#[test]
fn parse_bool_takes_any_case() {
    assert_eq!(parse_bool("TRUE"), Ok(true));
    assert_eq!(parse_bool("Y"), Ok(true));
    assert_eq!(parse_bool("False"), Ok(false));
    assert_eq!(parse_bool("N"), Ok(false));
}

#[test]
fn parse_bool_refuses_other_answers() {
    assert_eq!(parse_bool("yes"), Err("Invalid input"));
    assert_eq!(parse_bool(""), Err("Invalid input"));
    assert_eq!(parse_bool(" y"), Err("Invalid input"));
    assert_eq!(parse_bool("1"), Err("Invalid input"));
}

#[test]
fn answer_value_wants_lower_case() {
    assert_eq!(answer_value("true"), Ok(true));
    assert_eq!(answer_value("n"), Ok(false));
    assert_eq!(answer_value("TRUE"), Err("Invalid input"));
}

#[test]
fn relation_input_is_a_list_of_random_uuids() {
    assert!(is_valid_relation_input(RANDOM_A));
    assert!(is_valid_relation_input(&format!("{},{}", RANDOM_A, RANDOM_B)));
    assert!(is_valid_relation_input(&format!(" {} , {} ", RANDOM_A, RANDOM_B)));
    assert!(is_valid_relation_input("550e8400e29b41d4a716446655440000"));
}

#[test]
fn relation_input_refuses_other_texts() {
    assert!(!is_valid_relation_input(""));
    assert!(!is_valid_relation_input("not a uuid"));
    assert!(!is_valid_relation_input(MD5));
    assert!(!is_valid_relation_input(&format!("{},", RANDOM_A)));
    assert!(!is_valid_relation_input(&format!("{},,{}", RANDOM_A, RANDOM_B)));
    assert!(!is_valid_relation_input(&format!("{},{}", RANDOM_A, MD5)));
    assert!(!is_valid_relation_input(" "));
}

#[test]
fn property_kinds() {
    assert_eq!(property_kind("title"), PropertyKind::Title);
    assert_eq!(property_kind("checkbox"), PropertyKind::Checkbox);
    assert_eq!(property_kind("date"), PropertyKind::Date);
    assert_eq!(property_kind("relation"), PropertyKind::Relation);
    assert_eq!(property_kind("number"), PropertyKind::Other);
    assert_eq!(property_kind(""), PropertyKind::Other);
    assert_eq!(property_kind("Title"), PropertyKind::Other);
}

#[test]
fn title_property_holds_the_title() {
    let t = title_property("Buy milk");
    assert_eq!(t.title.len(), 1);
    assert_eq!(t.title[0].text.content, "Buy milk");
}

#[test]
fn checkbox_answers() {
    assert_eq!(checkbox_answer("").unwrap().checkbox, false);
    assert_eq!(checkbox_answer("y").unwrap().checkbox, true);
    assert_eq!(checkbox_answer("True").unwrap().checkbox, true);
    assert_eq!(checkbox_answer("n").unwrap().checkbox, false);
    assert!(checkbox_answer("maybe").is_none());
}

#[test]
fn date_answers() {
    let d = date_answer("2024-01-03").unwrap();
    assert_eq!(d.date.start, "2024-01-03");
    assert!(d.date.end.is_none());
    assert!(date_answer("2024-1-3").is_none());
    assert!(date_answer("tomorrow").is_none());
    assert!(date_answer("").is_none());
    assert!(date_answer("2024-02-30").is_none());
}

#[test]
fn relation_answers() {
    assert!(relation_answer("").unwrap().relation.is_empty());
    let r = relation_answer(&format!(" {} ,{}", RANDOM_A, RANDOM_B)).unwrap();
    assert_eq!(r.relation.len(), 2);
    assert_eq!(r.relation[0].id, RANDOM_A);
    assert_eq!(r.relation[1].id, RANDOM_B);
    assert!(relation_answer("abc").is_none());
    assert!(relation_answer(MD5).is_none());
}

#[test]
fn stored_keys_must_both_be_there() {
    let ok = read_and_parse_config(NotionKeys { api_key: "k".to_string(), database_id: "d".to_string() });
    assert_eq!(ok.unwrap(), ("k".to_string(), "d".to_string()));
    let no_key = read_and_parse_config(NotionKeys { api_key: "".to_string(), database_id: "d".to_string() });
    assert!(matches!(no_key, Err(AppError::ConfigReadError)));
    let no_db = read_and_parse_config(NotionKeys { api_key: "k".to_string(), database_id: "".to_string() });
    assert!(matches!(no_db, Err(AppError::ConfigReadError)));
}

#[test]
fn key_plans() {
    match get_notion_keys(Some(Ok(("k".to_string(), "d".to_string())))) {
        KeyPlan::Use(k, d) => {
            assert_eq!(k, "k");
            assert_eq!(d, "d");
        }
        KeyPlan::Ask(_) => panic!("stored keys are used"),
    }
    assert!(matches!(get_notion_keys(None), KeyPlan::Ask(None)));
    assert!(matches!(
        get_notion_keys(Some(Err(AppError::ConfigParseError))),
        KeyPlan::Ask(Some(AppError::ConfigParseError))
    ));
}

#[test]
fn response_kinds() {
    assert_eq!(response_kind(200), ResponseKind::Success);
    assert_eq!(response_kind(400), ResponseKind::BadRequest);
    assert_eq!(response_kind(404), ResponseKind::Unexpected);
    assert_eq!(response_kind(201), ResponseKind::Unexpected);
    assert_eq!(response_kind(0), ResponseKind::Unexpected);
}

#[test]
fn unexpected_status_message() {
    assert_eq!(
        unexpected_status("404 Not Found").to_string(),
        "Unknown error: Notion API returned an unexpected response status: 404 Not Found"
    );
}

#[test]
fn api_addresses() {
    let api = NotionApi::new("SECRET-REDACTED", "db1");
    assert_eq!(api.bearer_token(), "Bearer SECRET-REDACTED");
    assert_eq!(api.query_url(), "https://api.notion.com/v1/databases/db1/query");
    assert_eq!(api.database(), "db1");
}

#[test]
fn new_manager_has_sent_nothing() {
    assert!(NotionManager::new().tasks.is_empty());
}

#[test]
fn error_messages() {
    assert_eq!(AppError::ConfigDirNotFound.to_string(), "Failed to find configuration directory");
    assert_eq!(AppError::IOError("disk".to_string()).to_string(), "disk");
    assert_eq!(AppError::UserInputError.to_string(), "Failed to get user input");
    assert_eq!(AppError::ConfigReadError.to_string(), "Failed to read the stored Notion keys");
    assert_eq!(AppError::ConfigParseError.to_string(), "Failed to parse the stored Notion keys");
    assert_eq!(AppError::JsonError("json".to_string()).to_string(), "json");
    assert_eq!(AppError::InvalidArgument("x".to_string()).to_string(), "Invalid argument: x");
    assert_eq!(AppError::UnknownError("y".to_string()).to_string(), "Unknown error: y");
    assert_eq!(AppError::ReqwestError("net".to_string()).to_string(), "net");
    assert_eq!(AppError::MapError("map".to_string()).to_string(), "map");
    assert_eq!(AppError::VecError("vec".to_string()).to_string(), "vec");
}

#[test]
fn report_line_and_paths() {
    assert_eq!(handle_error("boom"), "Error: boom");
    assert_eq!(get_output_dir(Some("/data".to_string())), "/data");
    assert_eq!(get_output_dir(None), ".");
    assert_eq!(tasks_path("."), "./tasks.csv");
    assert_eq!(tasks_path("/data"), "/data/tasks.csv");
}
