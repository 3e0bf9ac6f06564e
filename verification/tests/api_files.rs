use ontogen::source::parse_api_file;

#[test]
fn a_file_of_private_functions_gives_no_module() {
    let r = parse_api_file(
        "api/helpers.rs",
        "helpers",
        "use crate::store::Store;\nasync fn helper(store: &Store) -> Result<(), anyhow::Error> { todo!() }\n",
        "AppState",
        Some("Store"),
    );
    assert!(r.module.is_none());
    assert!(r.skips.is_empty());
}

#[test]
fn a_file_whose_functions_are_all_skipped_keeps_its_records() {
    let r = parse_api_file(
        "api/odd.rs",
        "odd",
        "pub async fn ping() -> Result<(), anyhow::Error> { todo!() }\n",
        "AppState",
        Some("Store"),
    );
    assert!(r.module.is_none());
    assert_eq!(r.skips.len(), 1);
    assert_eq!(r.skips[0].fn_name, "ping");
}

#[test]
fn an_api_file_is_parsed_from_its_text() {
    let r = parse_api_file(
        "api/agent.rs",
        "agent",
        "use crate::store::Store;\n\n/// List all agents.\npub async fn list(store: &Store) -> Result<Vec<Agent>, anyhow::Error> { todo!() }\n\n/// Get one.\npub async fn get_by_id(store: &Store, id: &str) -> Result<Agent, anyhow::Error> { todo!() }\n",
        "AppState",
        Some("Store"),
    );
    let m = r.module.expect("module");
    assert_eq!(m.name, "agent");
    assert_eq!(m.functions.len(), 2);
    assert_eq!(m.functions[0].return_type, "Vec<Agent>");
    assert_eq!(m.functions[0].doc, "List all agents.");
    assert_eq!(m.functions[1].params[0].ty, "&str");
}

#[test]
fn an_unparsable_api_file_gives_nothing() {
    let r = parse_api_file("api/bad.rs", "bad", "pub async fn list(", "AppState", Some("Store"));
    assert!(r.module.is_none());
    assert!(r.skips.is_empty());
}
