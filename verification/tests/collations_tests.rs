use workgrid_studio::collations::{collation_names, collation_response, default_collation};

fn row(charset: &str, description: &str, collation: &str) -> (Option<String>, Option<String>, Option<String>) {
    (Some(String::from(charset)), Some(String::from(description)), Some(String::from(collation)))
}

#[test]
fn last_match_wins() {
    let rows = vec![row("utf8mb4", "x", "collA"), row("utf8mb4", "y", "collB")];
    assert_eq!(default_collation(&rows), "collB");
}

#[test]
fn no_row_gives_the_fallback() {
    assert_eq!(default_collation(&Vec::new()), "utf8mb4_general_ci");
}

#[test]
fn rows_of_other_character_sets_are_passed_over() {
    let rows = vec![row("latin1", "a", "latin1_swedish_ci"), row("utf8", "b", "utf8_general_ci")];
    assert_eq!(default_collation(&rows), "utf8mb4_general_ci");
    let rows =
        vec![row("utf8mb4", "x", "collA"), row("latin1", "a", "latin1_swedish_ci")];
    assert_eq!(default_collation(&rows), "collA");
    let rows = vec![row("UTF8MB4", "x", "collA")];
    assert_eq!(default_collation(&rows), "utf8mb4_general_ci");
}

#[test]
fn row_without_a_character_set_is_passed_over() {
    let rows = vec![
        row("utf8mb4", "x", "collA"),
        (None, Some(String::from("y")), Some(String::from("collB"))),
    ];
    assert_eq!(default_collation(&rows), "collA");
}

#[test]
fn last_match_without_a_collation_gives_the_fallback() {
    let rows = vec![
        row("utf8mb4", "x", "collA"),
        (Some(String::from("utf8mb4")), Some(String::from("y")), None),
    ];
    assert_eq!(default_collation(&rows), "utf8mb4_general_ci");
}

#[test]
fn description_does_not_matter() {
    let rows = vec![(Some(String::from("utf8mb4")), None, Some(String::from("collA")))];
    assert_eq!(default_collation(&rows), "collA");
}

#[test]
fn names_keep_their_order_and_gaps_are_dropped() {
    let firsts = vec![Some(String::from("b")), None, Some(String::from("a")), None];
    assert_eq!(collation_names(firsts), vec![String::from("b"), String::from("a")]);
    assert_eq!(collation_names(Vec::new()), Vec::<String>::new());
}

#[test]
fn response_of_empty_listings() {
    let response = collation_response(Vec::new(), Vec::new());
    assert!(response.collations.is_empty());
    assert_eq!(response.default_collation, "utf8mb4_general_ci");
}

#[test]
fn response_with_listings() {
    let response = collation_response(
        vec![Some(String::from("utf8mb4_bin")), Some(String::from("latin1_bin"))],
        vec![row("utf8mb4", "UTF-8 Unicode", "utf8mb4_0900_ai_ci")],
    );
    assert_eq!(response.collations, vec![String::from("utf8mb4_bin"), String::from("latin1_bin")]);
    assert_eq!(response.default_collation, "utf8mb4_0900_ai_ci");
}
