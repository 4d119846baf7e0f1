use workgrid_studio::variables::{find_last, merge_values, merge_variables, variables_response, VariableInfo};

fn rows(pairs: &[(&str, &str)]) -> Vec<(String, String)> {
    pairs.iter().map(|(a, b)| (String::from(*a), String::from(*b))).collect()
}

fn shown(v: &VariableInfo) -> (String, String, String, Option<String>) {
    (v.name.clone(), v.session_value.clone(), v.global_value.clone(), v.scope.clone())
}

fn expect(name: &str, session: &str, global: &str, scope: Option<&str>) -> (String, String, String, Option<String>) {
    (String::from(name), String::from(session), String::from(global), scope.map(String::from))
}

#[test]
fn session_and_global_are_merged_by_name() {
    let out = merge_variables(
        &rows(&[("a", "1"), ("b", "2")]),
        &rows(&[("b", "3"), ("c", "4")]),
        &Vec::new(),
    );
    let got: Vec<_> = out.iter().map(shown).collect();
    assert_eq!(
        got,
        vec![expect("a", "1", "", None), expect("b", "2", "3", None), expect("c", "", "4", None)]
    );
}

#[test]
fn nothing_gives_nothing() {
    assert!(merge_variables(&Vec::new(), &Vec::new(), &Vec::new()).is_empty());
    assert!(merge_variables(&Vec::new(), &Vec::new(), &rows(&[("a", "GLOBAL")])).is_empty());
}

#[test]
fn records_come_in_order_of_name() {
    let out = merge_variables(
        &rows(&[("zeta", "1"), ("alpha", "2"), ("Mid", "3")]),
        &rows(&[("beta", "4"), ("_x", "5"), ("alpha", "6")]),
        &Vec::new(),
    );
    let names: Vec<&str> = out.iter().map(|v| v.name.as_str()).collect();
    assert_eq!(names, vec!["Mid", "_x", "alpha", "beta", "zeta"]);
}

#[test]
fn order_of_the_rows_does_not_change_the_names() {
    let one = merge_variables(&rows(&[("a", "1"), ("b", "2")]), &rows(&[("c", "3")]), &Vec::new());
    let two = merge_variables(&rows(&[("b", "2"), ("a", "1")]), &rows(&[("c", "3")]), &Vec::new());
    let three = merge_variables(&rows(&[("c", "3")]), &rows(&[("b", "2"), ("a", "1")]), &Vec::new());
    let names = |out: &Vec<VariableInfo>| out.iter().map(|v| v.name.clone()).collect::<Vec<_>>();
    assert_eq!(names(&one), names(&two));
    assert_eq!(names(&one), names(&three));
}

#[test]
fn last_row_of_a_name_wins() {
    let out = merge_variables(
        &rows(&[("a", "1"), ("a", "2")]),
        &rows(&[("a", "x"), ("b", "y"), ("a", "z")]),
        &Vec::new(),
    );
    let got: Vec<_> = out.iter().map(shown).collect();
    assert_eq!(got, vec![expect("a", "2", "z", None), expect("b", "", "y", None)]);
}

#[test]
fn names_differ_by_case() {
    let out = merge_variables(&rows(&[("a", "1")]), &rows(&[("A", "2")]), &Vec::new());
    let got: Vec<_> = out.iter().map(shown).collect();
    assert_eq!(got, vec![expect("A", "", "2", None), expect("a", "1", "", None)]);
}

#[test]
fn scope_is_found_whatever_the_case() {
    let out = merge_variables(
        &rows(&[("MAX_CONNECTIONS", "151"), ("sql_mode", "")]),
        &rows(&[("MAX_CONNECTIONS", "151")]),
        &rows(&[("Max_Connections", "global"), ("SQL_MODE", "Session"), ("other", "GLOBAL")]),
    );
    let got: Vec<_> = out.iter().map(shown).collect();
    assert_eq!(
        got,
        vec![
            expect("MAX_CONNECTIONS", "151", "151", Some("GLOBAL")),
            expect("sql_mode", "", "", Some("SESSION")),
        ]
    );
}

#[test]
fn last_scope_row_of_a_name_wins() {
    let out = merge_variables(
        &rows(&[("a", "1")]),
        &Vec::new(),
        &rows(&[("a", "GLOBAL"), ("A", "SESSION")]),
    );
    assert_eq!(out.len(), 1);
    assert_eq!(out[0].scope, Some(String::from("SESSION")));
}

#[test]
fn missing_scope_rows_leave_no_scope() {
    let out = variables_response(None, rows(&[("a", "1")]), rows(&[("a", "2")]));
    let got: Vec<_> = out.iter().map(shown).collect();
    assert_eq!(got, vec![expect("a", "1", "2", None)]);
}

#[test]
fn scope_rows_are_used_when_given() {
    let out = variables_response(
        Some(rows(&[("a", "session")])),
        rows(&[("a", "1")]),
        rows(&[("b", "2")]),
    );
    let got: Vec<_> = out.iter().map(shown).collect();
    assert_eq!(got, vec![expect("a", "1", "", Some("SESSION")), expect("b", "", "2", None)]);
}

#[test]
fn values_are_merged_without_scopes() {
    let out = merge_values(&rows(&[("b", "2"), ("a", "1")]), &rows(&[("b", "3")]));
    let got: Vec<_> = out.iter().map(shown).collect();
    assert_eq!(got, vec![expect("a", "1", "", None), expect("b", "2", "3", None)]);
}

#[test]
fn last_row_is_found() {
    let listing = rows(&[("a", "1"), ("b", "2"), ("a", "3")]);
    assert_eq!(find_last(&listing, "a"), Some(String::from("3")));
    assert_eq!(find_last(&listing, "b"), Some(String::from("2")));
    assert_eq!(find_last(&listing, "A"), None);
    assert_eq!(find_last(&Vec::new(), "a"), None);
}
