use workgrid_studio::failure::DbError;
use workgrid_studio::pipeline::Statement;
use workgrid_studio::plans;

fn shown(plan: &[Statement]) -> Vec<(String, String, bool)> {
    plan.iter().map(|s| (s.text.clone(), s.label.clone(), s.required)).collect()
}

fn plain(text: &str, required: bool) -> (String, String, bool) {
    (String::from(text), String::from(text), required)
}

#[test]
fn listing_plans() {
    assert_eq!(shown(&plans::list_databases()), vec![plain("SHOW DATABASES", true)]);
    assert_eq!(
        shown(&plans::list_tables("shop")),
        vec![
            plain("USE `shop`", true),
            (String::from("SHOW TABLES"), String::from("SHOW TABLES FROM `shop`"), true),
        ]
    );
    assert_eq!(
        shown(&plans::list_columns("shop", "orders")),
        vec![plain("SHOW COLUMNS FROM `shop`.`orders`", true)]
    );
}

#[test]
fn describing_plans() {
    let plan = plans::databases_info();
    assert_eq!(plan.len(), 1);
    assert_eq!(plan[0].text, plans::DATABASES_INFO);
    assert_eq!(plan[0].label, "SELECT databases info FROM information_schema");
    assert!(plan[0].required);
    let plan = plans::tables_info("shop");
    assert_eq!(plan.len(), 1);
    assert_eq!(plan[0].text, plans::TABLES_INFO);
    assert_eq!(plan[0].label, "SELECT tables info FROM information_schema for shop");
    assert!(plan[0].required);
}

#[test]
fn variables_plan_can_do_without_scopes() {
    assert_eq!(
        shown(&plans::variables()),
        vec![
            plain("SELECT VARIABLE_NAME, VARIABLE_SCOPE FROM performance_schema.variables_info", false),
            plain("SHOW SESSION VARIABLES", true),
            plain("SHOW GLOBAL VARIABLES", true),
        ]
    );
}

#[test]
fn set_variable_plan() {
    assert_eq!(
        shown(&plans::set_variable("GLOBAL", "max_connections", "it's").unwrap()),
        vec![plain("SET GLOBAL max_connections = 'it''s'", true)]
    );
    match plans::set_variable("GLOBAL", "max; DROP TABLE x", "1") {
        Err(DbError::InvalidIdentifier { name }) => assert_eq!(name, "max; DROP TABLE x"),
        _ => panic!("the name was not refused"),
    }
}

#[test]
fn server_plans() {
    assert_eq!(shown(&plans::status()), vec![plain("SHOW GLOBAL STATUS", true)]);
    assert_eq!(shown(&plans::processes()), vec![plain(plans::PROCESSES, true)]);
    assert_eq!(shown(&plans::kill_process(0)), vec![plain("KILL 0", true)]);
    assert_eq!(shown(&plans::kill_process(18446744073709551615)), vec![plain("KILL 18446744073709551615", true)]);
    assert_eq!(shown(&plans::execute_query("SELECT 1")), vec![plain("SELECT 1", true)]);
}

#[test]
fn collations_plan_needs_both_listings() {
    assert_eq!(
        shown(&plans::collations()),
        vec![
            plain("SHOW COLLATION", true),
            plain("SHOW CHARACTER SET WHERE Charset = 'utf8mb4'", true),
        ]
    );
}
