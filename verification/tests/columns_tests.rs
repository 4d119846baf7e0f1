use workgrid_studio::columns::{column_info, columns_of, is_nullable};

#[test]
fn yes_marks_nullable() {
    assert!(is_nullable("YES"));
}

#[test]
fn nothing_else_marks_nullable() {
    assert!(!is_nullable("NO"));
    assert!(!is_nullable(""));
    assert!(!is_nullable("yes"));
    assert!(!is_nullable("Yes"));
    assert!(!is_nullable("YES "));
    assert!(!is_nullable(" YES"));
}

#[test]
fn column_keeps_its_fields() {
    let c = column_info(
        String::from("id"),
        String::from("int(11)"),
        String::from("NO"),
        String::from("PRI"),
        None,
        String::from("auto_increment"),
    );
    assert_eq!(c.name, "id");
    assert_eq!(c.col_type, "int(11)");
    assert!(!c.nullable);
    assert_eq!(c.key, "PRI");
    assert_eq!(c.default_val, None);
    assert_eq!(c.extra, "auto_increment");
}

#[test]
fn nullable_column_with_default() {
    let c = column_info(
        String::from("note"),
        String::from("varchar(20)"),
        String::from("YES"),
        String::new(),
        Some(String::from("n/a")),
        String::new(),
    );
    assert!(c.nullable);
    assert_eq!(c.default_val, Some(String::from("n/a")));
    assert_eq!(c.key, "");
}

#[test]
fn rows_become_columns_in_order() {
    let rows = vec![
        (
            String::from("id"),
            String::from("int(11)"),
            String::from("NO"),
            String::from("PRI"),
            None,
            String::from("auto_increment"),
        ),
        (
            String::from("note"),
            String::from("text"),
            String::from("YES"),
            String::new(),
            Some(String::from("-")),
            String::new(),
        ),
        (
            String::from("flag"),
            String::from("tinyint(1)"),
            String::from("yes"),
            String::from("MUL"),
            Some(String::from("0")),
            String::new(),
        ),
    ];
    let out = columns_of(rows);
    assert_eq!(out.len(), 3);
    let names: Vec<&str> = out.iter().map(|c| c.name.as_str()).collect();
    assert_eq!(names, vec!["id", "note", "flag"]);
    let nullable: Vec<bool> = out.iter().map(|c| c.nullable).collect();
    assert_eq!(nullable, vec![false, true, false]);
    assert_eq!(out[0].col_type, "int(11)");
    assert_eq!(out[0].key, "PRI");
    assert_eq!(out[0].default_val, None);
    assert_eq!(out[0].extra, "auto_increment");
    assert_eq!(out[1].default_val, Some(String::from("-")));
    assert_eq!(out[2].key, "MUL");
    assert!(columns_of(Vec::new()).is_empty());
}
