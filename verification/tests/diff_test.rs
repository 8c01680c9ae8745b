use surreal_dbops::surreal::diff::{
    compute_diff, field_definitions_equivalent, make_overwrite, parse_canonical_field_definition,
    parse_canonical_table_definition, parse_schema, table_definitions_equivalent, LiveSchema,
    LiveTable, NamedDefinition, SchemaObject, SchemaObjectType,
};

#[test]
fn table_definitions_treat_default_type_and_permissions_as_equivalent() {
    let desired = "DEFINE TABLE person SCHEMAFULL";
    let live = "DEFINE TABLE person TYPE NORMAL SCHEMAFULL PERMISSIONS NONE";
    assert!(table_definitions_equivalent(desired, live));
}

#[test]
fn table_definitions_treat_omitted_schema_clauses_as_wildcards() {
    let desired = "DEFINE TABLE person";
    let live = "DEFINE TABLE person TYPE RELATION SCHEMALESS PERMISSIONS FULL";
    assert!(table_definitions_equivalent(desired, live));
}

#[test]
fn table_definitions_detect_schema_mode_change() {
    let desired = "DEFINE TABLE person SCHEMALESS";
    let live = "DEFINE TABLE person TYPE NORMAL SCHEMAFULL PERMISSIONS NONE";
    assert!(!table_definitions_equivalent(desired, live));
}

#[test]
fn table_definitions_detect_non_default_permissions_change() {
    let desired = "DEFINE TABLE person SCHEMAFULL PERMISSIONS FULL";
    let live = "DEFINE TABLE person TYPE NORMAL SCHEMAFULL PERMISSIONS NONE";
    assert!(!table_definitions_equivalent(desired, live));
}

#[test]
fn field_definitions_treat_missing_permissions_full_as_equivalent() {
    let desired = "DEFINE FIELD name ON TABLE person TYPE string";
    let live = "DEFINE FIELD name ON person TYPE string PERMISSIONS FULL";
    assert!(field_definitions_equivalent(desired, live));
}

#[test]
fn field_definitions_detect_non_default_permissions_change() {
    let desired = "DEFINE FIELD name ON TABLE person TYPE string";
    let live = "DEFINE FIELD name ON person TYPE string PERMISSIONS NONE";
    assert!(!field_definitions_equivalent(desired, live));
}

#[test]
fn make_overwrite_supports_any_define_kind() {
    let stmt = "DEFINE MODULE mod::math AS f\"math:/math.surli\"";
    assert_eq!(
        make_overwrite(stmt),
        "DEFINE MODULE OVERWRITE mod::math AS f\"math:/math.surli\""
    );
}

#[test]
fn make_overwrite_replaces_if_not_exists() {
    let stmt = "DEFINE TABLE IF NOT EXISTS person SCHEMAFULL";
    assert_eq!(
        make_overwrite(stmt),
        "DEFINE TABLE OVERWRITE person SCHEMAFULL"
    );
}

#[test]
fn make_overwrite_is_noop_for_non_define() {
    let stmt = "REMOVE FIELD name ON TABLE person";
    assert_eq!(make_overwrite(stmt), stmt);
}

#[test]
fn test_parse_schema_tables_and_fields() {
    let schema_text = "
            -- This is a comment
            DEFINE TABLE account SCHEMAFULL;
            
            # Another comment
            DEFINE FIELD email ON TABLE account TYPE string ASSERT string::is::email($value);
            
            DEFINE INDEX email_idx ON TABLE account FIELDS email UNIQUE;
            
            // Scope definition
            DEFINE ACCESS users ON DATABASE TYPE RECORD
              SIGNUP ( CREATE account SET email = $email )
              SIGNIN ( SELECT * FROM account WHERE email = $email )
            ;
        ";

    let objects = parse_schema(schema_text);

    // Verify table was parsed
    let table_key = "table:account";
    assert!(objects.contains_key(table_key), "Should contain table key");
    let table = objects.get(table_key).unwrap();
    assert_eq!(table.name, "account");
    assert_eq!(table.object_type, SchemaObjectType::Table);
    assert!(table.definition.contains("DEFINE TABLE account SCHEMAFULL"));

    // Verify field was parsed
    let field_key = "field:account.email";
    assert!(objects.contains_key(field_key), "Should contain field key");
    let field = objects.get(field_key).unwrap();
    assert_eq!(field.name, "email");
    assert_eq!(
        field.object_type,
        SchemaObjectType::Field {
            table: "account".to_string()
        }
    );

    // Verify index was parsed
    let index_key = "index:account.email_idx";
    assert!(objects.contains_key(index_key), "Should contain index key");
    let index = objects.get(index_key).unwrap();
    assert_eq!(index.name, "email_idx");
    assert_eq!(
        index.object_type,
        SchemaObjectType::Index {
            table: "account".to_string()
        }
    );

    // Verify access was parsed
    let access_key = "access:users";
    assert!(
        objects.contains_key(access_key),
        "Should contain access key"
    );
    let access = objects.get(access_key).unwrap();
    assert_eq!(access.name, "users");
    assert_eq!(access.object_type, SchemaObjectType::Access);
}

fn named(name: &str, definition: &str) -> NamedDefinition {
    NamedDefinition { name: name.to_string(), definition: definition.to_string() }
}

#[test]
fn parse_schema_orders_objects_by_key_and_keeps_last_definition() {
    let objects = parse_schema(
        "DEFINE TABLE b; DEFINE TABLE a SCHEMALESS; DEFINE TABLE A SCHEMAFULL; SELECT * FROM a;",
    );
    let keys: Vec<String> = objects.values().iter().map(|o: &SchemaObject| o.key()).collect();
    assert_eq!(keys, vec!["table:a".to_string(), "table:b".to_string()]);
    assert_eq!(objects.get("table:a").unwrap().definition, "DEFINE TABLE A SCHEMAFULL");
    assert_eq!(objects.len(), 2);
}

#[test]
fn parse_schema_keeps_semicolons_inside_strings() {
    let objects = parse_schema("DEFINE EVENT e ON user WHEN $x = 'a;b' THEN {}; DEFINE SCOPE s;");
    let e = objects.get("event:user.e").unwrap();
    assert_eq!(e.definition, "DEFINE EVENT e ON user WHEN $x = 'a;b' THEN {}");
    assert_eq!(objects.get("access:s").unwrap().object_type, SchemaObjectType::Access);
}

#[test]
fn parse_schema_drops_record_prefix_and_lowercases_names() {
    let objects = parse_schema("define field Name: ON TABLE People;");
    let f = objects.get("field:people.name").unwrap();
    assert_eq!(f.name, "name");
    assert_eq!(f.object_type, SchemaObjectType::Field { table: "people".to_string() });
}

#[test]
fn parse_schema_skips_field_without_on() {
    let objects = parse_schema("DEFINE FIELD name TYPE string;");
    assert_eq!(objects.len(), 0);
}

#[test]
fn priority_orders_kinds() {
    assert_eq!(SchemaObjectType::Table.priority(), 0);
    assert_eq!(SchemaObjectType::Field { table: "t".to_string() }.priority(), 1);
    assert_eq!(SchemaObjectType::Index { table: "t".to_string() }.priority(), 2);
    assert_eq!(SchemaObjectType::Event { table: "t".to_string() }.priority(), 3);
    assert_eq!(SchemaObjectType::Access.priority(), 4);
}

#[test]
fn make_overwrite_keeps_existing_overwrite_and_trims() {
    let stmt = "  DEFINE TABLE OVERWRITE person  ";
    assert_eq!(make_overwrite(stmt), "DEFINE TABLE OVERWRITE person");
    assert_eq!(make_overwrite("DEFINE TABLE"), "DEFINE TABLE");
    assert_eq!(make_overwrite("define table if not exists x"), "DEFINE table OVERWRITE x");
    assert_eq!(make_overwrite("DEFINE TABLE IF NOT EXISTS"), "DEFINE TABLE OVERWRITE");
    let once = make_overwrite("DEFINE FIELD a ON t");
    assert_eq!(make_overwrite(&once), once);
}

#[test]
fn canonical_forms_of_definitions() {
    let t = parse_canonical_table_definition("DEFINE TABLE OVERWRITE person TYPE ANY SCHEMALESS PERMISSIONS FOR select FULL;").unwrap();
    assert_eq!(t.name, "PERSON");
    assert_eq!(t.schema_mode.as_deref(), Some("SCHEMALESS"));
    assert_eq!(t.table_type.as_deref(), Some("ANY"));
    assert_eq!(t.permissions.as_deref(), Some("FOR SELECT FULL"));
    assert!(parse_canonical_table_definition("DEFINE FIELD x ON t").is_none());
    assert_eq!(
        parse_canonical_field_definition("define field OVERWRITE Age ON TABLE People TYPE int;").as_deref(),
        Some("DEFINE FIELD age ON people TYPE int PERMISSIONS FULL")
    );
    assert!(parse_canonical_field_definition("DEFINE FIELD a b c d").is_none());
}

#[test]
fn compute_diff_removes_overwrites_and_creates() {
    let desired = "DEFINE TABLE person SCHEMAFULL; DEFINE FIELD age ON person TYPE int; DEFINE ACCESS users ON DATABASE TYPE RECORD; DEFINE TABLE pet;";
    let live = LiveSchema {
        tables: vec![LiveTable {
            name: "person".to_string(),
            definition: "DEFINE TABLE person TYPE NORMAL SCHEMALESS PERMISSIONS NONE".to_string(),
            fields: vec![named("name", "DEFINE FIELD name ON person TYPE string PERMISSIONS FULL")],
            indexes: vec![],
            events: vec![],
        }],
        scopes: vec![],
        accesses: vec![],
    };
    let (statements, destructive) = compute_diff(desired, &live);
    assert!(destructive);
    assert_eq!(
        statements,
        vec![
            "REMOVE FIELD name ON TABLE person;".to_string(),
            "DEFINE TABLE OVERWRITE person SCHEMAFULL;".to_string(),
            "DEFINE TABLE pet;".to_string(),
            "DEFINE FIELD age ON person TYPE int;".to_string(),
            "DEFINE ACCESS users ON DATABASE TYPE RECORD;".to_string(),
        ]
    );
}

#[test]
fn compute_diff_in_sync_is_empty() {
    let desired = "DEFINE TABLE person SCHEMAFULL; DEFINE FIELD name ON TABLE person TYPE string; DEFINE ACCESS a ON DATABASE;";
    let live = LiveSchema {
        tables: vec![LiveTable {
            name: "person".to_string(),
            definition: "DEFINE TABLE person TYPE NORMAL SCHEMAFULL PERMISSIONS NONE".to_string(),
            fields: vec![named("name", "DEFINE FIELD name ON person TYPE string PERMISSIONS FULL")],
            indexes: vec![],
            events: vec![],
        }],
        scopes: vec![],
        accesses: vec![named("a", " DEFINE ACCESS a ON DATABASE ")],
    };
    let (statements, destructive) = compute_diff(desired, &live);
    assert!(!destructive);
    assert!(statements.is_empty());
}

#[test]
fn compute_diff_removes_stale_scopes_indexes_and_events() {
    let live = LiveSchema {
        tables: vec![LiveTable {
            name: "t".to_string(),
            definition: "DEFINE TABLE t".to_string(),
            fields: vec![],
            indexes: vec![named("i", "DEFINE INDEX i ON t FIELDS a")],
            events: vec![named("e", "DEFINE EVENT e ON t")],
        }],
        scopes: vec![named("s", "DEFINE SCOPE s")],
        accesses: vec![],
    };
    let (statements, destructive) = compute_diff("DEFINE TABLE t; DEFINE INDEX i ON t FIELDS b;", &live);
    assert!(destructive);
    assert_eq!(
        statements,
        vec![
            "DEFINE INDEX OVERWRITE i ON t FIELDS b;".to_string(),
            "REMOVE EVENT e ON TABLE t;".to_string(),
            "REMOVE ACCESS s ON DATABASE;".to_string(),
        ]
    );
}

#[test]
fn every_definition_is_equivalent_to_itself() {
    for def in [
        "DEFINE TABLE person SCHEMAFULL",
        "DEFINE TABLE person TYPE RELATION IN a OUT b",
        "not a definition at all",
    ] {
        assert!(table_definitions_equivalent(def, def));
    }
    for def in ["DEFINE FIELD name ON person TYPE string", "DEFINE FIELD x", ""] {
        assert!(field_definitions_equivalent(def, def));
    }
}

#[test]
fn overwrite_of_an_overwrite_is_unchanged() {
    for def in [
        "DEFINE TABLE IF NOT EXISTS person SCHEMAFULL",
        "  define index i ON t FIELDS a ",
        "REMOVE TABLE x",
        "DEFINE ACCESS users ON DATABASE TYPE RECORD",
    ] {
        let once = make_overwrite(def);
        assert_eq!(make_overwrite(&once), once);
    }
}
