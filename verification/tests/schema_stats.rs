use graphql_pal::document::Definition;
use graphql_pal::document::Document;
use graphql_pal::document::FieldDefinition;
use graphql_pal::document::FragmentDefinition;
use graphql_pal::document::InterfaceType;
use graphql_pal::document::ObjectType;
use graphql_pal::document::OperationDefinition;
use graphql_pal::document::OperationKind;
use graphql_pal::document::SchemaDefinition;
use graphql_pal::document::Selection;
use graphql_pal::schema_stats::analyze_document;
use graphql_pal::schema_stats::schema_types;
use graphql_pal::schema_stats::get_tree_for_selection_set;
use graphql_pal::schema_stats::update_usages_for_fragment;
use graphql_pal::schema_stats::update_usages_for_operation;
use graphql_pal::schema_stats::GraphQLType;
use graphql_pal::schema_stats::UsageError;

fn field(name: &str, selection_set: Vec<Selection>) -> Selection {
    Selection::Field { name: name.to_string(), selection_set }
}

fn leaf(name: &str) -> Selection {
    field(name, vec![])
}

fn spread(name: &str) -> Selection {
    Selection::FragmentSpread { fragment_name: name.to_string() }
}

fn inline(on: &str, selection_set: Vec<Selection>) -> Selection {
    Selection::InlineFragment { type_condition: Some(on.to_string()), selection_set }
}

fn declared(name: &str, field_type: &str) -> FieldDefinition {
    FieldDefinition { name: name.to_string(), field_type: field_type.to_string() }
}

fn object(name: &str, fields: Vec<FieldDefinition>) -> SchemaDefinition {
    SchemaDefinition::Object(ObjectType { name: name.to_string(), fields })
}

fn interface(name: &str, fields: Vec<FieldDefinition>) -> SchemaDefinition {
    SchemaDefinition::Interface(InterfaceType { name: name.to_string(), fields })
}

fn fragment(name: &str, on: &str, selection_set: Vec<Selection>) -> FragmentDefinition {
    FragmentDefinition { name: name.to_string(), type_condition: on.to_string(), selection_set }
}

fn operation(kind: OperationKind, selection_set: Vec<Selection>) -> OperationDefinition {
    OperationDefinition { kind, selection_set }
}

fn viewer_schema() -> Vec<SchemaDefinition> {
    vec![
        object("Query", vec![declared("viewer", "Viewer")]),
        object("Viewer", vec![declared("id", "ID"), declared("name", "String")]),
    ]
}

fn blog_schema() -> Vec<SchemaDefinition> {
    vec![
        object(
            "Query",
            vec![declared("viewer", "User"), declared("posts", "[Post!]!"), declared("node", "Node")],
        ),
        object("Mutation", vec![declared("createPost", "Post!")]),
        object("Subscription", vec![declared("postAdded", "Post")]),
        object(
            "User",
            vec![declared("id", "ID!"), declared("name", "String"), declared("posts", "[Post!]!")],
        ),
        object("Post", vec![declared("id", "ID!"), declared("title", "String!"), declared("author", "User!")]),
        interface("Node", vec![declared("id", "ID!")]),
        SchemaDefinition::Other,
        object("Unused", vec![declared("nothing", "String")]),
    ]
}

#[test]
fn counts_the_fields_of_a_bare_selection_set() {
    let document = Document {
        definitions: vec![Definition::Operation(operation(
            OperationKind::SelectionSet,
            vec![field("viewer", vec![leaf("id")])],
        ))],
    };
    let stats = analyze_document(viewer_schema(), document, false);
    assert_eq!(stats.usage.count_of("Query", "viewer"), Some(1));
    assert_eq!(stats.usage.count_of("Viewer", "id"), Some(1));
    assert_eq!(stats.usage.count_of("Viewer", "name"), Some(0));
    assert!(stats.operation_errors.is_empty());
    assert!(stats.fragment_errors.is_empty());
}

#[test]
fn schema_types_start_uncounted() {
    let usage = schema_types(blog_schema());
    assert_eq!(usage.types.len(), 7);
    for entry in &usage.types {
        for stats in &entry.fields {
            assert_eq!(stats.count, 0);
        }
    }
    assert_eq!(usage.get("User").unwrap().fields.len(), 3);
    assert_eq!(usage.get("Node").unwrap().get("id").unwrap().type_signature, "ID!");
    assert!(usage.get("String").is_none());
    assert_eq!(usage.count_of("Query", "missing"), None);
    assert_eq!(usage.count_of("Missing", "id"), None);
}

#[test]
fn other_schema_definitions_are_left_out() {
    let usage = schema_types(vec![SchemaDefinition::Other, SchemaDefinition::Other]);
    assert!(usage.types.is_empty());
}

#[test]
fn later_type_definition_replaces_the_earlier() {
    let usage = schema_types(vec![
        object("A", vec![declared("x", "Int")]),
        object("B", vec![declared("y", "Int")]),
        interface("A", vec![declared("z", "String")]),
    ]);
    assert_eq!(usage.types.len(), 2);
    assert_eq!(usage.count_of("A", "x"), None);
    assert_eq!(usage.count_of("A", "z"), Some(0));
    assert_eq!(usage.count_of("B", "y"), Some(0));
}

#[test]
fn later_field_declaration_replaces_the_earlier() {
    let entry = GraphQLType::from_object(ObjectType {
        name: "A".to_string(),
        fields: vec![declared("x", "Int"), declared("y", "Int"), declared("x", "[String]")],
    });
    assert_eq!(entry.name, "A");
    assert_eq!(entry.fields.len(), 2);
    assert_eq!(entry.get("x").unwrap().type_signature, "[String]");
    assert_eq!(entry.get("x").unwrap().count, 0);
    assert_eq!(entry.get("y").unwrap().name, "y");
}

#[test]
fn from_interface_takes_name_and_fields() {
    let entry = GraphQLType::from_interface(InterfaceType {
        name: "Node".to_string(),
        fields: vec![declared("id", "ID!")],
    });
    assert_eq!(entry.name, "Node");
    assert_eq!(entry.fields.len(), 1);
    assert_eq!(entry.fields[0].name, "id");
    assert_eq!(entry.fields[0].type_signature, "ID!");
    assert_eq!(entry.fields[0].count, 0);
}

#[test]
fn list_and_non_null_marks_are_stripped_for_the_nested_type() {
    let mut usage = schema_types(blog_schema());
    let r = get_tree_for_selection_set(
        &vec![field("posts", vec![leaf("title"), field("author", vec![leaf("name")])])],
        "Query",
        &mut usage,
        &vec![],
    );
    assert_eq!(r, Ok(()));
    assert_eq!(usage.count_of("Query", "posts"), Some(1));
    assert_eq!(usage.count_of("Post", "title"), Some(1));
    assert_eq!(usage.count_of("Post", "author"), Some(1));
    assert_eq!(usage.count_of("User", "name"), Some(1));
    assert_eq!(usage.count_of("User", "posts"), Some(0));
}

#[test]
fn typename_is_never_counted() {
    let mut usage = schema_types(blog_schema());
    let before = usage.clone();
    let r = get_tree_for_selection_set(
        &vec![leaf("__typename"), field("__typename", vec![leaf("nothing")])],
        "Query",
        &mut usage,
        &vec![],
    );
    assert_eq!(r, Ok(()));
    assert_eq!(usage, before);
}

#[test]
fn typename_on_an_unknown_type_is_passed_over() {
    let mut usage = schema_types(viewer_schema());
    let r = get_tree_for_selection_set(&vec![leaf("__typename")], "Nowhere", &mut usage, &vec![]);
    assert_eq!(r, Ok(()));
}

#[test]
fn unknown_root_type_is_an_error() {
    let mut usage = schema_types(viewer_schema());
    let r = update_usages_for_operation(
        &operation(OperationKind::Mutation, vec![leaf("createPost")]),
        &mut usage,
        &vec![],
    );
    assert_eq!(r, Err(UsageError::TypeNotFound { on_type: "Mutation".to_string() }));
    assert_eq!(r.unwrap_err().message(), "type not found: Mutation");
}

#[test]
fn unknown_field_is_an_error_and_keeps_what_was_counted() {
    let mut usage = schema_types(viewer_schema());
    let r = get_tree_for_selection_set(
        &vec![field("viewer", vec![leaf("id"), leaf("email"), leaf("name")])],
        "Query",
        &mut usage,
        &vec![],
    );
    assert_eq!(
        r,
        Err(UsageError::FieldNotFound {
            field_name: "email".to_string(),
            on_type: "Viewer".to_string()
        })
    );
    assert_eq!(r.unwrap_err().message(), "field not found: email in Viewer");
    assert_eq!(usage.count_of("Query", "viewer"), Some(1));
    assert_eq!(usage.count_of("Viewer", "id"), Some(1));
    assert_eq!(usage.count_of("Viewer", "name"), Some(0));
}

#[test]
fn selection_on_a_scalar_is_a_type_error() {
    let mut usage = schema_types(viewer_schema());
    let r = get_tree_for_selection_set(
        &vec![field("viewer", vec![field("id", vec![leaf("x")])])],
        "Query",
        &mut usage,
        &vec![],
    );
    assert_eq!(r, Err(UsageError::TypeNotFound { on_type: "ID".to_string() }));
    assert_eq!(usage.count_of("Viewer", "id"), Some(1));
}

#[test]
fn operation_kinds_start_from_their_root_types() {
    let mut usage = schema_types(blog_schema());
    let fragments = vec![];
    assert_eq!(
        update_usages_for_operation(
            &operation(OperationKind::Query, vec![field("viewer", vec![leaf("id")])]),
            &mut usage,
            &fragments,
        ),
        Ok(())
    );
    assert_eq!(
        update_usages_for_operation(
            &operation(OperationKind::Mutation, vec![field("createPost", vec![leaf("id")])]),
            &mut usage,
            &fragments,
        ),
        Ok(())
    );
    assert_eq!(
        update_usages_for_operation(
            &operation(OperationKind::Subscription, vec![field("postAdded", vec![leaf("title")])]),
            &mut usage,
            &fragments,
        ),
        Ok(())
    );
    assert_eq!(
        update_usages_for_operation(
            &operation(OperationKind::SelectionSet, vec![field("viewer", vec![leaf("name")])]),
            &mut usage,
            &fragments,
        ),
        Ok(())
    );
    assert_eq!(usage.count_of("Query", "viewer"), Some(2));
    assert_eq!(usage.count_of("Mutation", "createPost"), Some(1));
    assert_eq!(usage.count_of("Subscription", "postAdded"), Some(1));
    assert_eq!(usage.count_of("User", "id"), Some(1));
    assert_eq!(usage.count_of("User", "name"), Some(1));
    assert_eq!(usage.count_of("Post", "id"), Some(1));
    assert_eq!(usage.count_of("Post", "title"), Some(1));
}

#[test]
fn inline_fragment_counts_on_its_type_condition() {
    let mut usage = schema_types(blog_schema());
    let r = get_tree_for_selection_set(
        &vec![field("node", vec![leaf("id"), inline("User", vec![leaf("name")])])],
        "Query",
        &mut usage,
        &vec![],
    );
    assert_eq!(r, Ok(()));
    assert_eq!(usage.count_of("Node", "id"), Some(1));
    assert_eq!(usage.count_of("User", "name"), Some(1));
    assert_eq!(usage.count_of("User", "id"), Some(0));
}

#[test]
fn fragment_spread_counts_on_the_fragments_type_condition() {
    let mut usage = schema_types(blog_schema());
    let fragments = vec![fragment("UserParts", "User", vec![leaf("id"), leaf("name")])];
    let r = get_tree_for_selection_set(
        &vec![field("viewer", vec![spread("UserParts"), spread("UserParts")])],
        "Query",
        &mut usage,
        &fragments,
    );
    assert_eq!(r, Ok(()));
    assert_eq!(usage.count_of("User", "id"), Some(2));
    assert_eq!(usage.count_of("User", "name"), Some(2));
}

#[test]
fn missing_fragment_is_passed_over() {
    let document = Document {
        definitions: vec![Definition::Operation(operation(
            OperationKind::Query,
            vec![field("viewer", vec![spread("Missing"), leaf("id")])],
        ))],
    };
    let stats = analyze_document(viewer_schema(), document, false);
    assert!(stats.operation_errors.is_empty());
    assert_eq!(stats.usage.count_of("Query", "viewer"), Some(1));
    assert_eq!(stats.usage.count_of("Viewer", "id"), Some(1));
    assert_eq!(stats.usage.count_of("Viewer", "name"), Some(0));
}

#[test]
fn unspread_fragment_counts_only_when_fragments_are_included() {
    let definitions = || {
        vec![
            Definition::Operation(operation(
                OperationKind::Query,
                vec![field("viewer", vec![leaf("id")])],
            )),
            Definition::Fragment(fragment("Names", "Viewer", vec![leaf("name")])),
        ]
    };
    let without = analyze_document(viewer_schema(), Document { definitions: definitions() }, false);
    assert_eq!(without.usage.count_of("Viewer", "name"), Some(0));
    assert_eq!(without.usage.count_of("Viewer", "id"), Some(1));
    let with = analyze_document(viewer_schema(), Document { definitions: definitions() }, true);
    assert_eq!(with.usage.count_of("Viewer", "name"), Some(1));
    assert_eq!(with.usage.count_of("Viewer", "id"), Some(1));
    assert_eq!(with.usage.count_of("Query", "viewer"), Some(1));
    assert!(with.fragment_errors.is_empty());
}

#[test]
fn spread_fragment_counts_twice_when_fragments_are_included() {
    let document = Document {
        definitions: vec![
            Definition::Fragment(fragment("Names", "Viewer", vec![leaf("name")])),
            Definition::Operation(operation(
                OperationKind::Query,
                vec![field("viewer", vec![spread("Names")])],
            )),
        ],
    };
    let stats = analyze_document(viewer_schema(), document, true);
    assert_eq!(stats.usage.count_of("Viewer", "name"), Some(2));
}

#[test]
fn later_fragment_definition_replaces_the_earlier() {
    let document = Document {
        definitions: vec![
            Definition::Fragment(fragment("Parts", "Viewer", vec![leaf("id")])),
            Definition::Fragment(fragment("Parts", "Viewer", vec![leaf("name")])),
            Definition::Operation(operation(
                OperationKind::Query,
                vec![field("viewer", vec![spread("Parts")])],
            )),
        ],
    };
    let stats = analyze_document(viewer_schema(), document, true);
    assert_eq!(stats.usage.count_of("Viewer", "id"), Some(0));
    assert_eq!(stats.usage.count_of("Viewer", "name"), Some(2));
}

#[test]
fn failing_operation_is_reported_and_the_next_is_counted() {
    let document = Document {
        definitions: vec![
            Definition::Operation(operation(OperationKind::Query, vec![leaf("nothing")])),
            Definition::Operation(operation(
                OperationKind::Query,
                vec![field("viewer", vec![leaf("name")])],
            )),
            Definition::Operation(operation(OperationKind::Mutation, vec![leaf("x")])),
        ],
    };
    let stats = analyze_document(viewer_schema(), document, false);
    assert_eq!(
        stats.operation_errors,
        vec![
            UsageError::FieldNotFound {
                field_name: "nothing".to_string(),
                on_type: "Query".to_string()
            },
            UsageError::TypeNotFound { on_type: "Mutation".to_string() },
        ]
    );
    assert_eq!(stats.usage.count_of("Viewer", "name"), Some(1));
}

#[test]
fn failing_fragment_is_reported_among_the_fragment_errors() {
    let document = Document {
        definitions: vec![
            Definition::Fragment(fragment("Bad", "Viewer", vec![leaf("email")])),
            Definition::Fragment(fragment("Good", "Viewer", vec![leaf("id")])),
        ],
    };
    let stats = analyze_document(viewer_schema(), document, true);
    assert!(stats.operation_errors.is_empty());
    assert_eq!(
        stats.fragment_errors,
        vec![UsageError::FieldNotFound {
            field_name: "email".to_string(),
            on_type: "Viewer".to_string()
        }]
    );
    assert_eq!(stats.usage.count_of("Viewer", "id"), Some(1));
}

#[test]
fn fragment_that_spreads_itself_is_an_error() {
    let mut usage = schema_types(blog_schema());
    let fragments = vec![fragment("Loop", "User", vec![leaf("id"), spread("Loop")])];
    let r = get_tree_for_selection_set(
        &vec![field("viewer", vec![spread("Loop")])],
        "Query",
        &mut usage,
        &fragments,
    );
    assert_eq!(r, Err(UsageError::FragmentCycle { fragment_name: "Loop".to_string() }));
    assert_eq!(r.unwrap_err().message(), "fragment spread inside itself: Loop");
    assert_eq!(usage.count_of("User", "id"), Some(1));
}

#[test]
fn fragments_that_spread_each_other_are_an_error() {
    let mut usage = schema_types(blog_schema());
    let fragments = vec![
        fragment("A", "User", vec![leaf("id"), spread("B")]),
        fragment("B", "User", vec![leaf("name"), spread("A")]),
    ];
    let r = update_usages_for_fragment(&fragments[0], &mut usage, &fragments);
    assert_eq!(r, Err(UsageError::FragmentCycle { fragment_name: "A".to_string() }));
    assert_eq!(usage.count_of("User", "id"), Some(1));
    assert_eq!(usage.count_of("User", "name"), Some(1));
}

#[test]
fn count_at_its_limit_is_an_error() {
    let mut usage = schema_types(viewer_schema());
    usage.types[1].fields[0].count = i32::MAX;
    let r = get_tree_for_selection_set(
        &vec![field("viewer", vec![leaf("id")])],
        "Query",
        &mut usage,
        &vec![],
    );
    assert_eq!(
        r,
        Err(UsageError::CountOverflow { field_name: "id".to_string(), on_type: "Viewer".to_string() })
    );
    assert_eq!(r.unwrap_err().message(), "count at its limit: id in Viewer");
    assert_eq!(usage.count_of("Viewer", "id"), Some(i32::MAX));
    assert_eq!(usage.count_of("Query", "viewer"), Some(1));
}

#[test]
fn unreferenced_types_keep_a_count_of_zero() {
    let document = Document {
        definitions: vec![
            Definition::Operation(operation(
                OperationKind::Query,
                vec![field("posts", vec![leaf("title"), field("author", vec![leaf("id")])])],
            )),
            Definition::Fragment(fragment("N", "Node", vec![leaf("id")])),
        ],
    };
    let stats = analyze_document(blog_schema(), document, true);
    for name in ["Mutation", "Subscription", "Unused"] {
        for stats in &stats.usage.get(name).unwrap().fields {
            assert_eq!(stats.count, 0);
        }
    }
    assert_eq!(stats.usage.count_of("Node", "id"), Some(1));
    assert_eq!(stats.usage.count_of("Post", "title"), Some(1));
    assert_eq!(stats.usage.count_of("User", "id"), Some(1));
}

#[test]
fn analysis_keeps_the_types_and_fields_of_the_schema() {
    let schema_only = schema_types(blog_schema());
    let document = Document {
        definitions: vec![Definition::Operation(operation(
            OperationKind::Query,
            vec![field("viewer", vec![leaf("id"), leaf("id")]), leaf("missing")],
        ))],
    };
    let stats = analyze_document(blog_schema(), document, false);
    assert_eq!(stats.usage.types.len(), schema_only.types.len());
    for (after, before) in stats.usage.types.iter().zip(schema_only.types.iter()) {
        assert_eq!(after.name, before.name);
        assert_eq!(after.fields.len(), before.fields.len());
        for (counted, declared) in after.fields.iter().zip(before.fields.iter()) {
            assert_eq!(counted.name, declared.name);
            assert_eq!(counted.type_signature, declared.type_signature);
            assert!(counted.count >= declared.count);
        }
    }
    assert_eq!(stats.usage.count_of("User", "id"), Some(2));
}

#[test]
fn inline_fragment_without_a_type_is_an_error_where_it_is_met() {
    let mut usage = schema_types(blog_schema());
    let untyped = Selection::InlineFragment { type_condition: None, selection_set: vec![leaf("id")] };
    let r = get_tree_for_selection_set(
        &vec![field("viewer", vec![leaf("id"), untyped, leaf("name")])],
        "Query",
        &mut usage,
        &vec![],
    );
    assert_eq!(r, Err(UsageError::MissingTypeCondition));
    assert_eq!(r.unwrap_err().message(), "inline fragment without a type condition");
    assert_eq!(usage.count_of("Query", "viewer"), Some(1));
    assert_eq!(usage.count_of("User", "id"), Some(1));
    assert_eq!(usage.count_of("User", "name"), Some(0));
}

#[test]
fn inline_fragment_without_a_type_behind_a_failure_is_not_met() {
    let mut usage = schema_types(viewer_schema());
    let untyped = Selection::InlineFragment { type_condition: None, selection_set: vec![] };
    let r = get_tree_for_selection_set(
        &vec![leaf("missing"), untyped],
        "Query",
        &mut usage,
        &vec![],
    );
    assert_eq!(
        r,
        Err(UsageError::FieldNotFound {
            field_name: "missing".to_string(),
            on_type: "Query".to_string()
        })
    );
}

#[test]
fn selections_behind_a_failure_count_nothing() {
    let document = Document {
        definitions: vec![Definition::Operation(operation(
            OperationKind::Query,
            vec![leaf("missing"), field("posts", vec![leaf("title")])],
        ))],
    };
    let stats = analyze_document(blog_schema(), document, false);
    assert_eq!(stats.operation_errors.len(), 1);
    assert_eq!(stats.usage.count_of("Query", "posts"), Some(0));
    assert_eq!(stats.usage.count_of("Post", "title"), Some(0));
}
