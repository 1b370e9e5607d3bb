use graphql_pal::query_extractor::ExtractionResult;
use graphql_pal::query_extractor::Loaded;
use graphql_pal::query_extractor::QueryExtractor;
use graphql_pal::document::Definition;
use graphql_pal::document::Document;
use graphql_pal::document::FieldDefinition;
use graphql_pal::document::FragmentDefinition;
use graphql_pal::document::InterfaceType;
use graphql_pal::document::ObjectType;
use graphql_pal::document::OperationDefinition;
use graphql_pal::document::OperationKind;
use graphql_pal::document::SchemaDefinition;
use graphql_pal::document::Selection;
use graphql_pal::parse::read_document;
use graphql_pal::parse::read_schema;
use graphql_pal::schema_stats::extract_queries_and_fragments;
use graphql_pal::schema_stats::generate_schema_stats;
use graphql_pal::schema_stats::get_schema_types;
use graphql_pal::schema_stats::AnalysisError;
use graphql_pal::schema_stats::SchemaStats;
use graphql_pal::schema_stats::UsageError;
use graphql_pal::source_module::Dialect;
use graphql_pal::source_module::ExportedDeclaration;
use graphql_pal::source_module::ExportedVariable;
use graphql_pal::source_module::Expression;
use graphql_pal::source_module::ImportDeclaration;
use graphql_pal::source_module::ImportSpecifier;
use graphql_pal::source_module::MemberExpression;
use graphql_pal::source_module::SourceModule;
use graphql_pal::source_module::TaggedTemplate;
use graphql_pal::validation::checked_result;
use graphql_parser::query;
use swc_common::sync::Lrc;
use swc_common::FileName;
use swc_common::SourceMap;
use swc_ecma_ast::Decl;
use swc_ecma_ast::EsVersion;
use swc_ecma_ast::Expr;
use swc_ecma_ast::MemberProp;
use swc_ecma_ast::Module;
use swc_ecma_ast::ModuleDecl;
use swc_ecma_ast::ModuleItem;
use swc_ecma_ast::Pat;
use swc_ecma_ast::TaggedTpl;
use swc_ecma_parser::lexer::Lexer;
use swc_ecma_parser::EsSyntax;
use swc_ecma_parser::Parser;
use swc_ecma_parser::StringInput;
use swc_ecma_parser::Syntax;
use swc_ecma_parser::TsSyntax;
use swc_ecma_visit::Visit;
use swc_ecma_visit::VisitWith;

fn analyze(schema: &str, documents: &str, include_fragments: bool) -> SchemaStats {
    generate_schema_stats(schema, documents, include_fragments).unwrap()
}

fn parse_module(name: &str, source: &str) -> Module {
    let cm: Lrc<SourceMap> = Default::default();
    let fm = cm.new_source_file(FileName::Custom(name.to_string()).into(), source.to_string());
    let syntax = if name.ends_with(".js") {
        Syntax::Es(EsSyntax { jsx: true, decorators: true, ..Default::default() })
    } else {
        Syntax::Typescript(TsSyntax { tsx: true, decorators: true, ..Default::default() })
    };
    let lexer = Lexer::new(syntax, EsVersion::Es2020, StringInput::from(&*fm), None);
    let mut parser = Parser::new_from(lexer);
    parser.parse_module().unwrap()
}

fn expression(expr: &Expr) -> Expression {
    match expr {
        Expr::Ident(i) => Expression::Identifier(i.sym.to_string()),
        Expr::Member(m) => Expression::Member(MemberExpression {
            object: Box::new(expression(&m.obj)),
            property: Box::new(match &m.prop {
                MemberProp::Ident(i) => Expression::Identifier(i.sym.to_string()),
                MemberProp::Computed(c) => expression(&c.expr),
                MemberProp::PrivateName(p) => Expression::Other(format!("{:?}", p)),
            }),
        }),
        other => Expression::Other(format!("{:?}", other)),
    }
}

struct TemplateCollector {
    templates: Vec<TaggedTemplate>,
}

impl Visit for TemplateCollector {
    fn visit_tagged_tpl(&mut self, n: &TaggedTpl) {
        self.templates.push(TaggedTemplate {
            tag: expression(&n.tag),
            quasis: n.tpl.quasis.iter().map(|q| q.raw.to_string()).collect(),
            expressions: n.tpl.exprs.iter().map(|e| expression(e)).collect(),
        });
        n.visit_children_with(self);
    }
}

fn source_module(module: &Module, dialect: Dialect) -> SourceModule {
    let mut imports = Vec::new();
    let mut exports = Vec::new();
    for item in module.body.iter() {
        match item {
            ModuleItem::ModuleDecl(ModuleDecl::Import(i)) => imports.push(ImportDeclaration {
                source: i.src.value.to_string_lossy().into_owned(),
                specifiers: i
                    .specifiers
                    .iter()
                    .map(|s| match s {
                        swc_ecma_ast::ImportSpecifier::Named(n) => {
                            ImportSpecifier::Named(n.local.sym.to_string())
                        }
                        swc_ecma_ast::ImportSpecifier::Default(d) => {
                            ImportSpecifier::Default(d.local.sym.to_string())
                        }
                        swc_ecma_ast::ImportSpecifier::Namespace(n) => {
                            ImportSpecifier::Namespace(n.local.sym.to_string())
                        }
                    })
                    .collect(),
            }),
            ModuleItem::ModuleDecl(ModuleDecl::ExportDecl(e)) => {
                if let Decl::Var(v) = &e.decl {
                    exports.push(ExportedDeclaration {
                        variables: v
                            .decls
                            .iter()
                            .map(|decl| ExportedVariable {
                                name: match &decl.name {
                                    Pat::Ident(i) => Some(i.id.sym.to_string()),
                                    _ => None,
                                },
                                template_head: match decl.init.as_deref() {
                                    Some(Expr::TaggedTpl(tpl)) => {
                                        Some(tpl.tpl.quasis[0].raw.to_string())
                                    }
                                    _ => None,
                                },
                            })
                            .collect(),
                    });
                }
            }
            _ => {}
        }
    }
    let mut collector = TemplateCollector { templates: Vec::new() };
    module.visit_with(&mut collector);
    SourceModule { dialect, imports, exports, templates: collector.templates }
}

fn read(name: &str, source: &str) -> SourceModule {
    let dialect = if name.ends_with(".js") { Dialect::JavaScript } else { Dialect::TypeScript };
    source_module(&parse_module(name, source), dialect)
}

/// Extracts from the first of `files`; the others are what can be imported,
/// each under the path that an import of it asks for.
fn extract(files: &[(&str, &str)]) -> ExtractionResult {
    let (name, source) = files[0];
    let mut extractor = QueryExtractor::new(read(name, source), name.to_string());
    let mut asked = 0;
    loop {
        let request = match extractor.next_request() {
            Some(request) => request,
            None => break,
        };
        asked += 1;
        assert!(asked < 100);
        let loaded = match files[1..].iter().find(|(path, _)| *path == request.path) {
            Some((path, text)) => Loaded::Module(read(path, text)),
            None => Loaded::Unreachable("No such file or directory (os error 2)".to_string()),
        };
        extractor.supply(&loaded);
    }
    extractor.into_result()
}

#[test]
fn scenario_usage_of_a_bare_selection_set() {
    let stats = analyze(
        "type Query { viewer: Viewer } type Viewer { id: ID name: String }",
        "{ viewer { id } }",
        false,
    );
    assert_eq!(stats.usage.count_of("Query", "viewer"), Some(1));
    assert_eq!(stats.usage.count_of("Viewer", "id"), Some(1));
    assert_eq!(stats.usage.count_of("Viewer", "name"), Some(0));
    assert!(stats.operation_errors.is_empty());
    assert_eq!(stats.usage.types.len(), 2);
}

#[test]
fn scenario_template_without_expressions() {
    let result = extract(&[("a.js", "const Q = gql`{ viewer { id } }`;")]);
    assert_eq!(result.queries, vec!["{ viewer { id } }".to_string()]);
    assert!(result.skipped_files.is_empty());
}

#[test]
fn scenario_identifier_that_is_not_imported() {
    let result = extract(&[("src/a.js", "const Q = gql`${Frag} { id }`;")]);
    assert!(result.queries.is_empty());
    assert_eq!(result.skipped_files.len(), 1);
    assert_eq!(result.skipped_files[0].path, "src/a.js");
    assert!(result.skipped_files[0].reason.contains("no import found"));
    assert!(result.skipped_files[0].reason.contains("Frag"));
}

#[test]
fn scenario_anonymous_fragment() {
    let result = extract(&[("a.js", "export const F = gql`fragment on User { id }`;")]);
    assert_eq!(
        result.queries,
        vec!["fragment F_c7592d58deb67c1412e3012c843057c3 on User { id }".to_string()]
    );
    let checked = checked_result(&"a.js".to_string(), result);
    assert_eq!(checked.queries.len(), 1);
    assert!(checked.skipped_files.is_empty());
}

#[test]
fn scenario_spread_of_an_undeclared_fragment() {
    let stats = analyze(
        "type Query { viewer: Viewer } type Viewer { id: ID name: String }",
        "query { viewer { id ...Missing } }",
        false,
    );
    assert!(stats.operation_errors.is_empty());
    assert_eq!(stats.usage.count_of("Query", "viewer"), Some(1));
    assert_eq!(stats.usage.count_of("Viewer", "id"), Some(1));
    assert_eq!(stats.usage.count_of("Viewer", "name"), Some(0));
}

#[test]
fn scenario_fragment_that_no_operation_spreads() {
    let schema = "type Query { viewer: Viewer } type Viewer { id: ID name: String }";
    let documents = "query { viewer { id } } fragment Names on Viewer { name }";
    let without = analyze(schema, documents, false);
    assert_eq!(without.usage.count_of("Viewer", "name"), Some(0));
    let with = analyze(schema, documents, true);
    assert_eq!(with.usage.count_of("Viewer", "name"), Some(1));
    assert_eq!(with.usage.count_of("Viewer", "id"), Some(1));
    assert!(with.fragment_errors.is_empty());
}

#[test]
fn usage_follows_lists_interfaces_and_fragments() {
    let schema = "
        schema { query: Query mutation: Mutation }
        scalar Date
        enum Role { ADMIN USER }
        interface Node { id: ID! }
        type User implements Node { id: ID! name: String role: Role posts: [Post!]! }
        type Post implements Node { id: ID! title: String! author: User! published: Date }
        union Item = User | Post
        input NewPost { title: String! }
        type Query { node(id: ID!): Node posts: [Post!]! me: User }
        type Mutation { createPost(post: NewPost!): Post! }
    ";
    let documents = "
        query Feed { posts { ...PostParts author { ...UserParts } } __typename }
        query One($id: ID!) { node(id: $id) { id ... on Post { title } ... on User { name } } }
        mutation New($post: NewPost!) { createPost(post: $post) { id } }
        fragment PostParts on Post { id title }
        fragment UserParts on User { id name __typename }
    ";
    let stats = analyze(schema, documents, false);
    assert!(stats.operation_errors.is_empty());
    assert_eq!(stats.usage.types.len(), 5);
    assert_eq!(stats.usage.get("Query").unwrap().get("posts").unwrap().type_signature, "[Post!]!");
    assert_eq!(stats.usage.count_of("Query", "posts"), Some(1));
    assert_eq!(stats.usage.count_of("Query", "node"), Some(1));
    assert_eq!(stats.usage.count_of("Query", "me"), Some(0));
    assert_eq!(stats.usage.count_of("Node", "id"), Some(1));
    assert_eq!(stats.usage.count_of("Post", "id"), Some(2));
    assert_eq!(stats.usage.count_of("Post", "title"), Some(2));
    assert_eq!(stats.usage.count_of("Post", "author"), Some(1));
    assert_eq!(stats.usage.count_of("Post", "published"), Some(0));
    assert_eq!(stats.usage.count_of("User", "id"), Some(1));
    assert_eq!(stats.usage.count_of("User", "name"), Some(2));
    assert_eq!(stats.usage.count_of("User", "role"), Some(0));
    assert_eq!(stats.usage.count_of("User", "posts"), Some(0));
    assert_eq!(stats.usage.count_of("Mutation", "createPost"), Some(1));
    assert_eq!(stats.usage.count_of("Date", "x"), None);
    let with = analyze(schema, documents, true);
    assert!(with.fragment_errors.is_empty());
    assert_eq!(with.usage.count_of("Post", "id"), Some(3));
    assert_eq!(with.usage.count_of("User", "name"), Some(3));
}

#[test]
fn subscription_without_its_root_type_is_reported() {
    let stats = analyze(
        "type Query { viewer: Viewer } type Viewer { id: ID name: String }",
        "subscription { viewer { id } } { viewer { name } }",
        false,
    );
    assert_eq!(
        stats.operation_errors,
        vec![UsageError::TypeNotFound { on_type: "Subscription".to_string() }]
    );
    assert!(stats.operation_errors[0].message().contains("type not found"));
    assert_eq!(stats.usage.count_of("Viewer", "name"), Some(1));
    assert_eq!(stats.usage.count_of("Viewer", "id"), Some(0));
}

#[test]
fn unknown_field_is_reported_as_not_found() {
    let stats = analyze(
        "type Query { viewer: Viewer } type Viewer { id: ID name: String }",
        "{ viewer { id email name } }",
        false,
    );
    assert_eq!(stats.operation_errors.len(), 1);
    assert!(stats.operation_errors[0].message().contains("field not found"));
    assert_eq!(stats.usage.count_of("Viewer", "id"), Some(1));
    assert_eq!(stats.usage.count_of("Viewer", "name"), Some(0));
}

#[test]
fn fragments_in_a_circle_are_reported() {
    let stats = analyze(
        "type Query { viewer: Viewer } type Viewer { id: ID friend: Viewer }",
        "{ viewer { ...A } } fragment A on Viewer { id friend { ...B } } fragment B on Viewer { id ...A }",
        false,
    );
    assert_eq!(
        stats.operation_errors,
        vec![UsageError::FragmentCycle { fragment_name: "A".to_string() }]
    );
    assert_eq!(stats.usage.count_of("Viewer", "id"), Some(2));
    assert_eq!(stats.usage.count_of("Viewer", "friend"), Some(1));
}

#[test]
fn imported_fragment_is_put_into_the_document() {
    let result = extract(&[
        (
            "src/a.js",
            "import React from 'react';
             import { UserParts, other } from './fragments';
             export const Q = gql`
               query Me { viewer { ...UserParts } }
               ${UserParts}
             `;",
        ),
        (
            "./fragments.js",
            "export const other = 1;
             export const UserParts = gql`fragment UserParts on Viewer { name }`;",
        ),
    ]);
    assert!(result.skipped_files.is_empty());
    assert_eq!(result.queries.len(), 1);
    assert!(result.queries[0].starts_with("query Me { viewer { ...UserParts } }"));
    assert!(result.queries[0].ends_with("fragment UserParts on Viewer { name }"));
    let checked = checked_result(&"src/a.js".to_string(), result);
    assert_eq!(checked.queries.len(), 1);
    let stats = analyze(
        "type Query { viewer: Viewer } type Viewer { id: ID name: String }",
        &checked.queries[0],
        false,
    );
    assert_eq!(stats.usage.count_of("Viewer", "name"), Some(1));
}

#[test]
fn import_of_a_missing_file_is_recorded() {
    let result = extract(&[(
        "src/a.js",
        "import { Gone } from './gone';
         const A = gql`{ a } ${Gone}`;
         const B = gql`{ b }`;",
    )]);
    assert_eq!(result.queries, vec!["{ b }".to_string()]);
    assert_eq!(result.skipped_files.len(), 1);
    assert_eq!(
        result.skipped_files[0].reason,
        "Got error when trying to find Gone: No such file or directory (os error 2)"
    );
}

#[test]
fn import_that_exports_no_template_is_recorded() {
    let result = extract(&[
        ("a.js", "import { X } from './x'; const A = gql`${X}`;"),
        ("./x.js", "export const X = 'text'; export function f() {}"),
    ]);
    assert!(result.queries.is_empty());
    assert_eq!(result.skipped_files[0].reason, "Unable to find value from import for X");
}

#[test]
fn member_expressions_and_calls_in_templates() {
    let result = extract(&[(
        "a.js",
        "const A = gql`{ a ${fragments.user} }`;
         const B = gql`{ b ${make()} }`;
         const C = Relay.QL`{ c }`;
         const D = css`color: red;`;",
    )]);
    assert_eq!(result.queries, vec!["{ a  }".to_string(), "{ c }".to_string()]);
    assert_eq!(result.skipped_files.len(), 1);
    assert!(result.skipped_files[0].reason.starts_with("unsupported expression "));
}

#[test]
fn templates_are_found_at_any_depth_in_the_order_of_the_text() {
    let result = extract(&[(
        "component.tsx",
        "const first: string = gql`{ one }`;
         class View { render() { return <Query query={gql`{ two }`} />; } }
         function f() { if (x) { return () => gql`{ three }`; } }
         export default gql`{ four }`;",
    )]);
    assert_eq!(
        result.queries,
        vec!["{ one }".to_string(), "{ two }".to_string(), "{ three }".to_string(), "{ four }".to_string()]
    );
}

#[test]
fn everything_that_is_kept_parses_as_graphql() {
    let result = extract(&[(
        "a.js",
        "const A = gql`{ a }`;
         const B = gql`{ broken`;
         const C = gql`fragment on T { x }`;
         const D = gql``;
         const E = gql`query Q { e }`;",
    )]);
    assert_eq!(result.queries.len(), 5);
    let checked = checked_result(&"a.js".to_string(), result);
    assert_eq!(checked.queries.len(), 3);
    assert_eq!(checked.skipped_files.len(), 2);
    for text in &checked.queries {
        assert!(query::parse_query::<&str>(text).is_ok());
    }
}

#[test]
fn text_that_is_no_schema_gives_no_analysis() {
    assert_eq!(generate_schema_stats("type Query {", "{ a }", false), Err(AnalysisError::Schema));
    assert_eq!(generate_schema_stats("", "{ a }", true), Err(AnalysisError::Schema));
    assert_eq!(get_schema_types("not a schema"), None);
}

#[test]
fn text_that_is_no_document_gives_no_analysis() {
    let schema = "type Query { a: Int }";
    assert_eq!(generate_schema_stats(schema, "{ a", false), Err(AnalysisError::Document));
    assert_eq!(generate_schema_stats(schema, "", false), Err(AnalysisError::Document));
    assert_eq!(generate_schema_stats("type Query {", "{ a", false), Err(AnalysisError::Schema));
}

#[test]
fn block_string_with_white_space_outside_ascii_is_read() {
    let query = "{ a(x: \"\"\"\n a\n\u{a0}b\n\"\"\") }";
    let read = read_document(query).unwrap();
    assert_eq!(
        read,
        Document {
            definitions: vec![Definition::Operation(OperationDefinition {
                kind: OperationKind::SelectionSet,
                selection_set: vec![Selection::Field { name: "a".to_string(), selection_set: vec![] }],
            })],
        }
    );
    assert!(extract_queries_and_fragments(query).is_some());
    let schema = "\"\"\"\n a\n\u{a0}b\n\"\"\"\ntype Query { a: Int }";
    assert_eq!(read_schema(schema).unwrap().len(), 1);
    assert_eq!(get_schema_types(schema).unwrap().count_of("Query", "a"), Some(0));
    let stats = generate_schema_stats(schema, query, false).unwrap();
    assert_eq!(stats.usage.count_of("Query", "a"), Some(1));
}

#[test]
fn comment_with_block_quote_and_white_space_outside_ascii_is_read() {
    let query = "{ a } # \u{a0} \"\"\" \u{3000}";
    assert!(read_document(query).is_some());
    assert!(read_document("{ a(x: \"\"\"b\"\"\") } # \u{3000}").is_some());
    assert!(read_document("{ a(x: \"\u{a0}\") } # \u{3000}").is_some());
}

#[test]
fn schema_with_descriptions_in_other_scripts_is_read() {
    let schema = "\"\"\"\n\u{3000}\u{30eb}\u{30fc}\u{30c8}\n\u{3000}\u{3000}\u{578b}\n\"\"\"\ntype Query {\n  \"\"\"\n\u{a0}\u{a0}Le nom\u{a0}: texte\n  \"\"\"\n  nom: [String!]!\n}";
    let stats = generate_schema_stats(schema, "{ nom }", false).unwrap();
    assert_eq!(stats.usage.count_of("Query", "nom"), Some(1));
    assert_eq!(stats.usage.get("Query").unwrap().get("nom").unwrap().type_signature, "[String!]!");
}

#[test]
fn white_space_outside_ascii_between_tokens_is_no_graphql() {
    assert!(read_document("{ a\u{a0}}").is_none());
    assert!(read_document("{ a(x: \"\"\"b\"\"\")\u{a0}}").is_none());
    assert!(read_document("{ a(x: \"\"\"b\"\"\") b\u{3000}c }").is_none());
    assert!(read_document("{ a(x: \"\"\"b\"\"\", y: 1\u{a0}) }").is_none());
    assert!(read_schema("\"\"\"d\"\"\" type\u{2003}A { b: Int }").is_none());
}

#[test]
fn block_strings_with_ascii_white_space_are_read() {
    let stats = analyze(
        "\"\"\"\n  The root.\n\t\u{e9}t\u{e9}\n\"\"\"\ntype Query {\n  \"\"\" field \"\"\"\n  a(x: String = \"\"\"\n d\n\"\"\"): Int\n}",
        "{ a(x: \"\"\"\n one\n   two\n\n \"\"\") }",
        false,
    );
    assert_eq!(stats.usage.count_of("Query", "a"), Some(1));
}

#[test]
fn inline_fragment_without_a_type_fails_where_the_walk_meets_it() {
    let read = read_document("{ a { ... @include(if: true) { b } } }").unwrap();
    assert_eq!(
        read,
        Document {
            definitions: vec![Definition::Operation(OperationDefinition {
                kind: OperationKind::SelectionSet,
                selection_set: vec![Selection::Field {
                    name: "a".to_string(),
                    selection_set: vec![Selection::InlineFragment {
                        type_condition: None,
                        selection_set: vec![Selection::Field {
                            name: "b".to_string(),
                            selection_set: vec![],
                        }],
                    }],
                }],
            })],
        }
    );
    let stats = analyze("type Query { a: Int }", "{ a } { ... { a } } { a }", false);
    assert_eq!(stats.operation_errors, vec![UsageError::MissingTypeCondition]);
    assert_eq!(stats.usage.count_of("Query", "a"), Some(2));
    let unmet = analyze("type Query { a: Int }", "fragment F on Query { ... { a } } { a }", false);
    assert!(unmet.operation_errors.is_empty());
    assert_eq!(unmet.usage.count_of("Query", "a"), Some(1));
}

#[test]
fn document_is_read_definition_by_definition() {
    let read = read_document(
        "query Q($x: Int) @live { a(x: $x) { b ...F ... on T { c } } }
         mutation { m }
         subscription S { s }
         fragment F on U { d }
         { e }",
    )
    .unwrap();
    let leaf = |name: &str| Selection::Field { name: name.to_string(), selection_set: vec![] };
    let operation = |kind, selection_set| {
        Definition::Operation(OperationDefinition { kind, selection_set })
    };
    assert_eq!(
        read,
        Document {
            definitions: vec![
                operation(
                    OperationKind::Query,
                    vec![Selection::Field {
                        name: "a".to_string(),
                        selection_set: vec![
                            leaf("b"),
                            Selection::FragmentSpread { fragment_name: "F".to_string() },
                            Selection::InlineFragment {
                                type_condition: Some("T".to_string()),
                                selection_set: vec![leaf("c")],
                            },
                        ],
                    }],
                ),
                operation(OperationKind::Mutation, vec![leaf("m")]),
                operation(OperationKind::Subscription, vec![leaf("s")]),
                Definition::Fragment(FragmentDefinition {
                    name: "F".to_string(),
                    type_condition: "U".to_string(),
                    selection_set: vec![leaf("d")],
                }),
                operation(OperationKind::SelectionSet, vec![leaf("e")]),
            ],
        }
    );
}

#[test]
fn schema_is_read_with_the_types_of_its_fields() {
    let read = read_schema(
        "scalar Date
         type A implements N { id: ID! list(first: Int = 1): [[B!]]! when: Date }
         interface N { id: ID! }
         enum E { X }
         extend type A { more: Int }",
    )
    .unwrap();
    let declared = |name: &str, field_type: &str| FieldDefinition {
        name: name.to_string(),
        field_type: field_type.to_string(),
    };
    assert_eq!(
        read,
        vec![
            SchemaDefinition::Other,
            SchemaDefinition::Object(ObjectType {
                name: "A".to_string(),
                fields: vec![declared("id", "ID!"), declared("list", "[[B!]]!"), declared("when", "Date")],
            }),
            SchemaDefinition::Interface(InterfaceType {
                name: "N".to_string(),
                fields: vec![declared("id", "ID!")],
            }),
            SchemaDefinition::Other,
            SchemaDefinition::Other,
        ]
    );
    assert_eq!(read_schema("type A {"), None);
}

#[test]
fn operations_and_fragments_of_a_text() {
    let (operations, fragments) =
        extract_queries_and_fragments("{ a } fragment F on A { b } query { c } fragment F on A { d }")
            .unwrap();
    assert_eq!(operations.len(), 2);
    assert_eq!(operations[0].kind, OperationKind::SelectionSet);
    assert_eq!(operations[1].kind, OperationKind::Query);
    assert_eq!(fragments.len(), 1);
    assert_eq!(fragments[0].name, "F");
    assert_eq!(
        fragments[0].selection_set,
        vec![Selection::Field { name: "d".to_string(), selection_set: vec![] }]
    );
}

#[test]
fn usage_map_of_a_schema_text() {
    let usage = get_schema_types("type B { y: Int } type A { x: [B] } union U = A | B").unwrap();
    assert_eq!(usage.types.len(), 2);
    assert_eq!(usage.types[0].name, "B");
    assert_eq!(usage.types[1].name, "A");
    assert_eq!(usage.count_of("A", "x"), Some(0));
    assert_eq!(usage.get("A").unwrap().get("x").unwrap().type_signature, "[B]");
}

#[test]
fn typescript_module_imports_from_typescript_files() {
    let result = extract(&[
        ("src/a.ts", "import { F } from './f'; const Q = gql`{ a } ${F}`;"),
        ("./f.ts", "export const F = gql`fragment F on A { b }`, G = gql`{ g }`;"),
    ]);
    assert_eq!(result.queries, vec!["{ a } fragment F on A { b }".to_string()]);
    let missing = extract(&[
        ("src/a.ts", "import { F } from './f'; const Q = gql`{ a } ${F}`;"),
        ("./f.js", "export const F = gql`fragment F on A { b }`;"),
    ]);
    assert!(missing.queries.is_empty());
}

#[test]
fn default_and_namespace_imports_are_no_imports_by_name() {
    let result = extract(&[
        ("a.js", "import F from './f'; import * as G from './g'; const Q = gql`${F}`; const R = gql`${G}`;"),
        ("./f.js", "export const F = gql`{ f }`;"),
    ]);
    assert!(result.queries.is_empty());
    assert_eq!(result.skipped_files.len(), 2);
    assert_eq!(result.skipped_files[0].reason, "no import found for F");
    assert_eq!(result.skipped_files[1].reason, "no import found for G");
}

#[test]
fn second_variable_of_an_exported_declaration_is_not_read() {
    let result = extract(&[
        ("a.js", "import { G } from './f'; const Q = gql`${G}`;"),
        ("./f.js", "export const F = gql`{ f }`, G = gql`{ g }`;"),
    ]);
    assert!(result.queries.is_empty());
    assert_eq!(result.skipped_files[0].reason, "Unable to find value from import for G");
}
