//! End-to-end tests: documents are parsed from text, brought into the
//! library's syntax trees, and validated.
use graphql_tools::static_graphql::query as q;
use graphql_tools::static_graphql::schema as s;
use graphql_tools::validation::rules::defaults::{default_rules_validation_plan, Rule};
use graphql_tools::validation::rules::fields_on_correct_type::FieldsOnCorrectType;
use graphql_tools::validation::rules::fragment_cycles::detect_fragment_cycles;
use graphql_tools::validation::rules::fragments_on_composite_types::FragmentsOnCompositeTypes;
use graphql_tools::validation::rules::known_fragment_names::KnownFragmentNamesRule;
use graphql_tools::validation::rules::known_type_names::KnownTypeNames;
use graphql_tools::validation::rules::leaf_field_selections::LeafFieldSelections;
use graphql_tools::validation::rules::lone_anonymous_operation::LoneAnonymousOperation;
use graphql_tools::validation::rules::no_unused_fragments::NoUnusedFragments;
use graphql_tools::validation::rules::overlapping_fields_can_be_merged::OverlappingFieldsCanBeMerged;
use graphql_tools::validation::rules::single_field_subscriptions::SingleFieldSubscriptions;
use graphql_tools::validation::rules::unique_operation_names::UniqueOperationNames;
use graphql_tools::validation::utils::ValidationError;
use graphql_tools::validation::validate::{validate, ValidationPlan};

use graphql_parser::query as pq;
use graphql_parser::schema as ps;

const TEST_SCHEMA: &str = "
interface Mammal {
  mother: Mammal
  father: Mammal
}

interface Pet {
  name(surname: Boolean): String
}

enum DogCommand {
  SIT
  HEEL
  DOWN
}

enum FurColor {
  BROWN
  BLACK
  TAN
  SPOTTED
}

type Dog implements Pet & Mammal {
  name(surname: Boolean): String
  nickname: String
  barkVolume: Int
  barks: Boolean
  doesKnowCommand(dogCommand: DogCommand): Boolean
  isHouseTrained(atOtherHomes: Boolean = true): Boolean
  isAtLocation(x: Int, y: Int): Boolean
  mother: Dog
  father: Dog
}

type Cat implements Pet {
  name(surname: Boolean): String
  nickname: String
  meows: Boolean
  meowsVolume: Int
  furColor: FurColor
}

union CatOrDog = Cat | Dog

type Human {
  name(surname: Boolean): String
  pets: [Pet]
  relatives: [Human]
}

input ComplexInput {
  requiredField: Boolean!
  intField: Int
  stringField: String
  stringListField: [String]
}

type Query {
  human(id: ID): Human
  dog: Dog
  cat: Cat
  pet: Pet
  catOrDog: CatOrDog
  complicatedArgs(complexArg: ComplexInput, intArg: Int, listArg: [Int]): String
}

type Mutation {
  addPet(name: String): Pet
}

type Subscription {
  newPet: Pet
  newDog: Dog
}

directive @onField on FIELD
";

fn pos(p: graphql_parser::Pos) -> q::Pos {
    q::Pos { line: p.line, column: p.column }
}

fn convert_type(t: &pq::Type<'static, String>) -> q::Type {
    match t {
        pq::Type::NamedType(name) => q::Type::NamedType(name.clone()),
        pq::Type::ListType(inner) => q::Type::ListType(Box::new(convert_type(inner))),
        pq::Type::NonNullType(inner) => q::Type::NonNullType(Box::new(convert_type(inner))),
    }
}

fn convert_value(v: &pq::Value<'static, String>) -> q::Value {
    match v {
        pq::Value::Variable(name) => q::Value::Variable(name.clone()),
        pq::Value::Int(n) => q::Value::Int(n.as_i64().unwrap()),
        pq::Value::Float(f) => q::Value::Float(f.to_bits()),
        pq::Value::String(text) => q::Value::String(text.clone()),
        pq::Value::Boolean(b) => q::Value::Boolean(*b),
        pq::Value::Null => q::Value::Null,
        pq::Value::Enum(name) => q::Value::Enum(name.clone()),
        pq::Value::List(items) => q::Value::List(items.iter().map(convert_value).collect()),
        pq::Value::Object(entries) => q::Value::Object(
            entries.iter().map(|(k, v)| (k.clone(), convert_value(v))).collect(),
        ),
    }
}

fn convert_arguments(arguments: &Vec<(String, pq::Value<'static, String>)>) -> Vec<(String, q::Value)> {
    arguments.iter().map(|(k, v)| (k.clone(), convert_value(v))).collect()
}

fn convert_directives(directives: &Vec<pq::Directive<'static, String>>) -> Vec<q::Directive> {
    directives
        .iter()
        .map(|d| q::Directive {
            position: pos(d.position),
            name: d.name.clone(),
            arguments: convert_arguments(&d.arguments),
        })
        .collect()
}

fn convert_selection_set(set: &pq::SelectionSet<'static, String>) -> q::SelectionSet {
    q::SelectionSet {
        span: q::Span { start: pos(set.span.0), end: pos(set.span.1) },
        items: set.items.iter().map(convert_selection).collect(),
    }
}

fn convert_condition(c: &pq::TypeCondition<'static, String>) -> q::TypeCondition {
    match c {
        pq::TypeCondition::On(name) => q::TypeCondition::On(name.clone()),
    }
}

fn convert_selection(selection: &pq::Selection<'static, String>) -> q::Selection {
    match selection {
        pq::Selection::Field(f) => q::Selection::Field(q::Field {
            position: pos(f.position),
            alias: f.alias.clone(),
            name: f.name.clone(),
            arguments: convert_arguments(&f.arguments),
            directives: convert_directives(&f.directives),
            selection_set: convert_selection_set(&f.selection_set),
        }),
        pq::Selection::FragmentSpread(sp) => q::Selection::FragmentSpread(q::FragmentSpread {
            position: pos(sp.position),
            fragment_name: sp.fragment_name.clone(),
            directives: convert_directives(&sp.directives),
        }),
        pq::Selection::InlineFragment(inl) => q::Selection::InlineFragment(q::InlineFragment {
            position: pos(inl.position),
            type_condition: inl.type_condition.as_ref().map(convert_condition),
            directives: convert_directives(&inl.directives),
            selection_set: convert_selection_set(&inl.selection_set),
        }),
    }
}

fn convert_variables(vars: &Vec<pq::VariableDefinition<'static, String>>) -> Vec<q::VariableDefinition> {
    vars.iter()
        .map(|v| q::VariableDefinition {
            position: pos(v.position),
            name: v.name.clone(),
            var_type: convert_type(&v.var_type),
            default_value: v.default_value.as_ref().map(convert_value),
        })
        .collect()
}

fn convert_operation(op: &pq::OperationDefinition<'static, String>) -> q::OperationDefinition {
    match op {
        pq::OperationDefinition::SelectionSet(set) => {
            q::OperationDefinition::SelectionSet(convert_selection_set(set))
        }
        pq::OperationDefinition::Query(x) => q::OperationDefinition::Query(q::Query {
            position: pos(x.position),
            name: x.name.clone(),
            variable_definitions: convert_variables(&x.variable_definitions),
            directives: convert_directives(&x.directives),
            selection_set: convert_selection_set(&x.selection_set),
        }),
        pq::OperationDefinition::Mutation(x) => q::OperationDefinition::Mutation(q::Mutation {
            position: pos(x.position),
            name: x.name.clone(),
            variable_definitions: convert_variables(&x.variable_definitions),
            directives: convert_directives(&x.directives),
            selection_set: convert_selection_set(&x.selection_set),
        }),
        pq::OperationDefinition::Subscription(x) => {
            q::OperationDefinition::Subscription(q::Subscription {
                position: pos(x.position),
                name: x.name.clone(),
                variable_definitions: convert_variables(&x.variable_definitions),
                directives: convert_directives(&x.directives),
                selection_set: convert_selection_set(&x.selection_set),
            })
        }
    }
}

fn convert_document(doc: &pq::Document<'static, String>) -> q::Document {
    q::Document {
        definitions: doc
            .definitions
            .iter()
            .map(|d| match d {
                pq::Definition::Operation(op) => q::Definition::Operation(convert_operation(op)),
                pq::Definition::Fragment(f) => q::Definition::Fragment(q::FragmentDefinition {
                    position: pos(f.position),
                    name: f.name.clone(),
                    type_condition: convert_condition(&f.type_condition),
                    directives: convert_directives(&f.directives),
                    selection_set: convert_selection_set(&f.selection_set),
                }),
            })
            .collect(),
    }
}

fn convert_input_values(values: &Vec<ps::InputValue<'static, String>>) -> Vec<s::InputValue> {
    values
        .iter()
        .map(|v| s::InputValue {
            position: pos(v.position),
            name: v.name.clone(),
            value_type: convert_type(&v.value_type),
            default_value: v.default_value.as_ref().map(convert_value),
            directives: convert_directives(&v.directives),
        })
        .collect()
}

fn convert_fields(fields: &Vec<ps::Field<'static, String>>) -> Vec<s::Field> {
    fields
        .iter()
        .map(|f| s::Field {
            position: pos(f.position),
            name: f.name.clone(),
            arguments: convert_input_values(&f.arguments),
            field_type: convert_type(&f.field_type),
            directives: convert_directives(&f.directives),
        })
        .collect()
}

fn convert_type_definition(t: &ps::TypeDefinition<'static, String>) -> s::TypeDefinition {
    match t {
        ps::TypeDefinition::Scalar(x) => s::TypeDefinition::Scalar(s::ScalarType {
            position: pos(x.position),
            name: x.name.clone(),
            directives: convert_directives(&x.directives),
        }),
        ps::TypeDefinition::Object(x) => s::TypeDefinition::Object(s::ObjectType {
            position: pos(x.position),
            name: x.name.clone(),
            implements_interfaces: x.implements_interfaces.clone(),
            directives: convert_directives(&x.directives),
            fields: convert_fields(&x.fields),
        }),
        ps::TypeDefinition::Interface(x) => s::TypeDefinition::Interface(s::InterfaceType {
            position: pos(x.position),
            name: x.name.clone(),
            implements_interfaces: x.implements_interfaces.clone(),
            directives: convert_directives(&x.directives),
            fields: convert_fields(&x.fields),
        }),
        ps::TypeDefinition::Union(x) => s::TypeDefinition::Union(s::UnionType {
            position: pos(x.position),
            name: x.name.clone(),
            directives: convert_directives(&x.directives),
            types: x.types.clone(),
        }),
        ps::TypeDefinition::Enum(x) => s::TypeDefinition::Enum(s::EnumType {
            position: pos(x.position),
            name: x.name.clone(),
            directives: convert_directives(&x.directives),
            values: x
                .values
                .iter()
                .map(|v| s::EnumValue {
                    position: pos(v.position),
                    name: v.name.clone(),
                    directives: convert_directives(&v.directives),
                })
                .collect(),
        }),
        ps::TypeDefinition::InputObject(x) => s::TypeDefinition::InputObject(s::InputObjectType {
            position: pos(x.position),
            name: x.name.clone(),
            directives: convert_directives(&x.directives),
            fields: convert_input_values(&x.fields),
        }),
    }
}

fn convert_schema(doc: &ps::Document<'static, String>) -> s::Document {
    let mut definitions = Vec::new();
    for d in &doc.definitions {
        match d {
            ps::Definition::SchemaDefinition(x) => {
                definitions.push(s::Definition::SchemaDefinition(s::SchemaDefinition {
                    position: pos(x.position),
                    directives: convert_directives(&x.directives),
                    query: x.query.clone(),
                    mutation: x.mutation.clone(),
                    subscription: x.subscription.clone(),
                }))
            }
            ps::Definition::TypeDefinition(t) => {
                definitions.push(s::Definition::TypeDefinition(convert_type_definition(t)))
            }
            ps::Definition::TypeExtension(_) => {}
            ps::Definition::DirectiveDefinition(x) => {
                definitions.push(s::Definition::DirectiveDefinition(s::DirectiveDefinition {
                    position: pos(x.position),
                    name: x.name.clone(),
                    arguments: convert_input_values(&x.arguments),
                    repeatable: x.repeatable,
                }))
            }
        }
    }
    s::Document { definitions }
}

fn parse_schema(text: &str) -> s::Document {
    let parsed = graphql_parser::parse_schema::<String>(text).expect("schema parses").into_static();
    convert_schema(&parsed)
}

fn parse_operation(text: &str) -> q::Document {
    let parsed = graphql_parser::parse_query::<String>(text).expect("document parses").into_static();
    convert_document(&parsed)
}

fn test_operation_with_schema(
    operation: &str,
    schema: &str,
    plan: &mut ValidationPlan<Rule>,
) -> Vec<ValidationError> {
    let schema = parse_schema(schema);
    let operation = parse_operation(operation);
    validate(&schema, &operation, plan)
}

fn get_messages(errors: &Vec<ValidationError>) -> Vec<&String> {
    errors.iter().map(|e| &e.message).collect()
}

fn plan_of(rule: Rule) -> ValidationPlan<Rule> {
    let mut plan = ValidationPlan::new();
    plan.add_rule(rule);
    plan
}

fn messages_with(rule: Rule, operation: &str, schema: &str) -> Vec<String> {
    let mut plan = plan_of(rule);
    test_operation_with_schema(operation, schema, &mut plan)
        .into_iter()
        .map(|e| e.message)
        .collect()
}

const SMALL_SCHEMA: &str = "type Query { dog: Dog } type Dog { nickname: String, barkVolume: Int, mother: Dog, father: Dog }";
const FOO_SCHEMA: &str = "type Query { foo: String }";

#[test]
fn cyclic_fragment_should_never_loop() {
    let mut default_plan = default_rules_validation_plan();
    let errors = test_operation_with_schema(
        "
        {
          dog {
            nickname
            ...bark
            ...parents
          }
        }
        
        fragment bark on Dog {
          barkVolume
          ...parents
        }
        
        fragment parents on Dog {
          mother {
            ...bark
          }
        }
        
    ",
        TEST_SCHEMA,
        &mut default_plan,
    );

    let messages = get_messages(&errors);
    assert_eq!(messages.len(), 1);
    assert_eq!(
        messages,
        vec!["Cannot spread fragment \"bark\" within itself via \"parents\"."]
    )
}

#[test]
fn simple_self_reference_fragment_should_not_loop() {
    let mut default_plan = default_rules_validation_plan();
    let errors = test_operation_with_schema(
        "
        query dog {
          dog {
            ...DogFields
          }
        }
        
        fragment DogFields on Dog {
          mother {
            ...DogFields
          }
          father {
            ...DogFields
          }
        }
    ",
        TEST_SCHEMA,
        &mut default_plan,
    );

    let messages = get_messages(&errors);
    assert_eq!(messages.len(), 2);
    assert_eq!(
        messages,
        vec![
            "Cannot spread fragment \"DogFields\" within itself.",
            "Cannot spread fragment \"DogFields\" within itself."
        ]
    )
}

#[test]
fn fragment_loop_through_multiple_frags() {
    let mut default_plan = default_rules_validation_plan();
    let errors = test_operation_with_schema(
        "
        query dog {
          dog {
            ...DogFields1
          }
        }
        
        fragment DogFields1 on Dog {
          barks
          ...DogFields2
        }

        fragment DogFields2 on Dog {
          barkVolume
          ...DogFields3
        }

        fragment DogFields3 on Dog {
          name
          ...DogFields1
        }
    ",
        TEST_SCHEMA,
        &mut default_plan,
    );

    let messages = get_messages(&errors);
    assert_eq!(messages.len(), 1);
    assert_eq!(
        messages,
        vec!["Cannot spread fragment \"DogFields1\" within itself via \"DogFields2\", \"DogFields3\"."]
    )
}

#[test]
fn cycle_through_another_fragment_on_the_small_schema() {
    let mut plan = default_rules_validation_plan();
    let errors = test_operation_with_schema(
        "{ dog { nickname ...bark ...parents } } fragment bark on Dog { barkVolume ...parents } fragment parents on Dog { mother { ...bark } }",
        SMALL_SCHEMA,
        &mut plan,
    );
    assert_eq!(
        get_messages(&errors),
        vec!["Cannot spread fragment \"bark\" within itself via \"parents\"."]
    );
    assert_eq!(errors[0].locations.len(), 2);
}

#[test]
fn self_spread_on_the_small_schema() {
    let mut plan = default_rules_validation_plan();
    let errors = test_operation_with_schema(
        "query dog { dog { ...DogFields } } fragment DogFields on Dog { mother { ...DogFields } father { ...DogFields } }",
        SMALL_SCHEMA,
        &mut plan,
    );
    assert_eq!(
        get_messages(&errors),
        vec![
            "Cannot spread fragment \"DogFields\" within itself.",
            "Cannot spread fragment \"DogFields\" within itself."
        ]
    );
    assert_eq!(errors[0].locations.len(), 1);
}

#[test]
fn valid_minimal_query_has_no_errors() {
    let mut plan = default_rules_validation_plan();
    let errors = test_operation_with_schema("query test { foo }", FOO_SCHEMA, &mut plan);
    assert_eq!(errors, vec![]);
}

#[test]
fn leaf_field_with_a_selection_is_reported() {
    let mut plan = default_rules_validation_plan();
    let errors = test_operation_with_schema("{ foo { bar } }", FOO_SCHEMA, &mut plan);
    assert_eq!(
        get_messages(&errors),
        vec!["Field \"foo\" must not have a selection since type \"String\" has no subfields."]
    );
    assert_eq!(errors[0].locations, vec![q::Pos { line: 1, column: 3 }]);
}

#[test]
fn unknown_field_and_unknown_fragment_in_document_order() {
    let mut plan = default_rules_validation_plan();
    let errors = test_operation_with_schema(
        "{ dog { unknownField ...missing } }",
        SMALL_SCHEMA,
        &mut plan,
    );
    assert_eq!(
        get_messages(&errors),
        vec![
            "Cannot query field \"unknownField\" on type \"Dog\".",
            "Unknown fragment \"missing\"."
        ]
    );
}

#[test]
fn empty_plan_reports_nothing() {
    let mut plan: ValidationPlan<Rule> = ValidationPlan::new();
    let errors = test_operation_with_schema(
        "{ dog { unknownField ...missing } } { dog { nickname } }",
        SMALL_SCHEMA,
        &mut plan,
    );
    assert_eq!(errors, vec![]);
}

#[test]
fn two_runs_report_the_same_errors() {
    let schema = parse_schema(TEST_SCHEMA);
    let operation = parse_operation(
        "{ dog { unknownField ...missing } } fragment unused on Dog { name } fragment loops on Dog { ...loops }",
    );
    let plan = default_rules_validation_plan();
    let first = validate(&schema, &operation, &plan);
    let second = validate(&schema, &operation, &plan);
    assert!(!first.is_empty());
    assert_eq!(first, second);
    let again = parse_operation(
        "{ dog { unknownField ...missing } } fragment unused on Dog { name } fragment loops on Dog { ...loops }",
    );
    assert_eq!(first, validate(&schema, &again, &plan));
}

#[test]
fn adding_a_rule_keeps_the_errors_of_the_others() {
    let schema = parse_schema(SMALL_SCHEMA);
    let operation = parse_operation("{ dog { unknownField ...missing } }");
    let mut plan = plan_of(Rule::FieldsOnCorrectType(FieldsOnCorrectType::new()));
    let before = validate(&schema, &operation, &plan);
    plan.add_rule(Rule::KnownFragmentNamesRule(KnownFragmentNamesRule::new()));
    let after = validate(&schema, &operation, &plan);
    assert_eq!(before.len(), 1);
    assert_eq!(after.len(), 2);
    assert_eq!(after[..1], before[..]);
    assert_eq!(after[1].message, "Unknown fragment \"missing\".");
}

#[test]
fn plan_from_keeps_the_order_of_its_rules() {
    let schema = parse_schema(SMALL_SCHEMA);
    let operation = parse_operation("{ dog { unknownField ...missing } }");
    let plan = ValidationPlan::from(vec![
        Rule::KnownFragmentNamesRule(KnownFragmentNamesRule::new()),
        Rule::FieldsOnCorrectType(FieldsOnCorrectType::new()),
    ]);
    let errors = validate(&schema, &operation, &plan);
    assert_eq!(
        get_messages(&errors),
        vec![
            "Unknown fragment \"missing\".",
            "Cannot query field \"unknownField\" on type \"Dog\"."
        ]
    );
}

#[test]
fn default_plan_has_ten_rules() {
    assert_eq!(default_rules_validation_plan().rules.len(), 10);
}

#[test]
fn fragment_cycle_is_always_reported() {
    let operation = parse_operation(
        "{ a } fragment A on T { ...B } fragment B on T { x { ...C } } fragment C on T { ... on T { ...A } }",
    );
    let errors = detect_fragment_cycles(&operation);
    assert_eq!(
        get_messages(&errors),
        vec!["Cannot spread fragment \"A\" within itself via \"B\", \"C\"."]
    );
    assert_eq!(
        errors[0].locations,
        vec![
            q::Pos { line: 1, column: 28 },
            q::Pos { line: 1, column: 57 },
            q::Pos { line: 1, column: 95 }
        ]
    );
    let acyclic = parse_operation("{ ...A } fragment A on T { ...B ...B } fragment B on T { x }");
    assert_eq!(detect_fragment_cycles(&acyclic), vec![]);
}

#[test]
fn unused_fragments_are_exactly_the_unreachable_ones() {
    let messages = messages_with(
        Rule::NoUnusedFragments(NoUnusedFragments::new()),
        "{ dog { ...Used } } fragment Used on Dog { mother { ...Deep } } fragment Deep on Dog { name } fragment Lonely on Dog { ...Friend } fragment Friend on Dog { name }",
        TEST_SCHEMA,
    );
    assert_eq!(
        messages,
        vec![
            "Fragment \"Lonely\" is never used.",
            "Fragment \"Friend\" is never used."
        ]
    );
}

#[test]
fn lone_anonymous_operation_rule() {
    let rule = || Rule::LoneAnonymousOperation(LoneAnonymousOperation::new());
    assert_eq!(messages_with(rule(), "{ dog { name } }", TEST_SCHEMA), Vec::<String>::new());
    assert_eq!(
        messages_with(rule(), "{ dog { name } } query Named { dog { name } }", TEST_SCHEMA),
        vec!["This anonymous operation must be the only defined operation."]
    );
    assert_eq!(
        messages_with(rule(), "query A { dog { name } } query B { dog { name } }", TEST_SCHEMA),
        Vec::<String>::new()
    );
    assert_eq!(
        messages_with(rule(), "{ dog { name } } fragment F on Dog { name }", TEST_SCHEMA),
        Vec::<String>::new()
    );
}

#[test]
fn known_type_names_rule() {
    let rule = || Rule::KnownTypeNames(KnownTypeNames::new());
    assert_eq!(
        messages_with(
            rule(),
            "query Q($a: [Int!]!, $b: Nothing, $c: __Type) { dog { ... on Badger { name } ... on Dog { name } } } fragment F on Peettt { name }",
            TEST_SCHEMA
        ),
        vec![
            "Unknown type \"Nothing\".",
            "Unknown type \"Badger\".",
            "Unknown type \"Peettt\"."
        ]
    );
}

#[test]
fn fields_on_correct_type_rule() {
    let rule = || Rule::FieldsOnCorrectType(FieldsOnCorrectType::new());
    assert_eq!(
        messages_with(
            rule(),
            "{ dog { __typename name meows } catOrDog { __typename name ... on Cat { meows } } pet { name nickname } }",
            TEST_SCHEMA
        ),
        vec![
            "Cannot query field \"meows\" on type \"Dog\".",
            "Cannot query field \"name\" on type \"CatOrDog\".",
            "Cannot query field \"nickname\" on type \"Pet\"."
        ]
    );
}

#[test]
fn known_fragment_names_rule() {
    let rule = || Rule::KnownFragmentNamesRule(KnownFragmentNamesRule::new());
    assert_eq!(
        messages_with(
            rule(),
            "{ dog { ...Known ...Unknown1 ... on Dog { ...Unknown2 } } } fragment Known on Dog { name }",
            TEST_SCHEMA
        ),
        vec!["Unknown fragment \"Unknown1\".", "Unknown fragment \"Unknown2\"."]
    );
}

#[test]
fn fragments_on_composite_types_rule() {
    let rule = || Rule::FragmentsOnCompositeTypes(FragmentsOnCompositeTypes::new());
    assert_eq!(
        messages_with(
            rule(),
            "{ dog { ... on Boolean { name } ... on Dog { name } ... { name } ... on Missing { name } } } fragment onEnum on FurColor { name } fragment onInput on ComplexInput { x } fragment onUnion on CatOrDog { __typename }",
            TEST_SCHEMA
        ),
        vec![
            "Fragment cannot condition on non composite type \"Boolean\".",
            "Fragment \"onEnum\" cannot condition on non composite type \"FurColor\".",
            "Fragment \"onInput\" cannot condition on non composite type \"ComplexInput\"."
        ]
    );
}

#[test]
fn leaf_field_selections_rule() {
    let rule = || Rule::LeafFieldSelections(LeafFieldSelections::new());
    assert_eq!(
        messages_with(
            rule(),
            "{ human { pets relatives { name { first } } } dog { barks furColor } cat { furColor { inHex } } }",
            TEST_SCHEMA
        ),
        vec![
            "Field \"pets\" of type \"[Pet]\" must have a selection of subfields.",
            "Field \"name\" must not have a selection since type \"String\" has no subfields.",
            "Field \"furColor\" must not have a selection since type \"FurColor\" has no subfields."
        ]
    );
}

#[test]
fn unique_operation_names_rule() {
    let rule = || Rule::UniqueOperationNames(UniqueOperationNames::new());
    let schema = parse_schema(TEST_SCHEMA);
    let operation = parse_operation(
        "query Foo { dog { name } }\nquery Bar { dog { name } }\nmutation Foo { addPet { name } }\nquery Foo { cat { name } }",
    );
    let errors = validate(&schema, &operation, &plan_of(rule()));
    assert_eq!(
        get_messages(&errors),
        vec![
            "There can be only one operation named \"Foo\".",
            "There can be only one operation named \"Foo\"."
        ]
    );
    assert_eq!(
        errors[0].locations,
        vec![q::Pos { line: 1, column: 1 }, q::Pos { line: 3, column: 1 }]
    );
    assert_eq!(
        errors[1].locations,
        vec![q::Pos { line: 1, column: 1 }, q::Pos { line: 4, column: 1 }]
    );
}

#[test]
fn single_field_subscriptions_rule() {
    let rule = || Rule::SingleFieldSubscriptions(SingleFieldSubscriptions::new());
    assert_eq!(
        messages_with(rule(), "subscription One { newPet { name } }", TEST_SCHEMA),
        Vec::<String>::new()
    );
    assert_eq!(
        messages_with(rule(), "subscription Two { newPet { name } newDog { name } }", TEST_SCHEMA),
        vec!["Subscription \"Two\" must select only one top-level field."]
    );
    assert_eq!(
        messages_with(
            rule(),
            "subscription Spread { ...Both } fragment Both on Subscription { newPet { name } newDog { name } }",
            TEST_SCHEMA
        ),
        vec!["Subscription \"Spread\" must select only one top-level field."]
    );
    assert_eq!(
        messages_with(
            rule(),
            "subscription Single { ...One } fragment One on Subscription { newPet { name } }",
            TEST_SCHEMA
        ),
        Vec::<String>::new()
    );
    assert_eq!(
        messages_with(
            rule(),
            "subscription { ... on Subscription { newPet { name } newDog { name } } }",
            TEST_SCHEMA
        ),
        vec!["Anonymous Subscription must select only one top-level field."]
    );
    assert_eq!(
        messages_with(rule(), "query Q { dog { name } cat { name } }", TEST_SCHEMA),
        Vec::<String>::new()
    );
}

#[test]
fn overlapping_fields_rule_reports_each_kind_of_conflict() {
    let rule = || Rule::OverlappingFieldsCanBeMerged(OverlappingFieldsCanBeMerged::new());
    assert_eq!(
        messages_with(rule(), "{ dog { name nickname name } }", TEST_SCHEMA),
        Vec::<String>::new()
    );
    assert_eq!(
        messages_with(rule(), "{ dog { fido: name fido: nickname } }", TEST_SCHEMA),
        vec!["Fields \"fido\" conflict because \"name\" and \"nickname\" are different fields."]
    );
    assert_eq!(
        messages_with(
            rule(),
            "{ dog { doesKnowCommand(dogCommand: SIT) doesKnowCommand(dogCommand: HEEL) } }",
            TEST_SCHEMA
        ),
        vec!["Fields \"doesKnowCommand\" conflict because they have differing arguments."]
    );
    assert_eq!(
        messages_with(
            rule(),
            "{ dog { isAtLocation(x: 1, y: 2) isAtLocation(y: 2, x: 1) } }",
            TEST_SCHEMA
        ),
        Vec::<String>::new()
    );
    assert_eq!(
        messages_with(
            rule(),
            "{ dog { ...A ...B } } fragment A on Dog { x: name } fragment B on Dog { x: barks }",
            TEST_SCHEMA
        ),
        vec!["Fields \"x\" conflict because \"name\" and \"barks\" are different fields."]
    );
    assert_eq!(
        messages_with(
            rule(),
            "{ dog { mother { x: name } mother { x: nickname } } }",
            TEST_SCHEMA
        ),
        vec!["Fields \"mother\" conflict because subfields \"x\" conflict because \"name\" and \"nickname\" are different fields."]
    );
}

#[test]
fn overlapping_fields_rule_compares_result_types() {
    let schema = "type Query { box: Box } interface Box { id: ID } type IntBox implements Box { id: ID scalar: Int list: [Int] } type StringBox implements Box { id: ID scalar: String list: [String] } type NonNullBox implements Box { id: ID scalar: String! }";
    let rule = || Rule::OverlappingFieldsCanBeMerged(OverlappingFieldsCanBeMerged::new());
    assert_eq!(
        messages_with(
            rule(),
            "{ box { ... on IntBox { scalar } ... on StringBox { scalar } } }",
            schema
        ),
        vec!["Fields \"scalar\" conflict because they return conflicting types \"Int\" and \"String\"."]
    );
    assert_eq!(
        messages_with(
            rule(),
            "{ box { ... on StringBox { scalar } ... on NonNullBox { scalar } } }",
            schema
        ),
        vec!["Fields \"scalar\" conflict because they return conflicting types \"String\" and \"String!\"."]
    );
    assert_eq!(
        messages_with(
            rule(),
            "{ box { ... on IntBox { list } ... on StringBox { list } } }",
            schema
        ),
        vec!["Fields \"list\" conflict because they return conflicting types \"[Int]\" and \"[String]\"."]
    );
    assert_eq!(
        messages_with(rule(), "{ box { ... on IntBox { id } ... on StringBox { id } } }", schema),
        Vec::<String>::new()
    );
}

#[test]
fn overlapping_fields_rule_ends_on_cyclic_fragments() {
    let rule = || Rule::OverlappingFieldsCanBeMerged(OverlappingFieldsCanBeMerged::new());
    assert_eq!(
        messages_with(
            rule(),
            "{ dog { ...F ...G } } fragment F on Dog { mother { ...F } } fragment G on Dog { mother { ...G } }",
            TEST_SCHEMA
        ),
        vec![
            "Cannot spread fragment \"F\" within itself.",
            "Cannot spread fragment \"G\" within itself."
        ]
    );
}

// ---------------------------------------------------------------------------
// The walker and the context.

use graphql_tools::ast::ext::{
    AbstractTypeDefinitionExtension, AstNodeWithFields, AstNodeWithName, AstTypeRef,
    CompositeType, ImplementingInterfaceExtension, TypeDefinitionExtension, TypeInfoElementRef,
    UnionTypeExtension,
};
use graphql_tools::ast::fragment_spreads::{collect_spreads, fragment_index};
use graphql_tools::ast::lookup::contains_name;
use graphql_tools::ast::operation_visitor::{
    visit_document, ContextView, Node, OperationVisitor, OperationVisitorContext,
};
use graphql_tools::ast::schema_index::{is_builtin_scalar, is_introspection_type, RootKind};
use graphql_tools::ast::type_info_registry::TypeInfoRegistry;
use graphql_tools::validation::locate_fragments::LocateFragments;
use graphql_tools::validation::rules::lone_anonymous_operation::count_operations;
use graphql_tools::validation::rules::no_unused_fragments::reachable_fragments;
use graphql_tools::validation::rules::single_field_subscriptions::selects_one_field;
use graphql_tools::validation::rules::values::{float_eq, same_arguments, value_eq};
use graphql_tools::validation::utils::{count_position, same_locations, type_text};

/// Writes down every hook that the walker calls, with the types that are
/// current at that moment.
struct Recorder {
    events: Vec<String>,
    deepest: usize,
}

impl Recorder {
    fn note(&mut self, ctx: &OperationVisitorContext<'_>, what: String) {
        let name = |t: Option<&s::TypeDefinition>| match t {
            Some(t) => t.name_ref().clone(),
            None => "-".to_string(),
        };
        let literal = |t: Option<&q::Type>| match t {
            Some(t) => type_text(t),
            None => "-".to_string(),
        };
        self.events.push(format!(
            "{} [type {} {} parent {} input {} {}]",
            what,
            name(ctx.current_type()),
            literal(ctx.current_type_literal()),
            name(ctx.current_parent_type()),
            name(ctx.current_input_type()),
            literal(ctx.current_input_type_literal()),
        ));
        self.deepest = self.deepest.max(self.events.len());
    }
}

impl<'a> OperationVisitor<'a> for Recorder {
    type State = ();

    fn state(&self) {}
    fn on_enter(_: (), _: ContextView<'a>, _: Node<'a>) {}
    fn on_leave(_: (), _: ContextView<'a>, _: Node<'a>) {}

    fn enter_document(&mut self, ctx: &OperationVisitorContext<'a>, _: &'a q::Document) {
        self.note(ctx, "enter document".to_string());
    }
    fn leave_document(&mut self, ctx: &OperationVisitorContext<'a>, _: &'a q::Document) {
        self.note(ctx, "leave document".to_string());
    }
    fn enter_operation_definition(
        &mut self,
        ctx: &OperationVisitorContext<'a>,
        _: &'a q::OperationDefinition,
    ) {
        self.note(ctx, "enter operation".to_string());
    }
    fn leave_operation_definition(
        &mut self,
        ctx: &OperationVisitorContext<'a>,
        _: &'a q::OperationDefinition,
    ) {
        self.note(ctx, "leave operation".to_string());
    }
    fn enter_fragment_definition(
        &mut self,
        ctx: &OperationVisitorContext<'a>,
        f: &'a q::FragmentDefinition,
    ) {
        self.note(ctx, format!("enter fragment {}", f.name));
    }
    fn leave_fragment_definition(
        &mut self,
        ctx: &OperationVisitorContext<'a>,
        f: &'a q::FragmentDefinition,
    ) {
        self.note(ctx, format!("leave fragment {}", f.name));
    }
    fn enter_variable_definition(
        &mut self,
        ctx: &OperationVisitorContext<'a>,
        v: &'a q::VariableDefinition,
    ) {
        self.note(ctx, format!("enter variable {}", v.name));
    }
    fn leave_variable_definition(
        &mut self,
        ctx: &OperationVisitorContext<'a>,
        v: &'a q::VariableDefinition,
    ) {
        self.note(ctx, format!("leave variable {}", v.name));
    }
    fn enter_directive(&mut self, ctx: &OperationVisitorContext<'a>, d: &'a q::Directive) {
        self.note(ctx, format!("enter directive {}", d.name));
    }
    fn leave_directive(&mut self, ctx: &OperationVisitorContext<'a>, d: &'a q::Directive) {
        self.note(ctx, format!("leave directive {}", d.name));
    }
    fn enter_argument(&mut self, ctx: &OperationVisitorContext<'a>, a: &'a (String, q::Value)) {
        self.note(ctx, format!("enter argument {}", a.0));
    }
    fn leave_argument(&mut self, ctx: &OperationVisitorContext<'a>, a: &'a (String, q::Value)) {
        self.note(ctx, format!("leave argument {}", a.0));
    }
    fn enter_selection_set(&mut self, ctx: &OperationVisitorContext<'a>, _: &'a q::SelectionSet) {
        self.note(ctx, "enter selection set".to_string());
    }
    fn leave_selection_set(&mut self, ctx: &OperationVisitorContext<'a>, _: &'a q::SelectionSet) {
        self.note(ctx, "leave selection set".to_string());
    }
    fn enter_field(&mut self, ctx: &OperationVisitorContext<'a>, f: &'a q::Field) {
        self.note(ctx, format!("enter field {}", f.name));
    }
    fn leave_field(&mut self, ctx: &OperationVisitorContext<'a>, f: &'a q::Field) {
        self.note(ctx, format!("leave field {}", f.name));
    }
    fn enter_fragment_spread(
        &mut self,
        ctx: &OperationVisitorContext<'a>,
        sp: &'a q::FragmentSpread,
    ) {
        self.note(ctx, format!("enter spread {}", sp.fragment_name));
    }
    fn leave_fragment_spread(
        &mut self,
        ctx: &OperationVisitorContext<'a>,
        sp: &'a q::FragmentSpread,
    ) {
        self.note(ctx, format!("leave spread {}", sp.fragment_name));
    }
    fn enter_inline_fragment(
        &mut self,
        ctx: &OperationVisitorContext<'a>,
        _: &'a q::InlineFragment,
    ) {
        self.note(ctx, "enter inline fragment".to_string());
    }
    fn leave_inline_fragment(
        &mut self,
        ctx: &OperationVisitorContext<'a>,
        _: &'a q::InlineFragment,
    ) {
        self.note(ctx, "leave inline fragment".to_string());
    }
    fn enter_null_value(&mut self, ctx: &OperationVisitorContext<'a>) {
        self.note(ctx, "enter null".to_string());
    }
    fn leave_null_value(&mut self, ctx: &OperationVisitorContext<'a>) {
        self.note(ctx, "leave null".to_string());
    }
    fn enter_scalar_value(&mut self, ctx: &OperationVisitorContext<'a>, v: &'a q::Value) {
        self.note(ctx, format!("enter scalar {:?}", v));
    }
    fn leave_scalar_value(&mut self, ctx: &OperationVisitorContext<'a>, v: &'a q::Value) {
        self.note(ctx, format!("leave scalar {:?}", v));
    }
    fn enter_enum_value(&mut self, ctx: &OperationVisitorContext<'a>, v: &'a String) {
        self.note(ctx, format!("enter enum {}", v));
    }
    fn leave_enum_value(&mut self, ctx: &OperationVisitorContext<'a>, v: &'a String) {
        self.note(ctx, format!("leave enum {}", v));
    }
    fn enter_variable_value(&mut self, ctx: &OperationVisitorContext<'a>, v: &'a String) {
        self.note(ctx, format!("enter variable value {}", v));
    }
    fn leave_variable_value(&mut self, ctx: &OperationVisitorContext<'a>, v: &'a String) {
        self.note(ctx, format!("leave variable value {}", v));
    }
    fn enter_list_value(&mut self, ctx: &OperationVisitorContext<'a>, v: &'a Vec<q::Value>) {
        self.note(ctx, format!("enter list of {}", v.len()));
    }
    fn leave_list_value(&mut self, ctx: &OperationVisitorContext<'a>, v: &'a Vec<q::Value>) {
        self.note(ctx, format!("leave list of {}", v.len()));
    }
    fn enter_object_value(
        &mut self,
        ctx: &OperationVisitorContext<'a>,
        v: &'a Vec<(String, q::Value)>,
    ) {
        self.note(ctx, format!("enter object of {}", v.len()));
    }
    fn leave_object_value(
        &mut self,
        ctx: &OperationVisitorContext<'a>,
        v: &'a Vec<(String, q::Value)>,
    ) {
        self.note(ctx, format!("leave object of {}", v.len()));
    }
    fn enter_object_field(&mut self, ctx: &OperationVisitorContext<'a>, e: &'a (String, q::Value)) {
        self.note(ctx, format!("enter entry {}", e.0));
    }
    fn leave_object_field(&mut self, ctx: &OperationVisitorContext<'a>, e: &'a (String, q::Value)) {
        self.note(ctx, format!("leave entry {}", e.0));
    }
}

fn record(operation: &str, schema: &str) -> Vec<String> {
    let schema = parse_schema(schema);
    let operation = parse_operation(operation);
    let mut context = OperationVisitorContext::new(&operation, &schema);
    let mut recorder = Recorder { events: Vec::new(), deepest: 0 };
    visit_document(&mut recorder, &operation, &mut context);
    assert!(context.current_type().is_none());
    assert!(context.current_parent_type().is_none());
    assert!(context.current_input_type().is_none());
    assert!(context.current_type_literal().is_none());
    assert!(context.current_input_type_literal().is_none());
    recorder.events
}

#[test]
fn walker_calls_the_hooks_in_document_order_with_the_types_in_step() {
    let events = record(
        "{ dog { name ...F ... on Pet { name } ... { barks } } } fragment F on Dog { mother { nickname } }",
        TEST_SCHEMA,
    );
    let expected = vec![
        "enter document [type - - parent - input - -]",
        "enter operation [type Query Query parent - input - -]",
        "enter selection set [type Query Query parent Query input - -]",
        "enter field dog [type Dog Dog parent Query input - -]",
        "enter selection set [type Dog Dog parent Dog input - -]",
        "enter field name [type - String parent Dog input - -]",
        "enter selection set [type - String parent - input - -]",
        "leave selection set [type - String parent - input - -]",
        "leave field name [type - String parent Dog input - -]",
        "enter spread F [type Dog Dog parent Dog input - -]",
        "leave spread F [type Dog Dog parent Dog input - -]",
        "enter inline fragment [type Pet Pet parent Dog input - -]",
        "enter selection set [type Pet Pet parent Pet input - -]",
        "enter field name [type - String parent Pet input - -]",
        "enter selection set [type - String parent - input - -]",
        "leave selection set [type - String parent - input - -]",
        "leave field name [type - String parent Pet input - -]",
        "leave selection set [type Pet Pet parent Pet input - -]",
        "leave inline fragment [type Pet Pet parent Dog input - -]",
        "enter inline fragment [type Dog Dog parent Dog input - -]",
        "enter selection set [type Dog Dog parent Dog input - -]",
        "enter field barks [type - Boolean parent Dog input - -]",
        "enter selection set [type - Boolean parent - input - -]",
        "leave selection set [type - Boolean parent - input - -]",
        "leave field barks [type - Boolean parent Dog input - -]",
        "leave selection set [type Dog Dog parent Dog input - -]",
        "leave inline fragment [type Dog Dog parent Dog input - -]",
        "leave selection set [type Dog Dog parent Dog input - -]",
        "leave field dog [type Dog Dog parent Query input - -]",
        "leave selection set [type Query Query parent Query input - -]",
        "leave operation [type Query Query parent - input - -]",
        "enter fragment F [type Dog Dog parent - input - -]",
        "enter selection set [type Dog Dog parent Dog input - -]",
        "enter field mother [type Dog Dog parent Dog input - -]",
        "enter selection set [type Dog Dog parent Dog input - -]",
        "enter field nickname [type - String parent Dog input - -]",
        "enter selection set [type - String parent - input - -]",
        "leave selection set [type - String parent - input - -]",
        "leave field nickname [type - String parent Dog input - -]",
        "leave selection set [type Dog Dog parent Dog input - -]",
        "leave field mother [type Dog Dog parent Dog input - -]",
        "leave selection set [type Dog Dog parent Dog input - -]",
        "leave fragment F [type Dog Dog parent - input - -]",
        "leave document [type - - parent - input - -]",
    ];
    assert_eq!(events, expected);
}

#[test]
fn walker_threads_input_types_through_arguments_and_values() {
    let events = record(
        "query Q($v: [Int] = [1, null], $c: ComplexInput = {requiredField: true}) @onField(flag: X) { complicatedArgs(complexArg: {stringListField: [\"a\"], intField: $v}, listArg: [2], other: 1.5) }",
        TEST_SCHEMA,
    );
    let expected = vec![
        "enter document [type - - parent - input - -]",
        "enter operation [type Query Query parent - input - -]",
        "enter variable v [type Query Query parent - input - [Int]]",
        "enter list of 2 [type Query Query parent - input - [Int]]",
        "enter scalar Int(1) [type Query Query parent - input - Int]",
        "leave scalar Int(1) [type Query Query parent - input - Int]",
        "enter null [type Query Query parent - input - Int]",
        "leave null [type Query Query parent - input - Int]",
        "leave list of 2 [type Query Query parent - input - [Int]]",
        "leave variable v [type Query Query parent - input - [Int]]",
        "enter variable c [type Query Query parent - input ComplexInput ComplexInput]",
        "enter object of 1 [type Query Query parent - input ComplexInput ComplexInput]",
        "enter entry requiredField [type Query Query parent - input - Boolean!]",
        "enter scalar Boolean(true) [type Query Query parent - input - Boolean!]",
        "leave scalar Boolean(true) [type Query Query parent - input - Boolean!]",
        "leave entry requiredField [type Query Query parent - input - Boolean!]",
        "leave object of 1 [type Query Query parent - input ComplexInput ComplexInput]",
        "leave variable c [type Query Query parent - input ComplexInput ComplexInput]",
        "enter directive onField [type Query Query parent - input - -]",
        "enter argument flag [type Query Query parent - input - -]",
        "enter enum X [type Query Query parent - input - -]",
        "leave enum X [type Query Query parent - input - -]",
        "leave argument flag [type Query Query parent - input - -]",
        "leave directive onField [type Query Query parent - input - -]",
        "enter selection set [type Query Query parent Query input - -]",
        "enter field complicatedArgs [type - String parent Query input - -]",
        "enter argument complexArg [type - String parent Query input ComplexInput ComplexInput]",
        "enter object of 2 [type - String parent Query input ComplexInput ComplexInput]",
        "enter entry intField [type - String parent Query input - Int]",
        "enter variable value v [type - String parent Query input - Int]",
        "leave variable value v [type - String parent Query input - Int]",
        "leave entry intField [type - String parent Query input - Int]",
        "enter entry stringListField [type - String parent Query input - [String]]",
        "enter list of 1 [type - String parent Query input - [String]]",
        "enter scalar String(\"a\") [type - String parent Query input - String]",
        "leave scalar String(\"a\") [type - String parent Query input - String]",
        "leave list of 1 [type - String parent Query input - [String]]",
        "leave entry stringListField [type - String parent Query input - [String]]",
        "leave object of 2 [type - String parent Query input ComplexInput ComplexInput]",
        "leave argument complexArg [type - String parent Query input ComplexInput ComplexInput]",
        "enter argument listArg [type - String parent Query input - [Int]]",
        "enter list of 1 [type - String parent Query input - [Int]]",
        "enter scalar Int(2) [type - String parent Query input - Int]",
        "leave scalar Int(2) [type - String parent Query input - Int]",
        "leave list of 1 [type - String parent Query input - [Int]]",
        "leave argument listArg [type - String parent Query input - [Int]]",
        "enter argument other [type - String parent Query input - -]",
        "enter scalar Float(4609434218613702656) [type - String parent Query input - -]",
        "leave scalar Float(4609434218613702656) [type - String parent Query input - -]",
        "leave argument other [type - String parent Query input - -]",
        "enter selection set [type - String parent - input - -]",
        "leave selection set [type - String parent - input - -]",
        "leave field complicatedArgs [type - String parent Query input - -]",
        "leave selection set [type Query Query parent Query input - -]",
        "leave operation [type Query Query parent - input - -]",
        "leave document [type - - parent - input - -]",
    ];
    assert_eq!(events, expected);
}

#[test]
fn walker_uses_the_root_types_of_the_schema() {
    let events = record(
        "mutation { addPet { name } } subscription { newPet { name } }",
        "schema { query: Root mutation: Change } type Root { a: Int } type Change { addPet: Root } type Subscription { newPet: Root }",
    );
    assert_eq!(events[1], "enter operation [type Change Change parent - input - -]");
    assert!(events.contains(&"enter operation [type - - parent - input - -]".to_string()));
    let events = record("mutation { addPet { name } }", FOO_SCHEMA);
    assert_eq!(events[1], "enter operation [type - - parent - input - -]");
    assert_eq!(events[3], "enter field addPet [type - - parent - input - -]");
}

#[test]
fn context_scopes_restore_the_stacks() {
    let schema = parse_schema(TEST_SCHEMA);
    let operation = parse_operation("{ dog { name } } fragment F on Dog { name }");
    let mut context = OperationVisitorContext::new(&operation, &schema);
    assert_eq!(context.known_fragments().len(), 1);
    assert_eq!(context.directives().len(), 1);
    assert!(context.schema().type_by_name(&"Dog".to_string()).is_some());
    assert_eq!(context.operation().definitions.len(), 2);
    let mut seen = Vec::new();
    let list_of_dogs = q::Type::ListType(Box::new(q::Type::NamedType("Dog".to_string())));
    context.with_type(Some(list_of_dogs), |c| {
        seen.push(c.current_type().map(|t| t.name_ref().clone()));
        seen.push(c.current_type_literal().map(type_text));
        seen.push(c.current_parent_type().map(|t| t.name_ref().clone()));
        c.with_parent_type(|c| {
            seen.push(c.current_parent_type().map(|t| t.name_ref().clone()));
            c.with_type(None, |c| {
                seen.push(c.current_type().map(|t| t.name_ref().clone()));
                seen.push(c.current_parent_type().map(|t| t.name_ref().clone()));
            });
            c.with_input_type(Some(q::Type::NamedType("ComplexInput".to_string())), |c| {
                seen.push(c.current_input_type().map(|t| t.name_ref().clone()));
                seen.push(c.current_input_type_literal().map(type_text));
            });
            seen.push(c.current_input_type_literal().map(type_text));
        });
        seen.push(c.current_parent_type().map(|t| t.name_ref().clone()));
    });
    let text = |x: &str| Some(x.to_string());
    assert_eq!(
        seen,
        vec![
            text("Dog"),
            text("[Dog]"),
            None,
            text("Dog"),
            None,
            text("Dog"),
            text("ComplexInput"),
            text("ComplexInput"),
            None,
            None
        ]
    );
    assert!(context.current_type().is_none());
    assert!(context.current_type_literal().is_none());
    assert!(context.current_parent_type().is_none());
    assert!(context.current_input_type_literal().is_none());
}

#[test]
fn schema_lookups() {
    let schema = parse_schema(
        "schema { query: Root } type Root { a: Int a: String b(x: Int, x: String): Root } type Twice { first: Int } type Twice { second: Int } input In { f: [Int!] } directive @d(arg: Int) on FIELD type Mutation { m: Int }",
    );
    let name = |x: &str| x.to_string();
    assert_eq!(schema.query_type().unwrap().name, "Root");
    assert!(schema.mutation_type().is_none());
    assert!(schema.subscription_type().is_none());
    assert!(schema.root_type(RootKind::Mutation).is_none());
    assert_eq!(schema.object_type_by_name(&name("Mutation")).unwrap().name, "Mutation");
    assert!(schema.object_type_by_name(&name("In")).is_none());
    assert!(schema.schema_definition().is_some());
    let twice = schema.type_by_name(&name("Twice")).unwrap();
    assert!(twice.field_by_name(&name("second")).is_some());
    assert!(twice.field_by_name(&name("first")).is_none());
    let root = schema.type_by_name(&name("Root")).unwrap();
    assert_eq!(type_text(&root.field_by_name(&name("a")).unwrap().field_type), "Int");
    assert!(root.input_field_by_name(&name("a")).is_none());
    let input = schema.type_by_name(&name("In")).unwrap();
    assert_eq!(type_text(&input.input_field_by_name(&name("f")).unwrap().value_type), "[Int!]");
    assert!(input.field_by_name(&name("f")).is_none());
    assert_eq!(schema.directive_by_name(&name("d")).unwrap().arguments.len(), 1);
    assert!(schema.directive_by_name(&name("e")).is_none());
    assert!(schema.type_by_name(&name("String")).is_none());
    assert!(schema.is_known_type(&name("String")));
    assert!(schema.is_known_type(&name("__Schema")));
    assert!(schema.is_known_type(&name("In")));
    assert!(!schema.is_known_type(&name("Out")));
    assert!(schema.is_leaf_type_name(&name("ID")));
    assert!(!schema.is_leaf_type_name(&name("In")));
    assert!(schema.is_composite_type_name(&name("Root")));
    assert!(!schema.is_composite_type_name(&name("Int")));
    assert!(schema.is_non_composite_type_name(&name("In")));
    assert!(schema.is_non_composite_type_name(&name("Float")));
    assert!(!schema.is_non_composite_type_name(&name("Nothing")));
    assert!(is_builtin_scalar(&name("Boolean")) && !is_builtin_scalar(&name("Bool")));
    assert!(is_introspection_type(&name("__TypeKind")) && !is_introspection_type(&name("Type")));
    let plain = parse_schema("type Query { a: Int } type Subscription { s: Int } scalar Mutation");
    assert_eq!(plain.query_type().unwrap().name, "Query");
    assert_eq!(plain.subscription_type().unwrap().name, "Subscription");
    assert!(plain.mutation_type().is_none());
    assert!(plain.schema_definition().is_none());
    let registry = TypeInfoRegistry::new(&plain);
    assert_eq!(registry.type_definitions.len(), 3);
    assert_eq!(registry.type_by_name(&name("Mutation")).unwrap().name_ref(), "Mutation");
    assert!(registry.type_by_name(&name("Missing")).is_none());
    assert!(TypeInfoRegistry::new(&schema)
        .type_by_name(&name("Twice"))
        .unwrap()
        .field_by_name(&name("second"))
        .is_some());
    assert_eq!(registry.query_type.unwrap().name, "Query");
    assert!(registry.mutation_type.is_none());
    assert_eq!(registry.subscription_type.unwrap().name, "Subscription");
}

#[test]
fn questions_about_schema_nodes() {
    let schema = parse_schema(TEST_SCHEMA);
    let name = |x: &str| x.to_string();
    let dog = schema.type_by_name(&name("Dog")).unwrap();
    let pet = schema.type_by_name(&name("Pet")).unwrap();
    let cat_or_dog = schema.type_by_name(&name("CatOrDog")).unwrap();
    let color = schema.type_by_name(&name("FurColor")).unwrap();
    let input = schema.type_by_name(&name("ComplexInput")).unwrap();
    assert_eq!(dog.interfaces(), vec![name("Pet"), name("Mammal")]);
    assert_eq!(color.interfaces(), Vec::<String>::new());
    assert_eq!(
        [dog.is_leaf_type(), dog.is_composite_type(), dog.is_input_type(), dog.is_abstract_type()],
        [false, true, false, false]
    );
    assert_eq!(
        [pet.is_leaf_type(), pet.is_composite_type(), pet.is_input_type(), pet.is_abstract_type()],
        [false, true, false, true]
    );
    assert_eq!(
        [color.is_leaf_type(), color.is_composite_type(), color.is_input_type(), color.is_abstract_type()],
        [true, false, true, false]
    );
    assert_eq!(
        [input.is_leaf_type(), input.is_composite_type(), input.is_input_type(), input.is_abstract_type()],
        [false, false, true, false]
    );
    assert_eq!(TypeDefinitionExtension::name(cat_or_dog), "CatOrDog");
    let composite = CompositeType::from_type_definition(dog).unwrap();
    assert!(CompositeType::from_type_definition(color).is_none());
    assert_eq!(composite.find_field(name("barks")).unwrap().name, "barks");
    assert!(composite.find_field(name("meows")).is_none());
    assert_eq!(TypeDefinitionExtension::name(&composite), "Dog");
    assert!(!composite.is_abstract_type() && composite.is_composite_type());
    assert!(!composite.is_leaf_type() && !composite.is_input_type());
    let union = CompositeType::from_type_definition(cat_or_dog).unwrap();
    assert!(union.find_field(name("name")).is_none());
    assert!(union.is_abstract_type());
    assert!(TypeInfoElementRef::Ref(composite).find_field(name("name")).is_some());
    assert!(TypeInfoElementRef::<CompositeType>::Empty.find_field(name("name")).is_none());
    if let (s::TypeDefinition::Object(dog), s::TypeDefinition::Interface(pet), s::TypeDefinition::Union(u)) =
        (dog, pet, cat_or_dog)
    {
        assert!(dog.find_field(name("name")).is_some());
        assert!(pet.find_field(name("barks")).is_none());
        assert!(u.find_field(name("name")).is_none());
        assert!(pet.is_implemented_by(dog));
        assert!(!pet.is_implemented_by(pet));
        assert_eq!(dog.interfaces().len(), 2);
        assert_eq!(pet.interfaces().len(), 0);
        assert!(u.has_sub_type(&name("Cat")) && !u.has_sub_type(&name("Human")));
    } else {
        panic!("the schema has these three types");
    }
    assert!(contains_name(&vec![name("a"), name("b")], &name("b")));
    assert!(!contains_name(&vec![name("a"), name("b")], &name("c")));
    let nested = q::Type::NonNullType(Box::new(q::Type::ListType(Box::new(
        q::Type::NonNullType(Box::new(q::Type::NamedType(name("Dog")))),
    ))));
    assert_eq!(nested.named_type(), "Dog");
    assert_eq!(nested.inner_type(), "Dog");
    assert_eq!(type_text(&nested), "[Dog!]!");
    assert_eq!(nested.clone(), nested);
}

#[test]
fn questions_about_document_nodes() {
    let operation = parse_operation(
        "query Named { a } { b } mutation { c } subscription S { d } fragment F on T { ...G x { ...H ... on T { ...G } } } fragment F on T { y }",
    );
    let names: Vec<Option<String>> = operation
        .definitions
        .iter()
        .map(|d| match d {
            q::Definition::Operation(op) => op.node_name(),
            q::Definition::Fragment(f) => f.node_name(),
        })
        .collect();
    let text = |x: &str| Some(x.to_string());
    assert_eq!(names, vec![text("Named"), None, None, text("S"), text("F"), text("F")]);
    assert_eq!(count_operations(&operation), 4);
    if let q::Definition::Operation(op) = &operation.definitions[1] {
        assert_eq!(op.position(), q::Pos { line: 1, column: 19 });
        assert_eq!(op.selection_set().items.len(), 1);
        assert!(op.name_ref().is_none());
    }
    assert_eq!(fragment_index(&operation, &"F".to_string()), Some(5));
    assert_eq!(fragment_index(&operation, &"G".to_string()), None);
    assert_eq!(operation.fragment_by_name(&"F".to_string()).unwrap().selection_set.items.len(), 1);
    if let q::Definition::Fragment(f) = &operation.definitions[4] {
        let mut spreads = Vec::new();
        collect_spreads(&f.selection_set, &mut spreads);
        let found: Vec<&str> = spreads.iter().map(|sp| sp.fragment_name.as_str()).collect();
        assert_eq!(found, vec!["G", "H", "G"]);
    }
    assert_eq!(LocateFragments::new().locate_fragments(&operation).len(), 2);
    let reach = parse_operation(
        "{ ...A } fragment A on T { ...B } fragment B on T { ...A } fragment C on T { ...A } fragment D on T { x }",
    );
    assert_eq!(reachable_fragments(&reach), vec![false, true, true, false, false]);
    if let q::Definition::Operation(op) = &reach.definitions[0] {
        assert!(selects_one_field(&reach, &op.selection_set().items));
    }
}

fn first_field_arguments(text: &str) -> Vec<(String, q::Value)> {
    let mut doc = parse_operation(text);
    match doc.definitions.remove(0) {
        q::Definition::Operation(q::OperationDefinition::SelectionSet(mut set)) => {
            match set.items.remove(0) {
                q::Selection::Field(f) => f.arguments,
                _ => panic!("a field"),
            }
        }
        _ => panic!("a selection set"),
    }
}

#[test]
fn values_are_compared_by_structure() {
    let value = |text: &str| -> q::Value {
        let mut arguments = first_field_arguments(&format!("{{ f(a: {}) }}", text));
        arguments.remove(0).1
    };
    let same = |a: &str, b: &str| value_eq(&value(a), &value(b));
    assert!(same("1", "1") && !same("1", "2") && !same("1", "1.0"));
    assert!(same("1.5", "1.5") && !same("1.5", "2.5"));
    assert!(same("0.0", "-0.0"));
    assert!(same("\"a\"", "\"a\"") && !same("\"a\"", "\"b\"") && !same("\"a\"", "a"));
    assert!(same("true", "true") && !same("true", "false"));
    assert!(same("null", "null") && !same("null", "0"));
    assert!(same("SIT", "SIT") && !same("SIT", "HEEL"));
    assert!(same("$x", "$x") && !same("$x", "$y") && !same("$x", "x"));
    assert!(same("[1, [2, 3]]", "[1, [2, 3]]") && !same("[1, 2]", "[1]") && !same("[1, 2]", "[2, 1]"));
    assert!(same("{a: 1, b: [2]}", "{b: [2], a: 1}"));
    assert!(!same("{a: 1}", "{a: 2}") && !same("{a: 1}", "{b: 1}") && !same("{a: 1}", "{a: 1, b: 2}"));
    assert!(float_eq(1.5f64.to_bits(), 1.5f64.to_bits()));
    assert!(float_eq(0.0f64.to_bits(), (-0.0f64).to_bits()));
    assert!(!float_eq(f64::NAN.to_bits(), f64::NAN.to_bits()));
    assert!(!float_eq(1.5f64.to_bits(), (-1.5f64).to_bits()));
    assert!(float_eq(f64::INFINITY.to_bits(), f64::INFINITY.to_bits()));
    let arguments = |text: &str| first_field_arguments(&format!("{{ f{} }}", text));
    assert!(same_arguments(&arguments("(a: 1, b: 2)"), &arguments("(b: 2, a: 1)")));
    assert!(same_arguments(&arguments(""), &arguments("")));
    assert!(!same_arguments(&arguments("(a: 1)"), &arguments("")));
    assert!(!same_arguments(&arguments("(a: 1)"), &arguments("(a: 2)")));
    assert!(!same_arguments(&arguments("(a: 1)"), &arguments("(b: 1)")));
}

#[test]
fn errors_are_equal_whatever_the_order_of_their_locations() {
    let at = |line: usize, column: usize| q::Pos { line, column };
    let error = |message: &str, locations: Vec<q::Pos>| ValidationError {
        locations,
        message: message.to_string(),
    };
    assert_eq!(error("m", vec![at(1, 2), at(3, 4)]), error("m", vec![at(3, 4), at(1, 2)]));
    assert_eq!(error("m", vec![]), error("m", vec![]));
    assert_ne!(error("m", vec![at(1, 2)]), error("n", vec![at(1, 2)]));
    assert_ne!(error("m", vec![at(1, 2)]), error("m", vec![at(2, 1)]));
    assert_ne!(error("m", vec![at(1, 2)]), error("m", vec![at(1, 2), at(1, 2)]));
    assert_ne!(error("m", vec![at(1, 2), at(1, 2), at(3, 4)]), error("m", vec![at(1, 2), at(3, 4), at(3, 4)]));
    let first = error("m", vec![at(1, 2), at(3, 4)]);
    let copy = first.clone();
    assert_eq!(copy.message, "m");
    assert_eq!(copy.locations, vec![at(1, 2), at(3, 4)]);
    assert!(same_locations(&vec![at(1, 1), at(2, 2), at(1, 1)], &vec![at(1, 1), at(1, 1), at(2, 2)]));
    assert_eq!(count_position(&vec![at(1, 1), at(2, 2), at(1, 1)], at(1, 1)), 2);
}
