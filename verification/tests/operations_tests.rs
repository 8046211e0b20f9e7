use graphql_client_codegen::errors::CodegenError;
use graphql_client_codegen::field_type::FieldType;
use graphql_client_codegen::ir::{DefaultValue, TypeExpr};
use graphql_client_codegen::operations::{
    select_operation, OpDefBody, Operation, OperationDef, OperationType, Selection,
};
use graphql_client_codegen::schema::Schema;
use graphql_client_codegen::shared::variables_derives;
use graphql_client_codegen::variables::Variable;

fn op(name: &str, kind: OperationType, variables: Vec<Variable>) -> Operation {
    Operation {
        name: name.to_string(),
        operation_type: kind,
        variables,
        selection: Selection { fields: vec![] },
    }
}

#[test]
fn root_names_default_to_conventional_types() {
    let schema = Schema::new();
    assert_eq!(op("A", OperationType::Query, vec![]).root_name(&schema), "Query");
    assert_eq!(op("A", OperationType::Mutation, vec![]).root_name(&schema), "Mutation");
    assert_eq!(
        op("A", OperationType::Subscription, vec![]).root_name(&schema),
        "Subscription"
    );
}

#[test]
fn root_names_follow_the_configured_schema() {
    let mut schema = Schema::new();
    schema.set_query_type(Some("RootQuery".to_string()));
    assert_eq!(op("A", OperationType::Query, vec![]).root_name(&schema), "RootQuery");
}

#[test]
fn only_subscriptions_are_subscriptions() {
    assert!(op("A", OperationType::Subscription, vec![]).is_subscription());
    assert!(!op("A", OperationType::Query, vec![]).is_subscription());
    assert!(!op("A", OperationType::Mutation, vec![]).is_subscription());
}

#[test]
fn zero_variables_expand_to_an_empty_variables_type() {
    let derives = variables_derives(None);
    let (d, fields, ctors) = op("Empty", OperationType::Query, vec![]).expand_variables(&derives);
    assert_eq!(d, vec!["Serialize".to_string()]);
    assert!(fields.is_empty());
    assert!(ctors.is_empty());
}

#[test]
fn declared_variables_expand_to_one_field_each() {
    let vars = vec![
        Variable {
            name: "id".to_string(),
            ty: FieldType::Named("ID".to_string()),
            default: None,
        },
        Variable {
            name: "limit".to_string(),
            ty: FieldType::Optional(Box::new(FieldType::Named("Int".to_string()))),
            default: None,
        },
    ];
    let derives = variables_derives(None);
    let operation = op("Search", OperationType::Query, vars);
    let params = operation.variable_ctor_params();
    assert_eq!(params.len(), 1);
    assert_eq!(params[0].name, "id");
    assert_eq!(params[0].ty, TypeExpr::Text);
    let (_, fields, ctors) = operation.expand_variables(&derives);
    assert_eq!(fields.len(), 2);
    assert_eq!(fields[0].name, "id");
    assert_eq!(fields[0].ty, TypeExpr::Text);
    assert!(!fields[0].skip_if_absent);
    assert_eq!(fields[1].name, "limit");
    assert_eq!(fields[1].ty, TypeExpr::Optional(Box::new(TypeExpr::Int)));
    assert!(fields[1].skip_if_absent);
    assert!(ctors.is_empty());
}

#[test]
fn defaulted_variables_get_a_default_constructor() {
    let vars = vec![Variable {
        name: "limit".to_string(),
        ty: FieldType::Optional(Box::new(FieldType::Named("Int".to_string()))),
        default: Some(DefaultValue::Int(10)),
    }];
    let derives = variables_derives(None);
    let (_, _, ctors) = op("Search", OperationType::Query, vars).expand_variables(&derives);
    assert_eq!(ctors.len(), 1);
    assert_eq!(ctors[0].name, "limit");
    assert_eq!(ctors[0].ty, TypeExpr::Optional(Box::new(TypeExpr::Int)));
    assert_eq!(ctors[0].value, DefaultValue::Int(10));
}

#[test]
fn variable_requirements_mark_input_types() {
    let mut schema = Schema::new();
    schema.add_input(graphql_client_codegen::inputs::GqlInput {
        name: "SearchFilter".to_string(),
        description: None,
        fields: vec![],
    });
    let vars = vec![Variable {
        name: "filter".to_string(),
        ty: FieldType::Optional(Box::new(FieldType::Named("SearchFilter".to_string()))),
        default: None,
    }];
    op("Search", OperationType::Query, vars).compute_variable_requirements(&mut schema);
    assert!(schema.is_required("SearchFilter"));
}

#[test]
fn a_bare_selection_set_at_the_root_is_rejected() {
    let def = OperationDef::SelectionSet(Selection { fields: vec![] });
    assert_eq!(
        Operation::from_definition(def),
        Err(CodegenError::SelectionSetAtRoot)
    );
}

#[test]
fn an_unnamed_operation_is_rejected() {
    let def = OperationDef::Query(OpDefBody {
        name: None,
        variable_definitions: vec![],
        selection: Selection { fields: vec![] },
    });
    assert_eq!(Operation::from_definition(def), Err(CodegenError::UnnamedOperation));
}

#[test]
fn a_named_mutation_is_accepted() {
    let def = OperationDef::Mutation(OpDefBody {
        name: Some("AddCat".to_string()),
        variable_definitions: vec![],
        selection: Selection { fields: vec!["id".to_string()] },
    });
    let built = Operation::from_definition(def).unwrap();
    assert_eq!(built.name, "AddCat");
    assert!(matches!(built.operation_type, OperationType::Mutation));
    assert_eq!(built.selection.fields, vec!["id".to_string()]);
}

#[test]
fn the_operation_filter_reports_a_missing_name() {
    let ops = vec![op("Alpha", OperationType::Query, vec![])];
    assert_eq!(select_operation(&ops, "Alpha"), Ok(0));
    assert_eq!(
        select_operation(&ops, "Beta"),
        Err(CodegenError::OperationNotFound { operation: "Beta".to_string() })
    );
}
