use graphql_client_codegen::codegen_options::{CodegenMode, GraphQLClientCodegenOptions};
use graphql_client_codegen::field_type::FieldType;
use graphql_client_codegen::generated_module::GeneratedModule;
use graphql_client_codegen::ir::{IntegrationIr, ResponseIr, Visibility};
use graphql_client_codegen::operations::{Operation, OperationType, Selection};
use graphql_client_codegen::variables::Variable;

fn sample_module() -> GeneratedModule {
    GeneratedModule {
        operation: Operation {
            name: "search_cats".to_string(),
            operation_type: OperationType::Query,
            variables: vec![Variable {
                name: "catName".to_string(),
                ty: FieldType::Named("String".to_string()),
                default: None,
            }],
            selection: Selection { fields: vec!["cats".to_string()] },
        },
        query_string: "query search_cats($catName: String!) { cats }".to_string(),
        response: ResponseIr { defs: vec![] },
    }
}

#[test]
fn the_module_carries_the_exact_query_text_and_names() {
    let options = GraphQLClientCodegenOptions::new(CodegenMode::Derive);
    let m = sample_module().to_module_ir(&options).unwrap();
    assert_eq!(m.name, "search_cats");
    assert_eq!(m.operation_name, "search_cats");
    assert_eq!(m.query_string, "query search_cats($catName: String!) { cats }");
    assert_eq!(m.visibility, Visibility::Inherited);
    assert_eq!(m.refresh_file, None);
    assert_eq!(m.variable_fields.len(), 1);
    assert_eq!(m.variable_fields[0].name, "cat_name");
    assert_eq!(m.variable_fields[0].rename, Some("catName".to_string()));
}

#[test]
fn standalone_mode_emits_a_free_standing_request_type() {
    let options = GraphQLClientCodegenOptions::new(CodegenMode::Cli);
    let m = sample_module().to_module_ir(&options).unwrap();
    match m.integration {
        IntegrationIr::Standalone { struct_name, fields, .. } => {
            assert_eq!(struct_name, "SearchCats");
            assert_eq!(fields.len(), 1);
            assert_eq!(fields[0].name, "cat_name");
        },
        IntegrationIr::Embedded { .. } => panic!("expected the standalone surface"),
    }
}

#[test]
fn embedded_mode_binds_the_capability_to_the_host_type() {
    let options = GraphQLClientCodegenOptions::new(CodegenMode::Derive);
    let m = sample_module().to_module_ir(&options).unwrap();
    match m.integration {
        IntegrationIr::Embedded { host_name, unit_variables } => {
            assert_eq!(host_name, "SearchCats");
            assert!(!unit_variables);
        },
        IntegrationIr::Standalone { .. } => panic!("expected the embedded surface"),
    }
}

#[test]
fn an_operation_without_variables_embeds_a_unit_variables_type() {
    let mut module = sample_module();
    module.operation.variables = vec![];
    let options = GraphQLClientCodegenOptions::new(CodegenMode::Derive);
    let m = module.to_module_ir(&options).unwrap();
    assert!(m.variable_fields.is_empty());
    match m.integration {
        IntegrationIr::Embedded { unit_variables, .. } => assert!(unit_variables),
        IntegrationIr::Standalone { .. } => panic!("expected the embedded surface"),
    }
}

#[test]
fn both_modes_agree_on_everything_but_the_integration_surface() {
    let cli = GraphQLClientCodegenOptions::new(CodegenMode::Cli);
    let derive = GraphQLClientCodegenOptions::new(CodegenMode::Derive);
    let m1 = sample_module().to_module_ir(&cli).unwrap();
    let m2 = sample_module().to_module_ir(&derive).unwrap();
    assert_eq!(m1.name, m2.name);
    assert_eq!(m1.operation_name, m2.operation_name);
    assert_eq!(m1.query_string, m2.query_string);
    assert_eq!(m1.visibility, m2.visibility);
    assert_eq!(m1.refresh_file, m2.refresh_file);
    assert_eq!(m1.response, m2.response);
    assert_eq!(m1.variables_derives, m2.variables_derives);
    assert_eq!(m1.variable_fields, m2.variable_fields);
    assert_eq!(m1.default_ctors, m2.default_ctors);
    assert_ne!(m1.integration, m2.integration);
}

#[test]
fn repeated_runs_emit_byte_identical_modules() {
    let mut options = GraphQLClientCodegenOptions::new(CodegenMode::Cli);
    options.set_input_derives("Clone, Debug".to_string());
    options.set_module_visibility(Visibility::Public);
    options.set_query_file("queries/search.graphql".to_string());
    let m1 = sample_module().to_module_ir(&options).unwrap();
    let m2 = sample_module().to_module_ir(&options).unwrap();
    assert_eq!(m1, m2);
    assert_eq!(m1.visibility, Visibility::Public);
    assert_eq!(m1.refresh_file, Some("queries/search.graphql".to_string()));
    assert_eq!(
        m1.variables_derives,
        vec!["Clone".to_string(), "Debug".to_string(), "Serialize".to_string()]
    );
}

#[test]
fn build_impls_hands_back_the_response_tree() {
    let module = sample_module();
    assert!(module.build_impls().is_empty());
}
