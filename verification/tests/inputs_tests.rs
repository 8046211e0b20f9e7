use graphql_client_codegen::deprecation::DeprecationStatus;
use graphql_client_codegen::field_type::FieldType;
use graphql_client_codegen::inputs::GqlInput;
use graphql_client_codegen::ir::{FieldInit, TypeExpr};
use graphql_client_codegen::objects::GqlObjectField;
use graphql_client_codegen::schema::Schema;
use graphql_client_codegen::shared::variables_derives;

fn field(name: &str, ty: FieldType) -> GqlObjectField {
    GqlObjectField {
        name: name.to_string(),
        description: None,
        type_: ty,
        deprecation: DeprecationStatus::Current,
    }
}

fn cat() -> GqlInput {
    GqlInput {
        name: "Cat".to_string(),
        description: None,
        fields: vec![
            field("pawsCount", FieldType::Named("Float".to_string())),
            field(
                "offsprings",
                FieldType::Vector(Box::new(FieldType::Named("Cat".to_string()))),
            ),
            field(
                "requirements",
                FieldType::Optional(Box::new(FieldType::Named("CatRequirements".to_string()))),
            ),
        ],
    }
}

#[test]
fn gql_input_to_rust() {
    let mut schema = Schema::new();
    schema.add_input(cat());
    let derives = variables_derives(Some("Clone"));
    let ir = cat().to_rust(&mut schema, &derives).unwrap();

    assert_eq!(ir.def.name, "Cat");
    assert_eq!(ir.def.derives, vec!["Clone".to_string(), "Serialize".to_string()]);

    assert_eq!(ir.def.fields.len(), 3);
    assert_eq!(ir.def.fields[0].name, "offsprings");
    assert_eq!(ir.def.fields[0].rename, None);
    assert!(!ir.def.fields[0].skip_if_absent);
    assert_eq!(
        ir.def.fields[0].ty,
        TypeExpr::Sequence(Box::new(TypeExpr::Named("Cat".to_string())))
    );
    assert_eq!(ir.def.fields[1].name, "paws_count");
    assert_eq!(ir.def.fields[1].rename, Some("pawsCount".to_string()));
    assert_eq!(ir.def.fields[1].ty, TypeExpr::Float);
    assert_eq!(ir.def.fields[2].name, "requirements");
    assert!(ir.def.fields[2].skip_if_absent);
    assert_eq!(
        ir.def.fields[2].ty,
        TypeExpr::Optional(Box::new(TypeExpr::Named("CatRequirements".to_string())))
    );

    assert_eq!(ir.ctor_params.len(), 2);
    assert_eq!(ir.ctor_params[0].name, "offsprings");
    assert_eq!(ir.ctor_params[1].name, "paws_count");
    assert_eq!(
        ir.ctor_inits,
        vec![
            FieldInit::FromParam("offsprings".to_string()),
            FieldInit::FromParam("paws_count".to_string()),
            FieldInit::Absent,
        ]
    );
}

#[test]
fn reachability_closure_marks_nested_inputs() {
    let mut schema = Schema::new();
    schema.add_input(GqlInput {
        name: "A".to_string(),
        description: None,
        fields: vec![field("b", FieldType::Named("B".to_string()))],
    });
    schema.add_input(GqlInput {
        name: "B".to_string(),
        description: None,
        fields: vec![field("x", FieldType::Named("Int".to_string()))],
    });
    schema.require("A");
    assert!(schema.is_required("A"));
    assert!(schema.is_required("B"));
    assert!(!schema.is_required("Int"));
}

#[test]
fn require_on_unknown_name_is_a_no_op() {
    let mut schema = Schema::new();
    schema.require("Unknown");
    assert!(!schema.is_required("Unknown"));
}

#[test]
fn recursive_self_reference_is_boxed() {
    let category = GqlInput {
        name: "Category".to_string(),
        description: None,
        fields: vec![
            field("name", FieldType::Named("String".to_string())),
            field("parent", FieldType::Named("Category".to_string())),
            field(
                "maybeParent",
                FieldType::Optional(Box::new(FieldType::Named("Category".to_string()))),
            ),
            field(
                "children",
                FieldType::Vector(Box::new(FieldType::Named("Category".to_string()))),
            ),
        ],
    };
    let mut schema = Schema::new();
    schema.add_input(category.clone());
    assert!(category.is_recursive_without_indirection(&schema));

    let derives = variables_derives(None);
    let ir = category.to_rust(&mut schema, &derives).unwrap();
    // fields sorted: children, maybeParent, name, parent
    assert_eq!(ir.def.fields[0].name, "children");
    assert_eq!(
        ir.def.fields[0].ty,
        TypeExpr::Sequence(Box::new(TypeExpr::Named("Category".to_string())))
    );
    assert_eq!(ir.def.fields[1].name, "maybe_parent");
    assert_eq!(
        ir.def.fields[1].ty,
        TypeExpr::Optional(Box::new(TypeExpr::Boxed(Box::new(TypeExpr::Named(
            "Category".to_string()
        )))))
    );
    assert_eq!(ir.def.fields[2].name, "name");
    assert_eq!(ir.def.fields[2].ty, TypeExpr::Text);
    assert_eq!(ir.def.fields[3].name, "parent");
    assert_eq!(
        ir.def.fields[3].ty,
        TypeExpr::Boxed(Box::new(TypeExpr::Named("Category".to_string())))
    );
}

#[test]
fn non_recursive_input_is_not_boxed() {
    let mut schema = Schema::new();
    schema.add_input(cat());
    let c = cat();
    assert!(!c.is_recursive_without_indirection(&schema));
    assert!(!c.contains_type_without_indirection(&schema, "Cat"));
}

#[test]
fn optional_fields_stay_out_of_the_constructor() {
    let input = GqlInput {
        name: "Filter".to_string(),
        description: None,
        fields: vec![
            field("a", FieldType::Named("Int".to_string())),
            field(
                "b",
                FieldType::Optional(Box::new(FieldType::Named("String".to_string()))),
            ),
        ],
    };
    let mut schema = Schema::new();
    schema.add_input(input.clone());
    let derives = variables_derives(None);
    let ir = input.to_rust(&mut schema, &derives).unwrap();
    assert_eq!(ir.ctor_params.len(), 1);
    assert_eq!(ir.ctor_params[0].name, "a");
    assert_eq!(ir.ctor_params[0].ty, TypeExpr::Int);
    assert_eq!(
        ir.ctor_inits,
        vec![FieldInit::FromParam("a".to_string()), FieldInit::Absent]
    );
    assert!(ir.def.fields[1].skip_if_absent);
}

#[test]
fn keyword_named_input_and_fields_are_renamed() {
    let input = GqlInput {
        name: "type".to_string(),
        description: None,
        fields: vec![field("match", FieldType::Named("Int".to_string()))],
    };
    let mut schema = Schema::new();
    schema.add_input(input.clone());
    let derives = variables_derives(None);
    let ir = input.to_rust(&mut schema, &derives).unwrap();
    assert_eq!(ir.def.name, "type_");
    assert_eq!(ir.def.fields[0].name, "match_");
    // the directive preserves the original wire name across the rename
    assert_eq!(ir.def.fields[0].rename, Some("match".to_string()));
}

#[test]
fn fields_are_sorted_by_ordinal_name_order() {
    let input = GqlInput {
        name: "Sorted".to_string(),
        description: None,
        fields: vec![
            field("b", FieldType::Named("Int".to_string())),
            field("c2", FieldType::Named("Int".to_string())),
            field("a", FieldType::Named("Int".to_string())),
            field("c10", FieldType::Named("Int".to_string())),
        ],
    };
    let mut schema = Schema::new();
    schema.add_input(input.clone());
    let derives = variables_derives(None);
    let ir = input.to_rust(&mut schema, &derives).unwrap();
    let names: Vec<&str> = ir.def.fields.iter().map(|f| f.name.as_str()).collect();
    assert_eq!(names, vec!["a", "b", "c10", "c2"]);
}

#[test]
fn to_rust_output_is_deterministic() {
    let mut schema1 = Schema::new();
    schema1.add_input(cat());
    let mut schema2 = Schema::new();
    schema2.add_input(cat());
    let derives = variables_derives(Some("Clone"));
    let ir1 = cat().to_rust(&mut schema1, &derives).unwrap();
    let ir2 = cat().to_rust(&mut schema2, &derives).unwrap();
    assert_eq!(ir1, ir2);
}
