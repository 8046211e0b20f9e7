use graphql_client_codegen::deprecation::{
    apply_deprecation_strategy, DeprecationStatus, DeprecationStrategy,
};
use graphql_client_codegen::errors::CodegenError;
use graphql_client_codegen::field_type::{FieldType, SdlType};
use graphql_client_codegen::shared::{
    field_rename_annotation, keyword_replace, parse_extra_derives, trim_str, variables_derives,
};

#[test]
fn reserved_words_get_a_trailing_underscore() {
    assert_eq!(keyword_replace("type"), "type_");
    assert_eq!(keyword_replace("crate"), "crate_");
    assert_eq!(keyword_replace("name"), "name");
}

#[test]
fn rename_directives_keep_the_original_wire_name() {
    assert_eq!(
        field_rename_annotation("pawsCount", "paws_count"),
        Some("pawsCount".to_string())
    );
    assert_eq!(field_rename_annotation("name", "name"), None);
}

#[test]
fn derive_lists_are_split_and_trimmed() {
    assert_eq!(
        parse_extra_derives("Clone, Serialize ,  Debug"),
        vec!["Clone".to_string(), "Serialize".to_string(), "Debug".to_string()]
    );
    assert_eq!(parse_extra_derives("Clone"), vec!["Clone".to_string()]);
    assert_eq!(trim_str("  padded  "), "padded");
    assert_eq!(trim_str("   "), "");
}

#[test]
fn the_serialization_derive_is_always_appended() {
    assert_eq!(variables_derives(None), vec!["Serialize".to_string()]);
    assert_eq!(
        variables_derives(Some("Clone")),
        vec!["Clone".to_string(), "Serialize".to_string()]
    );
}

#[test]
fn deny_rejects_a_deprecated_field_by_name() {
    let status = DeprecationStatus::Deprecated(Some("use catName".to_string()));
    assert_eq!(
        apply_deprecation_strategy(DeprecationStrategy::Deny, "name", &status),
        Err(CodegenError::DeprecatedField {
            field: "name".to_string(),
            reason: Some("use catName".to_string()),
        })
    );
}

#[test]
fn allow_emits_a_deprecated_field_silently() {
    let status = DeprecationStatus::Deprecated(None);
    assert_eq!(
        apply_deprecation_strategy(DeprecationStrategy::Allow, "name", &status),
        Ok(false)
    );
}

#[test]
fn warn_emits_a_deprecated_field_with_a_diagnostic() {
    let status = DeprecationStatus::Deprecated(None);
    assert_eq!(
        apply_deprecation_strategy(DeprecationStrategy::Warn, "name", &status),
        Ok(true)
    );
}

#[test]
fn current_fields_pass_under_every_strategy() {
    let status = DeprecationStatus::Current;
    assert_eq!(
        apply_deprecation_strategy(DeprecationStrategy::Deny, "name", &status),
        Ok(false)
    );
    assert_eq!(
        apply_deprecation_strategy(DeprecationStrategy::Warn, "name", &status),
        Ok(false)
    );
}

#[test]
fn the_default_strategy_warns() {
    assert_eq!(DeprecationStrategy::default(), DeprecationStrategy::Warn);
}

#[test]
fn type_references_track_their_innermost_name() {
    let t = FieldType::Optional(Box::new(FieldType::Vector(Box::new(FieldType::Named(
        "Cat".to_string(),
    )))));
    assert_eq!(t.inner_name_str(), "Cat");
    assert!(t.is_indirected());
    assert!(!FieldType::Named("Cat".to_string()).is_indirected());
    assert!(
        !FieldType::Optional(Box::new(FieldType::Named("Cat".to_string()))).is_indirected()
    );
}

#[test]
fn syntactic_types_are_nullable_unless_marked_non_null() {
    let id_non_null = SdlType::NonNull(Box::new(SdlType::Named("ID".to_string())));
    assert_eq!(
        FieldType::from_sdl(&id_non_null),
        FieldType::Named("ID".to_string())
    );
    let plain = SdlType::Named("Int".to_string());
    assert_eq!(
        FieldType::from_sdl(&plain),
        FieldType::Optional(Box::new(FieldType::Named("Int".to_string())))
    );
    let list = SdlType::NonNull(Box::new(SdlType::List(Box::new(SdlType::NonNull(
        Box::new(SdlType::Named("Cat".to_string())),
    )))));
    assert_eq!(
        FieldType::from_sdl(&list),
        FieldType::Vector(Box::new(FieldType::Named("Cat".to_string())))
    );
}
