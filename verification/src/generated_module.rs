//! The module assembler: one self-contained emission unit per operation,
//! carrying the exact query text, the variables type, the response type
//! tree, and the mode-specific integration surface.

use vstd::prelude::*;
use crate::casing::{camel_of, snake_of, to_camel_case, to_snake_case};
use crate::codegen_options::{CodegenMode, GraphQLClientCodegenOptions, OptionsView};
use crate::errors::CodegenError;
use crate::ir::{
    IntegrationIr, IntegrationIrView, ModuleIr, ModuleIrView, ResponseIr, ResponseIrView,
    StructDefIr, Visibility,
};
use crate::operations::{default_ctors_of, variable_field_of, Operation, OperationView};
use crate::shared::variables_derives_of;
use crate::variables::VariableView;

verus! {

/// The parameters needed to generate the emission unit for one operation.
pub struct GeneratedModule {
    pub operation: Operation,
    pub query_string: String,
    pub response: ResponseIr,
}

/// The fields of the variables type: one per declared variable, none at
/// all for an operation without variables.
pub open spec fn module_variable_fields(op: OperationView) -> Seq<crate::ir::FieldIrView> {
    if op.variables.len() == 0 {
        Seq::<crate::ir::FieldIrView>::empty()
    } else {
        op.variables.map_values(|v: VariableView| variable_field_of(v))
    }
}

/// The integration surface for one operation under the configured mode:
/// a free-standing request-building type in standalone generation, a
/// capability bound to the operation's own camel-cased type otherwise.
pub open spec fn integration_of(op: OperationView, opts: OptionsView) -> IntegrationIrView {
    match opts.mode {
        CodegenMode::Cli => IntegrationIrView::Standalone {
            struct_name: camel_of(op.name),
            derives: variables_derives_of(opts.input_derives),
            fields: module_variable_fields(op),
        },
        CodegenMode::Derive => IntegrationIrView::Embedded {
            host_name: camel_of(op.name),
            unit_variables: op.variables.len() == 0,
        },
    }
}

/// The whole emission unit for one operation: a deterministic function of
/// the operation, the query text, the response tree and the configuration.
pub open spec fn module_ir_of(
    op: OperationView,
    query_string: Seq<char>,
    response: ResponseIrView,
    opts: OptionsView,
) -> ModuleIrView {
    ModuleIrView {
        name: snake_of(op.name),
        visibility: match opts.module_visibility {
            Option::Some(v) => v,
            Option::None => Visibility::Inherited,
        },
        operation_name: op.name,
        query_string: query_string,
        refresh_file: opts.query_file,
        response: response,
        variables_derives: variables_derives_of(opts.input_derives),
        variable_fields: module_variable_fields(op),
        default_ctors: if op.variables.len() == 0 {
            Seq::<crate::ir::DefaultCtorIrView>::empty()
        } else {
            default_ctors_of(op.variables)
        },
        integration: integration_of(op, opts),
    }
}

impl GeneratedModule {
    /// The response type items that go inside the module, as resolved by
    /// the external selection-resolution collaborator.
    pub fn build_impls(&self) -> (r: Vec<StructDefIr>)
        ensures
            r@.map_values(|d: StructDefIr| d@) == self.response@.defs,
    {
        let r = self.response.clone_response();
        r.defs
    }

    /// Assembles the emission unit for this operation under the given
    /// configuration.  The unit is a pure function of its inputs, so
    /// repeated runs over the same inputs emit the same module.
    pub fn to_module_ir(&self, options: &GraphQLClientCodegenOptions) -> (r: Result<
        ModuleIr,
        CodegenError,
    >)
        ensures
            r matches Result::Ok(m) && m@ == module_ir_of(
                self.operation@,
                self.query_string@,
                self.response@,
                options@,
            ),
    {
        let module_name = to_snake_case(self.operation.name.as_str());
        let operation_name_ident = to_camel_case(self.operation.name.as_str());
        let module_visibility = options.module_visibility();
        let operation_name_literal = self.operation.name.clone();
        let refresh_file: Option<String> = match options.query_file() {
            Option::Some(p) => Option::Some(p.to_owned()),
            Option::None => Option::None,
        };
        let derives = crate::shared::variables_derives(options.input_derives());
        let (variables_derives, variable_fields, default_ctors) = self.operation.expand_variables(
            &derives,
        );
        let integration: IntegrationIr = match options.mode() {
            CodegenMode::Cli => {
                let mut standalone_fields: Vec<crate::ir::FieldIr> = Vec::new();
                let mut i: usize = 0;
                while i < variable_fields.len()
                    invariant
                        i <= variable_fields@.len(),
                        standalone_fields@.map_values(|f: crate::ir::FieldIr| f@)
                            == variable_fields@.map_values(|f: crate::ir::FieldIr| f@)
                            .subrange(0, i as int),
                    decreases variable_fields@.len() - i,
                {
                    let ghost before = standalone_fields@.map_values(
                        |f: crate::ir::FieldIr| f@,
                    );
                    standalone_fields.push(variable_fields[i].clone_field());
                    proof {
                        assert(standalone_fields@.map_values(|f: crate::ir::FieldIr| f@)
                            =~= before.push(variable_fields@[i as int]@));
                        assert(standalone_fields@.map_values(|f: crate::ir::FieldIr| f@)
                            =~= variable_fields@.map_values(|f: crate::ir::FieldIr| f@)
                            .subrange(0, i + 1));
                    }
                    i = i + 1;
                }
                proof {
                    assert(variable_fields@.map_values(|f: crate::ir::FieldIr| f@).subrange(
                        0,
                        variable_fields@.len() as int,
                    ) =~= variable_fields@.map_values(|f: crate::ir::FieldIr| f@));
                }
                IntegrationIr::Standalone {
                    struct_name: operation_name_ident,
                    derives: crate::names::clone_names(&variables_derives),
                    fields: standalone_fields,
                }
            },
            CodegenMode::Derive => IntegrationIr::Embedded {
                host_name: operation_name_ident,
                unit_variables: self.operation.variables.len() == 0,
            },
        };
        proof {
            if self.operation@.variables.len() == 0 {
                assert(variable_fields@.map_values(|f: crate::ir::FieldIr| f@)
                    =~= module_variable_fields(self.operation@));
                assert(default_ctors@.map_values(|c: crate::ir::DefaultCtorIr| c@)
                    =~= Seq::<crate::ir::DefaultCtorIrView>::empty());
            }
        }
        let m = ModuleIr {
            name: module_name,
            visibility: module_visibility,
            operation_name: operation_name_literal,
            query_string: self.query_string.clone(),
            refresh_file,
            response: self.response.clone_response(),
            variables_derives,
            variable_fields,
            default_ctors,
            integration,
        };
        proof {
            assert(m@.integration == integration_of(self.operation@, options@));
            assert(m@ == module_ir_of(
                self.operation@,
                self.query_string@,
                self.response@,
                options@,
            ));
        }
        Result::Ok(m)
    }
}

} // verus!
