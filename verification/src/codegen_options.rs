//! The configuration surface of one generation run, threaded explicitly
//! into every component call.

use vstd::prelude::*;
use crate::deprecation::DeprecationStrategy;
use crate::ir::Visibility;
use crate::names::opt_view;

verus! {

/// Which context this code generation effort takes place in.
#[derive(Clone, Copy, PartialEq, Eq, Structural, Debug)]
pub enum CodegenMode {
    /// A free-standing build step producing a library of request/response
    /// types.
    Cli,
    /// A generator attached to an existing user-defined host type.
    Derive,
}

/// Used to configure code generation.
pub struct GraphQLClientCodegenOptions {
    /// Which context this code generation effort takes place in.
    pub mode: CodegenMode,
    /// Name of the one operation to generate code for; all operations when
    /// unset.
    pub operation_name: Option<String>,
    /// The name of the implementation target type.
    pub struct_name: Option<String>,
    /// The name of the host type the generated capability attaches to.
    struct_ident: Option<String>,
    /// Comma-separated list of additional derives for variables and input
    /// types.
    input_derives: Option<String>,
    /// Comma-separated list of additional derives for response types.
    response_derives: Option<String>,
    /// The deprecation strategy to adopt.
    deprecation_strategy: Option<DeprecationStrategy>,
    /// Target module visibility.
    module_visibility: Option<Visibility>,
    /// A path bound into the emitted module so that builds are refreshed
    /// when the query file changes; never read here.
    query_file: Option<String>,
    /// A path bound into the emitted module so that builds are refreshed
    /// when the schema file changes; never read here.
    schema_file: Option<String>,
}

/// The mathematical value of a [`GraphQLClientCodegenOptions`].
pub struct OptionsView {
    pub mode: CodegenMode,
    pub operation_name: Option<Seq<char>>,
    pub struct_name: Option<Seq<char>>,
    pub struct_ident: Option<Seq<char>>,
    pub input_derives: Option<Seq<char>>,
    pub response_derives: Option<Seq<char>>,
    pub deprecation_strategy: Option<DeprecationStrategy>,
    pub module_visibility: Option<Visibility>,
    pub query_file: Option<Seq<char>>,
    pub schema_file: Option<Seq<char>>,
}

impl View for GraphQLClientCodegenOptions {
    type V = OptionsView;

    closed spec fn view(&self) -> OptionsView {
        OptionsView {
            mode: self.mode,
            operation_name: opt_view(self.operation_name),
            struct_name: opt_view(self.struct_name),
            struct_ident: opt_view(self.struct_ident),
            input_derives: opt_view(self.input_derives),
            response_derives: opt_view(self.response_derives),
            deprecation_strategy: self.deprecation_strategy,
            module_visibility: self.module_visibility,
            query_file: opt_view(self.query_file),
            schema_file: opt_view(self.schema_file),
        }
    }
}

impl GraphQLClientCodegenOptions {
    /// Creates an empty options value with default parameters.
    pub fn new(mode: CodegenMode) -> (r: GraphQLClientCodegenOptions)
        ensures
            r@ == (OptionsView {
                mode: mode,
                operation_name: Option::None,
                struct_name: Option::None,
                struct_ident: Option::None,
                input_derives: Option::None,
                response_derives: Option::None,
                deprecation_strategy: Option::None,
                module_visibility: Option::None,
                query_file: Option::None,
                schema_file: Option::None,
            }),
    {
        GraphQLClientCodegenOptions {
            mode,
            operation_name: Option::None,
            struct_name: Option::None,
            struct_ident: Option::None,
            input_derives: Option::None,
            response_derives: Option::None,
            deprecation_strategy: Option::None,
            module_visibility: Option::None,
            query_file: Option::None,
            schema_file: Option::None,
        }
    }

    /// Which context this code generation effort takes place in.
    pub fn mode(&self) -> (r: CodegenMode)
        ensures
            r == self@.mode,
    {
        self.mode
    }

    /// The visibility to apply to the emitted module: the configured one,
    /// or inherited visibility when none is set.
    pub fn module_visibility(&self) -> (r: Visibility)
        ensures
            r == (match self@.module_visibility {
                Option::Some(v) => v,
                Option::None => Visibility::Inherited,
            }),
    {
        match self.module_visibility {
            Option::Some(v) => v,
            Option::None => Visibility::Inherited,
        }
    }

    /// The deprecation strategy to adopt: the configured one, or the
    /// default of warning on deprecated uses.
    pub fn deprecation_strategy(&self) -> (r: DeprecationStrategy)
        ensures
            r == (match self@.deprecation_strategy {
                Option::Some(v) => v,
                Option::None => DeprecationStrategy::Warn,
            }),
    {
        match self.deprecation_strategy {
            Option::Some(v) => v,
            Option::None => DeprecationStrategy::Warn,
        }
    }

    /// Binds the query-file path that refreshes builds of the emitted
    /// module.
    pub fn set_query_file(&mut self, path: String)
        ensures
            final(self)@ == (OptionsView { query_file: Option::Some(path@), ..old(self)@ }),
    {
        self.query_file = Option::Some(path);
    }

    /// Comma-separated list of additional derives for variables and input
    /// types.
    pub fn input_derives(&self) -> (r: Option<&str>)
        ensures
            (match r {
                Option::Some(s) => Option::Some(s@),
                Option::None => Option::<Seq<char>>::None,
            }) == self@.input_derives,
    {
        match &self.input_derives {
            Option::Some(s) => Option::Some(s.as_str()),
            Option::None => Option::None,
        }
    }

    /// Configures the additional derives for variables and input types.
    pub fn set_input_derives(&mut self, input_derives: String)
        ensures
            final(self)@ == (OptionsView {
                input_derives: Option::Some(input_derives@),
                ..old(self)@
            }),
    {
        self.input_derives = Option::Some(input_derives);
    }

    /// Comma-separated list of additional derives for response types.
    pub fn response_derives(&self) -> (r: Option<&str>)
        ensures
            (match r {
                Option::Some(s) => Option::Some(s@),
                Option::None => Option::<Seq<char>>::None,
            }) == self@.response_derives,
    {
        match &self.response_derives {
            Option::Some(s) => Option::Some(s.as_str()),
            Option::None => Option::None,
        }
    }

    /// Configures the additional derives for response types.
    pub fn set_response_derives(&mut self, response_derives: String)
        ensures
            final(self)@ == (OptionsView {
                response_derives: Option::Some(response_derives@),
                ..old(self)@
            }),
    {
        self.response_derives = Option::Some(response_derives);
    }

    /// Configures the deprecation strategy to adopt.
    pub fn set_deprecation_strategy(&mut self, deprecation_strategy: DeprecationStrategy)
        ensures
            final(self)@ == (OptionsView {
                deprecation_strategy: Option::Some(deprecation_strategy),
                ..old(self)@
            }),
    {
        self.deprecation_strategy = Option::Some(deprecation_strategy);
    }

    /// Configures the target module visibility.
    pub fn set_module_visibility(&mut self, visibility: Visibility)
        ensures
            final(self)@ == (OptionsView {
                module_visibility: Option::Some(visibility),
                ..old(self)@
            }),
    {
        self.module_visibility = Option::Some(visibility);
    }

    /// Configures the name of the implementation target type.
    pub fn set_struct_name(&mut self, struct_name: String)
        ensures
            final(self)@ == (OptionsView {
                struct_name: Option::Some(struct_name@),
                ..old(self)@
            }),
    {
        self.struct_name = Option::Some(struct_name);
    }

    /// Configures the name of the one operation to generate code for.
    pub fn set_operation_name(&mut self, operation_name: String)
        ensures
            final(self)@ == (OptionsView {
                operation_name: Option::Some(operation_name@),
                ..old(self)@
            }),
    {
        self.operation_name = Option::Some(operation_name);
    }

    /// The path bound into the emitted module for schema-file refreshes.
    pub fn schema_file(&self) -> (r: Option<&str>)
        ensures
            (match r {
                Option::Some(s) => Option::Some(s@),
                Option::None => Option::<Seq<char>>::None,
            }) == self@.schema_file,
    {
        match &self.schema_file {
            Option::Some(s) => Option::Some(s.as_str()),
            Option::None => Option::None,
        }
    }

    /// The path bound into the emitted module for query-file refreshes.
    pub fn query_file(&self) -> (r: Option<&str>)
        ensures
            (match r {
                Option::Some(s) => Option::Some(s@),
                Option::None => Option::<Seq<char>>::None,
            }) == self@.query_file,
    {
        match &self.query_file {
            Option::Some(s) => Option::Some(s.as_str()),
            Option::None => Option::None,
        }
    }

    /// Configures the name of the host type the generated capability
    /// attaches to.
    pub fn set_struct_ident(&mut self, ident: String)
        ensures
            final(self)@ == (OptionsView { struct_ident: Option::Some(ident@), ..old(self)@ }),
    {
        self.struct_ident = Option::Some(ident);
    }

    /// The name of the host type the generated capability attaches to.
    pub fn struct_ident(&self) -> (r: Option<&str>)
        ensures
            (match r {
                Option::Some(s) => Option::Some(s@),
                Option::None => Option::<Seq<char>>::None,
            }) == self@.struct_ident,
    {
        match &self.struct_ident {
            Option::Some(s) => Option::Some(s.as_str()),
            Option::None => Option::None,
        }
    }
}

} // verus!
