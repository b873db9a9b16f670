use vstd::prelude::*;
use crate::bridge::{camel_case_of, casing_safe, is_casing_safe, to_field_name};
use crate::context::{
    dir_get, directive_value, executor_ref_matches, opens_with_executor, CompileError,
};
use crate::directive::{graphql_directives, graphql_directives_of, opt_view};
use crate::syntax::{Method, Param};

verus! {

/// One argument of a field: its converted name, the member's parameter name,
/// and the token text of its type.
pub struct ArgDescriptor {
    pub name: String,
    pub param: String,
    pub ty: String,
}

/// The compiled form of one queryable member.
pub struct FieldDescriptor {
    pub name: String,
    pub member: String,
    pub args: Vec<ArgDescriptor>,
    pub ret: String,
    pub description: Option<String>,
    pub deprecation: Option<String>,
}

/// The name of a simple parameter.
pub open spec fn param_name(p: Param) -> Seq<char> {
    match p {
        Param::Named { name, .. } => name@,
        Param::Other => Seq::empty(),
    }
}

/// Whether the casing takes the member's identifier and the names of its
/// parameters after the executor.
pub open spec fn names_safe(m: Method) -> bool {
    casing_safe(m.ident@) && forall|i: int|
        1 <= i < m.params@.len() ==> casing_safe(#[trigger] param_name(m.params@[i]))
}

/// Whether a member becomes a field: it opens with the executor reference for
/// `ctx` and declares a return type.
pub open spec fn admitted(m: Method, ctx: Seq<char>) -> bool {
    opens_with_executor(m.params@, ctx) && m.output is Some
}

/// Whether every parameter is a simple name with a type.
pub open spec fn all_named(ps: Seq<Param>) -> bool {
    forall|i: int| 0 <= i < ps.len() ==> ps[i] is Named
}

/// Whether `a` describes the parameter `p`.
pub open spec fn describes_arg(a: ArgDescriptor, p: Param) -> bool {
    match p {
        Param::Named { name, ty_text, .. } => a.param@ == name@ && a.name@ == camel_case_of(name@)
            && a.ty@ == ty_text@,
        Param::Other => false,
    }
}

/// Whether `d` describes the member `m`: its converted name, its parameters
/// after the executor in order, its return type and its member directives.
pub open spec fn describes(d: FieldDescriptor, m: Method) -> bool {
    &&& d.member@ == m.ident@
    &&& d.name@ == camel_case_of(m.ident@)
    &&& m.output is Some
    &&& d.ret@ == m.output->0@
    &&& d.args@.len() + 1 == m.params@.len()
    &&& forall|i: int| 0 <= i < d.args@.len() ==> describes_arg(#[trigger] d.args@[i], m.params@[i + 1])
    &&& opt_view(d.description) == directive_value(graphql_directives_of(m.attrs@), "description"@)
    &&& opt_view(d.deprecation) == directive_value(graphql_directives_of(m.attrs@), "deprecated"@)
}

/// Builds the field of one member: `Ok(None)` where the member is no field,
/// an error where a parameter after the executor is not a simple name, or
/// where a name cannot be cased.
pub fn build_field(m: &Method, ctx: &String) -> (r: Result<Option<FieldDescriptor>, CompileError>)
    ensures
        !admitted(*m, ctx@) ==> r matches Ok(None),
        admitted(*m, ctx@) && !all_named(m.params@.drop_first()) ==> r == Err::<
            Option<FieldDescriptor>,
            CompileError,
        >(CompileError::InvalidParameter),
        admitted(*m, ctx@) && all_named(m.params@.drop_first()) && !names_safe(*m) ==> r == Err::<
            Option<FieldDescriptor>,
            CompileError,
        >(CompileError::UnsupportedIdentifier),
        admitted(*m, ctx@) && all_named(m.params@.drop_first()) && names_safe(*m) ==> (r matches Ok(
            Some(d),
        ) && describes(d, *m)),
{
    if m.params.len() == 0 {
        return Ok(None);
    }
    let opens = match &m.params[0] {
        Param::Named { ty, .. } => executor_ref_matches(ty, ctx),
        Param::Other => false,
    };
    if !opens {
        return Ok(None);
    }
    let ret = match &m.output {
        Some(t) => t.clone(),
        None => {
            return Ok(None);
        },
    };
    let mut i: usize = 1;
    while i < m.params.len()
        invariant
            1 <= i <= m.params@.len(),
            admitted(*m, ctx@),
            forall|j: int| 1 <= j < i ==> m.params@[j] is Named,
        decreases m.params.len() - i,
    {
        if let Param::Other = &m.params[i] {
            assert(!(m.params@.drop_first()[i - 1] is Named));
            return Err(CompileError::InvalidParameter);
        }
        i = i + 1;
    }
    assert(all_named(m.params@.drop_first()));
    if !is_casing_safe(&m.ident) {
        return Err(CompileError::UnsupportedIdentifier);
    }
    let mut args: Vec<ArgDescriptor> = Vec::new();
    let mut i: usize = 1;
    while i < m.params.len()
        invariant
            1 <= i <= m.params@.len(),
            admitted(*m, ctx@),
            all_named(m.params@.drop_first()),
            casing_safe(m.ident@),
            ret@ == m.output->0@,
            args@.len() + 1 == i,
            forall|j: int| 0 <= j < args@.len() ==> describes_arg(#[trigger] args@[j], m.params@[j + 1]),
            forall|j: int| 1 <= j < i ==> casing_safe(#[trigger] param_name(m.params@[j])),
        decreases m.params.len() - i,
    {
        assert(m.params@.drop_first()[i - 1] is Named);
        match &m.params[i] {
            Param::Named { name, ty_text, .. } => {
                if !is_casing_safe(name) {
                    assert(param_name(m.params@[i as int]) == name@);
                    assert(!names_safe(*m));
                    return Err(CompileError::UnsupportedIdentifier);
                }
                args.push(ArgDescriptor { name: to_field_name(name), param: name.clone(), ty: ty_text.clone() });
            },
            Param::Other => {
                return Err(CompileError::InvalidParameter);
            },
        }
        i = i + 1;
    }
    let dirs = graphql_directives(&m.attrs);
    let description = dir_get(&dirs, &"description".to_owned());
    let deprecation = dir_get(&dirs, &"deprecated".to_owned());
    Ok(Some(FieldDescriptor {
        name: to_field_name(&m.ident),
        member: m.ident.clone(),
        args,
        ret,
        description,
        deprecation,
    }))
}

} // verus!
