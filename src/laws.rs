use vstd::prelude::*;
use crate::bridge::camel_case_of;
use crate::compiler::{
    admitted_methods, cleared, compiles_to, failure_of, first_member_error, member_error, Compiled,
};
use crate::context::{
    context_binding, context_of, directive_value, is_context_binding, path_segments,
    without_context, CompileError,
};
use crate::directive::{is_directive, without_directives, DirectiveValue};
use crate::directive::graphql_directives_of;
use crate::emit::{arg_clause, dispatches, registers, DispatchBranch, FieldRegistration, RegClause};
use crate::field::{admitted, describes, param_name, FieldDescriptor};
use crate::syntax::{Attribute, GenericArg, ImplBlock, ImplMember, Method, PathSegment};

verus! {

/// Every field of a compiled block is named by the casing of its member's
/// identifier, and no two fields share a name.
pub proof fn lemma_field_names(block: ImplBlock, c: Compiled)
    requires
        failure_of(block) is None,
        compiles_to(block, c),
    ensures
        ({
            let ctx = context_of(
                graphql_directives_of(block.attrs@),
                path_segments(block.self_ty)->0,
            )->Ok_0;
            let adm = admitted_methods(block.members@, ctx);
            &&& c.descriptor.fields@.len() == adm.len()
            &&& forall|i: int|
                0 <= i < adm.len() ==> (#[trigger] c.descriptor.fields@[i]).name@ == camel_case_of(
                    adm[i].ident@,
                )
            &&& forall|i: int, j: int|
                0 <= i < j < adm.len() ==> (#[trigger] c.descriptor.fields@[i]).name@
                    != (#[trigger] c.descriptor.fields@[j]).name@
        }),
{
    let ctx = context_of(graphql_directives_of(block.attrs@), path_segments(block.self_ty)->0)->Ok_0;
    let adm = admitted_methods(block.members@, ctx);
    assert forall|i: int| 0 <= i < adm.len() implies (#[trigger] c.descriptor.fields@[i]).name@
        == camel_case_of(adm[i].ident@) by {
        assert(describes(c.descriptor.fields@[i], adm[i]));
    }
    assert forall|i: int, j: int| 0 <= i < j < adm.len() implies (#[trigger] c.descriptor.fields@[i]).name@
        != (#[trigger] c.descriptor.fields@[j]).name@ by {
        assert(describes(c.descriptor.fields@[i], adm[i]));
        assert(describes(c.descriptor.fields@[j], adm[j]));
    }
}

/// For a field of member `m`, the argument order of its registration, the
/// extraction order of its dispatch branch and the member's parameters after
/// the executor are one and the same.
pub proof fn lemma_argument_order(
    m: Method,
    d: FieldDescriptor,
    fr: FieldRegistration,
    b: DispatchBranch,
)
    requires
        describes(d, m),
        registers(fr, d),
        dispatches(b, d),
    ensures
        b matches DispatchBranch::Field { extractions, .. } && extractions@.len() + 1
            == m.params@.len() && forall|i: int|
            0 <= i < extractions@.len() ==> {
                &&& (#[trigger] extractions@[i]).key@ == camel_case_of(param_name(m.params@[i + 1]))
                &&& extractions@[i].binding@ == param_name(m.params@[i + 1])
                &&& fr.clauses@[i] matches RegClause::Argument { name, .. } && name@
                    == extractions@[i].key@
            },
{
    if let DispatchBranch::Field { extractions, .. } = b {
        assert forall|i: int| 0 <= i < extractions@.len() implies {
            &&& (#[trigger] extractions@[i]).key@ == camel_case_of(param_name(m.params@[i + 1]))
            &&& extractions@[i].binding@ == param_name(m.params@[i + 1])
            &&& fr.clauses@[i] matches RegClause::Argument { name, .. } && name@
                == extractions@[i].key@
        } by {
            assert(arg_clause(fr.clauses@[i], d.args@[i]));
            assert(crate::field::describes_arg(d.args@[i], m.params@[i + 1]));
        }
    }
}

/// An explicit `context` directive decides the context, whatever `Context`
/// binding the implementing type carries.
pub proof fn lemma_context_precedence(
    dirs: Map<Seq<char>, DirectiveValue>,
    segs: Seq<PathSegment>,
)
    requires
        dirs.contains_key("context"@),
        segs.len() > 0,
    ensures
        context_of(Some(dirs), segs) == match dirs["context"@].1 {
            Some(t) => Ok::<Seq<char>, CompileError>(t),
            None => Err(CompileError::InvalidContext),
        },
{
}

/// Without a `context` directive, the `Context` binding on the implementing
/// type's last segment is the context.
pub proof fn lemma_context_from_binding(
    dirs: Option<Map<Seq<char>, DirectiveValue>>,
    segs: Seq<PathSegment>,
)
    requires
        directive_value(dirs, "context"@) is None,
        segs.len() > 0,
        context_binding(segs.last().args@) is Some,
    ensures
        context_of(dirs, segs) == Ok::<Seq<char>, CompileError>(
            context_binding(segs.last().args@)->0,
        ),
{
}

/// A member that is no field (no executor reference first, or no return type)
/// raises no error and contributes no field: removing it leaves the fields
/// as they are.
pub proof fn lemma_skipped_member(ms: Seq<ImplMember>, i: int, ctx: Seq<char>)
    requires
        0 <= i < ms.len(),
        ms[i] matches ImplMember::Method { method } && !admitted(method, ctx),
    ensures
        member_error(ms[i], ctx) is None,
        first_member_error(ms, ctx) == first_member_error(ms.remove(i), ctx),
        admitted_methods(ms, ctx) == admitted_methods(ms.remove(i), ctx),
    decreases ms.len(),
{
    if i == ms.len() - 1 {
        assert(ms.remove(i) =~= ms.drop_last());
    } else {
        lemma_skipped_member(ms.drop_last(), i, ctx);
        assert(ms.remove(i).drop_last() =~= ms.drop_last().remove(i));
        assert(ms.remove(i).last() == ms.last());
    }
}

/// A member of a compiled block that is no field stands in the emitted block
/// with its identifier, parameters and return type as they were, and its
/// annotations but the directive lists; with no directive list it stands
/// unmodified.
pub proof fn lemma_skipped_member_kept(block: ImplBlock, c: Compiled, i: int)
    requires
        failure_of(block) is None,
        compiles_to(block, c),
        0 <= i < block.members@.len(),
        block.members@[i] matches ImplMember::Method { method } && !admitted(
            method,
            context_of(graphql_directives_of(block.attrs@), path_segments(block.self_ty)->0)->Ok_0,
        ),
    ensures
        c.block.members@.len() == block.members@.len(),
        c.block.members@[i] matches ImplMember::Method { method: out } && (block.members@[i] matches ImplMember::Method { method }
            && out.ident == method.ident && out.params == method.params && out.output
            == method.output && out.attrs@ == without_directives(method.attrs@) && ((forall|
            j: int,
        | 0 <= j < method.attrs@.len() ==> !is_directive(#[trigger] method.attrs@[j]))
            ==> out.attrs@ == method.attrs@)),
{
    assert(cleared(c.block.members@[i], block.members@[i]));
    if let ImplMember::Method { method } = block.members@[i] {
        if forall|j: int| 0 <= j < method.attrs@.len() ==> !is_directive(#[trigger] method.attrs@[j]) {
            lemma_no_directives_kept(method.attrs@);
        }
    }
}

proof fn lemma_no_directives_kept(attrs: Seq<Attribute>)
    requires
        forall|j: int| 0 <= j < attrs.len() ==> !is_directive(#[trigger] attrs[j]),
    ensures
        without_directives(attrs) == attrs,
    decreases attrs.len(),
{
    if attrs.len() > 0 {
        assert forall|j: int| 0 <= j < attrs.drop_last().len() implies !is_directive(
            #[trigger] attrs.drop_last()[j],
        ) by {
            assert(attrs.drop_last()[j] == attrs[j]);
        }
        lemma_no_directives_kept(attrs.drop_last());
        assert(attrs.drop_last().push(attrs.last()) =~= attrs);
    }
}

proof fn lemma_without_directives_has_none(attrs: Seq<Attribute>)
    ensures
        forall|i: int|
            0 <= i < without_directives(attrs).len() ==> !is_directive(
                #[trigger] without_directives(attrs)[i],
            ),
    decreases attrs.len(),
{
    if attrs.len() > 0 {
        lemma_without_directives_has_none(attrs.drop_last());
        let rest = without_directives(attrs.drop_last());
        if !is_directive(attrs.last()) {
            assert forall|i: int| 0 <= i < rest.push(attrs.last()).len() implies !is_directive(
                #[trigger] rest.push(attrs.last())[i],
            ) by {
                if i < rest.len() {
                    assert(rest.push(attrs.last())[i] == rest[i]);
                }
            }
        }
    }
}

proof fn lemma_no_directive_found(attrs: Seq<Attribute>)
    requires
        forall|i: int| 0 <= i < attrs.len() ==> !is_directive(#[trigger] attrs[i]),
    ensures
        graphql_directives_of(attrs) is None,
    decreases attrs.len(),
{
    if attrs.len() > 0 {
        assert(!is_directive(attrs[0]));
        assert forall|i: int| 0 <= i < attrs.drop_first().len() implies !is_directive(
            #[trigger] attrs.drop_first()[i],
        ) by {
            assert(attrs.drop_first()[i] == attrs[i + 1]);
        }
        lemma_no_directive_found(attrs.drop_first());
    }
}

proof fn lemma_without_context_has_none(args: Seq<GenericArg>)
    ensures
        forall|i: int|
            0 <= i < without_context(args).len() ==> !is_context_binding(
                #[trigger] without_context(args)[i],
            ),
    decreases args.len(),
{
    if args.len() > 0 {
        lemma_without_context_has_none(args.drop_last());
        let rest = without_context(args.drop_last());
        if !is_context_binding(args.last()) {
            assert forall|i: int| 0 <= i < rest.push(args.last()).len() implies !is_context_binding(
                #[trigger] rest.push(args.last())[i],
            ) by {
                if i < rest.len() {
                    assert(rest.push(args.last())[i] == rest[i]);
                }
            }
        }
    }
}

proof fn lemma_no_binding(args: Seq<GenericArg>)
    requires
        forall|i: int| 0 <= i < args.len() ==> !is_context_binding(#[trigger] args[i]),
    ensures
        context_binding(args) is None,
    decreases args.len(),
{
    if args.len() > 0 {
        assert(!is_context_binding(args[0]));
        assert forall|i: int| 0 <= i < args.drop_first().len() implies !is_context_binding(
            #[trigger] args.drop_first()[i],
        ) by {
            assert(args.drop_first()[i] == args[i + 1]);
        }
        lemma_no_binding(args.drop_first());
    }
}

/// A compiled block carries no directive list any more: compiling it again
/// extracts no directive, and with neither a directive nor a binding left it
/// finds no context.
pub proof fn lemma_recompile_finds_nothing(block: ImplBlock, c: Compiled)
    requires
        failure_of(block) is None,
        compiles_to(block, c),
    ensures
        graphql_directives_of(c.block.attrs@) is None,
        forall|i: int|
            0 <= i < c.block.members@.len() ==> (#[trigger] c.block.members@[i] matches ImplMember::Method { method }
                ==> graphql_directives_of(method.attrs@) is None),
        failure_of(c.block) == Some(CompileError::MissingContext),
{
    let ctx = context_of(graphql_directives_of(block.attrs@), path_segments(block.self_ty)->0)->Ok_0;
    assert forall|i: int| 0 <= i < c.block.members@.len() implies (#[trigger] c.block.members@[i] matches ImplMember::Method { method }
        ==> graphql_directives_of(method.attrs@) is None) by {
        assert(cleared(c.block.members@[i], block.members@[i]));
        if let ImplMember::Method { method: inp } = block.members@[i] {
            lemma_without_directives_has_none(inp.attrs@);
            lemma_no_directive_found(without_directives(inp.attrs@));
        }
    }
    let segs = path_segments(block.self_ty)->0;
    lemma_without_context_has_none(segs.last().args@);
    lemma_no_binding(without_context(segs.last().args@));
}

} // verus!
