use vstd::prelude::*;
use crate::bridge::camel_case_of;
use crate::context::{
    context_of, dir_get, directive_value, dirs_view, path_segments, resolve_context,
    strip_context_binding, without_context, CompileError,
};
use crate::directive::{graphql_directives, graphql_directives_of};
use crate::directive::{opt_view, strip_directives, without_directives};
use crate::field::{admitted, all_named, build_field, describes, names_safe, FieldDescriptor};
use crate::syntax::{ImplBlock, ImplMember, Item, Method, PathSegment, Ty};

verus! {

/// The compiled unit: the implementing type's name, its context type, its
/// description and its fields in member order.
pub struct TypeDescriptor {
    pub name: String,
    pub context: String,
    pub description: Option<String>,
    pub fields: Vec<FieldDescriptor>,
}

/// The output of a compilation: the implementation block as it is emitted
/// again, and the descriptor that the registration and dispatch are made from.
pub struct Compiled {
    pub block: ImplBlock,
    pub descriptor: TypeDescriptor,
}

/// The fatal error that a member raises, if any.
pub open spec fn member_error(m: ImplMember, ctx: Seq<char>) -> Option<CompileError> {
    match m {
        ImplMember::Method { method } => if admitted(method, ctx) && !all_named(
            method.params@.drop_first(),
        ) {
            Some(CompileError::InvalidParameter)
        } else if admitted(method, ctx) && !names_safe(method) {
            Some(CompileError::UnsupportedIdentifier)
        } else {
            None
        },
        _ => Some(CompileError::UnsupportedMember),
    }
}

/// The error of the first member, in declaration order, that raises one.
pub open spec fn first_member_error(ms: Seq<ImplMember>, ctx: Seq<char>) -> Option<CompileError>
    decreases ms.len(),
{
    if ms.len() == 0 {
        None
    } else {
        match first_member_error(ms.drop_last(), ctx) {
            Some(e) => Some(e),
            None => member_error(ms.last(), ctx),
        }
    }
}

/// The members that become fields, in declaration order.
pub open spec fn admitted_methods(ms: Seq<ImplMember>, ctx: Seq<char>) -> Seq<Method>
    decreases ms.len(),
{
    if ms.len() == 0 {
        Seq::empty()
    } else {
        let rest = admitted_methods(ms.drop_last(), ctx);
        match ms.last() {
            ImplMember::Method { method } => if admitted(method, ctx) {
                rest.push(method)
            } else {
                rest
            },
            _ => rest,
        }
    }
}

/// Whether no two methods convert to the same field name.
pub open spec fn distinct_names(ms: Seq<Method>) -> bool {
    forall|i: int, j: int|
        0 <= i < j < ms.len() ==> camel_case_of(#[trigger] ms[i].ident@) != camel_case_of(
            #[trigger] ms[j].ident@,
        )
}

/// Whether `out` is the member `inp` without its directive lists.
pub open spec fn cleared(out: ImplMember, inp: ImplMember) -> bool {
    match (out, inp) {
        (ImplMember::Method { method: o }, ImplMember::Method { method: i }) => o.ident == i.ident
            && o.params == i.params && o.output == i.output && o.attrs@ == without_directives(i.attrs@),
        (ImplMember::Const, ImplMember::Const) => true,
        (ImplMember::Macro, ImplMember::Macro) => true,
        (ImplMember::Verbatim, ImplMember::Verbatim) => true,
        (ImplMember::Type, ImplMember::Type) => true,
        _ => false,
    }
}

/// Whether `out` is the path `segs` without the `Context` bindings of its last
/// segment.
pub open spec fn stripped(out: Ty, segs: Seq<PathSegment>) -> bool {
    match out {
        Ty::Path { segments } => {
            &&& segments@.len() == segs.len()
            &&& forall|i: int| 0 <= i < segs.len() - 1 ==> segments@[i] == segs[i]
            &&& segments@.last().ident == segs.last().ident
            &&& segments@.last().args@ == without_context(segs.last().args@)
        },
        _ => false,
    }
}

/// Whether `c` is what compiling `block` gives, with the path segments `segs`
/// of its type and the resolved context `ctx`.
pub open spec fn compiled_from(c: Compiled, block: ImplBlock, segs: Seq<PathSegment>, ctx: Seq<char>) -> bool {
    let adm = admitted_methods(block.members@, ctx);
    let d = c.descriptor;
    &&& d.name@ == segs.last().ident@
    &&& d.context@ == ctx
    &&& opt_view(d.description) == directive_value(graphql_directives_of(block.attrs@), "description"@)
    &&& d.fields@.len() == adm.len()
    &&& forall|i: int| 0 <= i < adm.len() ==> describes(#[trigger] d.fields@[i], adm[i])
    &&& c.block.attrs@.len() == 0
    &&& stripped(c.block.self_ty, segs)
    &&& c.block.members@.len() == block.members@.len()
    &&& forall|i: int| 0 <= i < block.members@.len() ==> cleared(#[trigger] c.block.members@[i], block.members@[i])
}

proof fn lemma_member_error_extends(ms: Seq<ImplMember>, k: int, ctx: Seq<char>)
    requires
        0 <= k <= ms.len(),
        first_member_error(ms.subrange(0, k), ctx) is Some,
    ensures
        first_member_error(ms, ctx) == first_member_error(ms.subrange(0, k), ctx),
    decreases ms.len() - k,
{
    if k < ms.len() {
        assert(ms.subrange(0, k + 1).drop_last() =~= ms.subrange(0, k));
        lemma_member_error_extends(ms, k + 1, ctx);
    } else {
        assert(ms.subrange(0, k) =~= ms);
    }
}

/// Whether no two fields carry the same name.
pub fn fields_distinct(fields: &Vec<FieldDescriptor>) -> (r: bool)
    ensures
        r == forall|i: int, j: int|
            0 <= i < j < fields@.len() ==> (#[trigger] fields@[i]).name@ != (#[trigger] fields@[j]).name@,
{
    let mut j: usize = 0;
    while j < fields.len()
        invariant
            j <= fields@.len(),
            forall|a: int, b: int|
                0 <= a < b < j ==> (#[trigger] fields@[a]).name@ != (#[trigger] fields@[b]).name@,
        decreases fields.len() - j,
    {
        let mut i: usize = 0;
        while i < j
            invariant
                i <= j < fields@.len(),
                forall|a: int, b: int|
                    0 <= a < b < j ==> (#[trigger] fields@[a]).name@ != (#[trigger] fields@[b]).name@,
                forall|a: int| 0 <= a < i ==> (#[trigger] fields@[a]).name@ != fields@[j as int].name@,
            decreases j - i,
        {
            if fields[i].name == fields[j].name {
                return false;
            }
            i = i + 1;
        }
        j = j + 1;
    }
    true
}

/// The fatal error that compiling `block` raises, or `None` where it compiles.
pub open spec fn failure_of(block: ImplBlock) -> Option<CompileError> {
    match path_segments(block.self_ty) {
        None => Some(CompileError::NotAStructImpl),
        Some(segs) => match context_of(graphql_directives_of(block.attrs@), segs) {
            Err(e) => Some(e),
            Ok(ctx) => match first_member_error(block.members@, ctx) {
                Some(e) => Some(e),
                None => if distinct_names(admitted_methods(block.members@, ctx)) {
                    None
                } else {
                    Some(CompileError::DuplicateField)
                },
            },
        },
    }
}

/// Whether `c` is a compilation of `block`, which compiles.
pub open spec fn compiles_to(block: ImplBlock, c: Compiled) -> bool {
    let segs = path_segments(block.self_ty)->0;
    let ctx = context_of(graphql_directives_of(block.attrs@), segs)->Ok_0;
    compiled_from(c, block, segs, ctx)
}

/// Compiles an annotated item into the block that is emitted again and the
/// descriptor of its fields; only an implementation block is accepted.
pub fn impl_gql_object(ast: Item) -> (r: Result<Compiled, CompileError>)
    ensures
        match ast {
            Item::Other => r == Err::<Compiled, CompileError>(CompileError::NotAnImpl),
            Item::Impl { block } => match failure_of(block) {
                Some(e) => r == Err::<Compiled, CompileError>(e),
                None => r matches Ok(c) && compiles_to(block, c),
            },
        },
{
    match ast {
        Item::Impl { block } => compile_block(block),
        Item::Other => Err(CompileError::NotAnImpl),
    }
}

/// Compiles an implementation block.
pub fn compile_block(block: ImplBlock) -> (r: Result<Compiled, CompileError>)
    ensures
        match failure_of(block) {
            Some(e) => r == Err::<Compiled, CompileError>(e),
            None => r matches Ok(c) && compiles_to(block, c),
        },
{
    let ghost block0 = block;
    let ImplBlock { attrs, self_ty, mut members } = block;
    let mut segments = match self_ty {
        Ty::Path { segments } => segments,
        _ => {
            return Err(CompileError::NotAStructImpl);
        },
    };
    if segments.len() == 0 {
        return Err(CompileError::NotAStructImpl);
    }
    let ghost segs = segments@;
    assert(path_segments(block0.self_ty) == Some(segs));
    let dirs = graphql_directives(&attrs);
    let context = match resolve_context(&dirs, &segments) {
        Ok(c) => c,
        Err(e) => {
            return Err(e);
        },
    };
    assert(dirs_view(dirs) == graphql_directives_of(block0.attrs@));
    assert(context_of(graphql_directives_of(block0.attrs@), segs) == Ok::<Seq<char>, CompileError>(
        context@,
    ));

    let ghost ms = members@;
    let ghost ctx = context@;
    assert(ms == block0.members@);
    let n = members.len();
    let mut out: Vec<ImplMember> = Vec::new();
    let mut fields: Vec<FieldDescriptor> = Vec::new();
    let mut k: usize = 0;
    assert(ms.subrange(0, 0) =~= Seq::<ImplMember>::empty());
    assert(ms.subrange(0, n as int) =~= ms);
    while k < n
        invariant
            n == ms.len(),
            k <= n,
            ctx == context@,
            ms == block0.members@,
            block == block0,
            segments@ == segs,
            segs.len() > 0,
            dirs_view(dirs) == graphql_directives_of(block0.attrs@),
            path_segments(block0.self_ty) == Some(segs),
            context_of(graphql_directives_of(block0.attrs@), segs) == Ok::<Seq<char>, CompileError>(
                ctx,
            ),
            members@ == ms.subrange(k as int, n as int),
            first_member_error(ms.subrange(0, k as int), ctx) is None,
            fields@.len() == admitted_methods(ms.subrange(0, k as int), ctx).len(),
            forall|i: int|
                0 <= i < fields@.len() ==> describes(
                    #[trigger] fields@[i],
                    admitted_methods(ms.subrange(0, k as int), ctx)[i],
                ),
            out@.len() == k,
            forall|i: int| 0 <= i < k ==> cleared(#[trigger] out@[i], ms[i]),
        decreases n - k,
    {
        let member = members.remove(0);
        assert(member == ms[k as int]);
        assert(ms.subrange(0, k + 1).drop_last() =~= ms.subrange(0, k as int));
        assert(ms.subrange(0, k + 1).last() == ms[k as int]);
        assert(members@ =~= ms.subrange(k + 1, n as int));
        match member {
            ImplMember::Method { method } => {
                match build_field(&method, &context) {
                    Ok(Some(d)) => {
                        fields.push(d);
                    },
                    Ok(None) => {},
                    Err(e) => {
                        proof {
                            lemma_member_error_extends(ms, k + 1, ctx);
                        }
                        return Err(e);
                    },
                }
                let Method { ident, attrs, params, output } = method;
                let attrs = strip_directives(attrs);
                out.push(ImplMember::Method { method: Method { ident, attrs, params, output } });
            },
            _ => {
                proof {
                    lemma_member_error_extends(ms, k + 1, ctx);
                }
                return Err(CompileError::UnsupportedMember);
            },
        }
        k = k + 1;
    }
    assert(ms.subrange(0, n as int) =~= ms);
    let ghost adm = admitted_methods(ms, ctx);
    let distinct = fields_distinct(&fields);
    assert forall|i: int, j: int| 0 <= i < j < adm.len() implies (fields@[i].name@
        != fields@[j].name@) == (camel_case_of(adm[i].ident@) != camel_case_of(adm[j].ident@)) by {
        assert(describes(fields@[i], adm[i]));
        assert(describes(fields@[j], adm[j]));
    }
    if !distinct {
        return Err(CompileError::DuplicateField);
    }
    assert forall|i: int, j: int| 0 <= i < j < adm.len() implies camel_case_of(adm[i].ident@)
        != camel_case_of(adm[j].ident@) by {
        assert(describes(fields@[i], adm[i]));
        assert(describes(fields@[j], adm[j]));
        assert(fields@[i].name@ != fields@[j].name@);
    }
    let description = dir_get(&dirs, &"description".to_owned());
    strip_context_binding(&mut segments);
    let self_name = segments[segments.len() - 1].ident.clone();
    let c = Compiled {
        block: ImplBlock { attrs: Vec::new(), self_ty: Ty::Path { segments }, members: out },
        descriptor: TypeDescriptor { name: self_name, context, description, fields },
    };
    Ok(c)
}

} // verus!
