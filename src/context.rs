use vstd::prelude::*;
use crate::directive::{DirectiveMap, DirectiveValue};
use crate::syntax::{GenericArg, Param, PathSegment, Ty};

verus! {

/// The fatal configuration errors of a compilation.
#[derive(PartialEq, Eq, Structural, Debug)]
pub enum CompileError {
    /// The annotation is not on an implementation block.
    NotAnImpl,
    /// The implementing type is not a path.
    NotAStructImpl,
    /// Neither a `context` directive nor a `Context` binding names the context.
    MissingContext,
    /// The `context` directive does not hold a type.
    InvalidContext,
    /// An identifier has an `_` followed by a non-ASCII character, which the
    /// field-name casing cannot take.
    UnsupportedIdentifier,
    /// A member is a constant, a macro, an associated type or verbatim tokens.
    UnsupportedMember,
    /// A parameter after the executor is not a simple name with a type.
    InvalidParameter,
    /// Two fields convert to the same name.
    DuplicateField,
}

/// The map that an optional directive map denotes.
pub open spec fn dirs_view(d: Option<DirectiveMap>) -> Option<Map<Seq<char>, DirectiveValue>> {
    match d {
        Some(m) => Some(m@),
        None => None,
    }
}

/// The value of `key` in an optional directive map.
pub open spec fn directive_value(dirs: Option<Map<Seq<char>, DirectiveValue>>, key: Seq<char>) -> Option<
    Seq<char>,
> {
    match dirs {
        Some(m) => if m.contains_key(key) {
            Some(m[key].0)
        } else {
            None
        },
        None => None,
    }
}

/// The type text bound to `Context` by the first such binding among `args`.
pub open spec fn context_binding(args: Seq<GenericArg>) -> Option<Seq<char>>
    decreases args.len(),
{
    if args.len() == 0 {
        None
    } else {
        match args[0] {
            GenericArg::Binding { name, text } if name@ == "Context"@ => Some(text@),
            _ => context_binding(args.drop_first()),
        }
    }
}

/// The segments of a path type with at least one segment.
pub open spec fn path_segments(ty: Ty) -> Option<Seq<PathSegment>> {
    match ty {
        Ty::Path { segments } => if segments@.len() > 0 {
            Some(segments@)
        } else {
            None
        },
        _ => None,
    }
}

/// The `context` directive, if any, by its reading as a type.
pub open spec fn context_directive(dirs: Option<Map<Seq<char>, DirectiveValue>>) -> Option<
    Option<Seq<char>>,
> {
    match dirs {
        Some(m) => if m.contains_key("context"@) {
            Some(m["context"@].1)
        } else {
            None
        },
        None => None,
    }
}

/// The context that a compilation resolves: an explicit `context` directive
/// first, then a `Context` binding on the last segment of the implementing
/// type's path.
pub open spec fn context_of(dirs: Option<Map<Seq<char>, DirectiveValue>>, segments: Seq<PathSegment>) -> Result<
    Seq<char>,
    CompileError,
> {
    match context_directive(dirs) {
        Some(Some(t)) => Ok(t),
        Some(None) => Err(CompileError::InvalidContext),
        None => match context_binding(segments.last().args@) {
            Some(b) => Ok(b),
            None => Err(CompileError::MissingContext),
        },
    }
}

/// Whether `ty` is exactly `&Executor<ctx>`.
pub open spec fn is_executor_ref(ty: Ty, ctx: Seq<char>) -> bool {
    match ty {
        Ty::Reference { lifetime: None, mutable: false, elem } => match *elem {
            Ty::Path { segments } => segments@.len() == 1 && segments@[0].ident@ == "Executor"@
                && segments@[0].args@.len() == 1 && match segments@[0].args@[0] {
                GenericArg::Type { text } => text@ == ctx,
                _ => false,
            },
            _ => false,
        },
        _ => false,
    }
}

/// Whether a parameter list opens with the executor reference for `ctx`.
pub open spec fn opens_with_executor(params: Seq<Param>, ctx: Seq<char>) -> bool {
    params.len() > 0 && match params[0] {
        Param::Named { ty, .. } => is_executor_ref(ty, ctx),
        Param::Other => false,
    }
}

pub fn dir_get(dirs: &Option<DirectiveMap>, key: &String) -> (r: Option<String>)
    ensures
        match r {
            Some(v) => directive_value(dirs_view(*dirs), key@) == Some(v@),
            None => directive_value(dirs_view(*dirs), key@) is None,
        },
{
    match dirs {
        Some(m) => match m.get(key) {
            Some((v, _)) => Some(v),
            None => None,
        },
        None => None,
    }
}

fn find_context_binding(args: &Vec<GenericArg>) -> (r: Option<String>)
    ensures
        match r {
            Some(t) => context_binding(args@) == Some(t@),
            None => context_binding(args@) is None,
        },
{
    let context = "Context".to_owned();
    let mut i: usize = 0;
    assert(args@.subrange(0, args@.len() as int) =~= args@);
    while i < args.len()
        invariant
            i <= args@.len(),
            context@ == "Context"@,
            context_binding(args@) == context_binding(args@.subrange(i as int, args@.len() as int)),
        decreases args.len() - i,
    {
        let ghost tail = args@.subrange(i as int, args@.len() as int);
        assert(tail.drop_first() =~= args@.subrange(i + 1, args@.len() as int));
        assert(tail[0] == args@[i as int]);
        match &args[i] {
            GenericArg::Binding { name, text } => {
                if *name == context {
                    return Some(text.clone());
                }
            },
            _ => {},
        }
        i = i + 1;
    }
    None
}

/// Resolves the context type from the type-level directives and the
/// implementing type's path segments.
pub fn resolve_context(dirs: &Option<DirectiveMap>, segments: &Vec<PathSegment>) -> (r: Result<
    String,
    CompileError,
>)
    requires
        segments@.len() > 0,
    ensures
        match r {
            Ok(c) => context_of(dirs_view(*dirs), segments@) == Ok::<
                Seq<char>,
                CompileError,
            >(c@),
            Err(e) => context_of(dirs_view(*dirs), segments@) == Err::<
                Seq<char>,
                CompileError,
            >(e),
        },
{
    let key = "context".to_owned();
    let entry = match dirs {
        Some(m) => m.get(&key),
        None => None,
    };
    match entry {
        Some((_, Some(t))) => Ok(t),
        Some((_, None)) => Err(CompileError::InvalidContext),
        None => match find_context_binding(&segments[segments.len() - 1].args) {
            Some(b) => Ok(b),
            None => Err(CompileError::MissingContext),
        },
    }
}

/// Whether `ty` is exactly `&Executor<ctx>`.
pub fn executor_ref_matches(ty: &Ty, ctx: &String) -> (r: bool)
    ensures
        r == is_executor_ref(*ty, ctx@),
{
    match ty {
        Ty::Reference { lifetime: None, mutable: false, elem } => match &**elem {
            Ty::Path { segments } => {
                if segments.len() != 1 {
                    return false;
                }
                let executor = "Executor".to_owned();
                if !(segments[0].ident == executor) || segments[0].args.len() != 1 {
                    return false;
                }
                match &segments[0].args[0] {
                    GenericArg::Type { text } => *text == *ctx,
                    _ => false,
                }
            },
            _ => false,
        },
        _ => false,
    }
}

/// Whether a generic argument is a `Context` binding.
pub open spec fn is_context_binding(a: GenericArg) -> bool {
    a matches GenericArg::Binding { name, .. } && name@ == "Context"@
}

/// `args` without its `Context` bindings, the others kept in order.
pub open spec fn without_context(args: Seq<GenericArg>) -> Seq<GenericArg>
    decreases args.len(),
{
    if args.len() == 0 {
        Seq::empty()
    } else {
        let rest = without_context(args.drop_last());
        if is_context_binding(args.last()) {
            rest
        } else {
            rest.push(args.last())
        }
    }
}

/// Removes the `Context` bindings from the last segment of a path, which the
/// generated code no longer carries once the context is resolved.
pub fn strip_context_binding(segments: &mut Vec<PathSegment>)
    requires
        old(segments)@.len() > 0,
    ensures
        final(segments)@.len() == old(segments)@.len(),
        forall|i: int|
            0 <= i < old(segments)@.len() - 1 ==> final(segments)@[i] == old(segments)@[i],
        final(segments)@.last().ident == old(segments)@.last().ident,
        final(segments)@.last().args@ == without_context(old(segments)@.last().args@),
{
    let ghost before = segments@;
    let last = match segments.pop() {
        Some(l) => l,
        None => {
            return;
        },
    };
    let PathSegment { ident, mut args } = last;
    let ghost all = args@;
    let n = args.len();
    let mut kept: Vec<GenericArg> = Vec::new();
    let mut k: usize = 0;
    let context = "Context".to_owned();
    assert(all.subrange(0, 0) =~= Seq::<GenericArg>::empty());
    while k < n
        invariant
            n == all.len(),
            k <= n,
            context@ == "Context"@,
            args@ == all.subrange(k as int, n as int),
            kept@ == without_context(all.subrange(0, k as int)),
        decreases n - k,
    {
        let a = args.remove(0);
        assert(a == all[k as int]);
        assert(all.subrange(0, k + 1).drop_last() =~= all.subrange(0, k as int));
        assert(all.subrange(0, k + 1).last() == all[k as int]);
        assert(args@ =~= all.subrange(k + 1, n as int));
        let drop = match &a {
            GenericArg::Binding { name, .. } => *name == context,
            _ => false,
        };
        if !drop {
            kept.push(a);
        }
        k = k + 1;
    }
    assert(all.subrange(0, n as int) =~= all);
    segments.push(PathSegment { ident, args: kept });
    assert(segments@.drop_last() =~= before.drop_last());
}

} // verus!
