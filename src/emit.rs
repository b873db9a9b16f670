use vstd::prelude::*;
use crate::compiler::TypeDescriptor;
use crate::directive::opt_view;
use crate::field::{ArgDescriptor, FieldDescriptor};

verus! {

/// A clause attached to a field registration.
pub enum RegClause {
    Argument { name: String, ty: String },
    Description { text: String },
    Deprecation { text: String },
}

/// One field-registration statement: the field's name and return type, then
/// its clauses in order.
pub struct FieldRegistration {
    pub name: String,
    pub ret: String,
    pub clauses: Vec<RegClause>,
}

/// The schema registration of a type: its field statements in order, then
/// the type's description.
pub struct Registration {
    pub fields: Vec<FieldRegistration>,
    pub description: Option<String>,
}

/// Reading one argument from the runtime argument bag by its converted name,
/// into a binding of the member's parameter name and type.
pub struct Extraction {
    pub key: String,
    pub binding: String,
    pub ty: String,
}

/// One branch of the dispatch routine.
pub enum DispatchBranch {
    /// Taken where the requested name equals `name`: extract the arguments,
    /// call `member`, and resolve its result.
    Field { name: String, member: String, extractions: Vec<Extraction> },
    /// The final branch: no field of `owner` has the requested name.
    Unmatched { owner: String },
}

/// The internal invariant violation of dispatch: a requested field that was
/// never registered.
#[derive(PartialEq, Eq, Structural, Debug)]
pub enum DispatchError {
    FieldNotFound,
}

pub open spec fn arg_clause(c: RegClause, a: ArgDescriptor) -> bool {
    match c {
        RegClause::Argument { name, ty } => name@ == a.name@ && ty@ == a.ty@,
        _ => false,
    }
}

pub open spec fn description_clause(c: RegClause, t: Seq<char>) -> bool {
    match c {
        RegClause::Description { text } => text@ == t,
        _ => false,
    }
}

pub open spec fn deprecation_clause(c: RegClause, t: Seq<char>) -> bool {
    match c {
        RegClause::Deprecation { text } => text@ == t,
        _ => false,
    }
}

pub open spec fn count_some(o: Option<String>) -> int {
    if o is Some {
        1
    } else {
        0
    }
}

/// Whether `fr` registers the field `d`: one argument clause per argument in
/// order, then the description if any, then the deprecation if any.
pub open spec fn registers(fr: FieldRegistration, d: FieldDescriptor) -> bool {
    let n = d.args@.len() as int;
    &&& fr.name@ == d.name@
    &&& fr.ret@ == d.ret@
    &&& fr.clauses@.len() == n + count_some(d.description) + count_some(d.deprecation)
    &&& forall|i: int| 0 <= i < n ==> arg_clause(#[trigger] fr.clauses@[i], d.args@[i])
    &&& (d.description is Some ==> description_clause(fr.clauses@[n], d.description->0@))
    &&& (d.deprecation is Some ==> deprecation_clause(
        fr.clauses@[n + count_some(d.description)],
        d.deprecation->0@,
    ))
}

pub open spec fn extracts(e: Extraction, a: ArgDescriptor) -> bool {
    e.key@ == a.name@ && e.binding@ == a.param@ && e.ty@ == a.ty@
}

/// Whether `b` is the dispatch branch of the field `d`.
pub open spec fn dispatches(b: DispatchBranch, d: FieldDescriptor) -> bool {
    match b {
        DispatchBranch::Field { name, member, extractions } => {
            &&& name@ == d.name@
            &&& member@ == d.member@
            &&& extractions@.len() == d.args@.len()
            &&& forall|i: int|
                0 <= i < d.args@.len() ==> extracts(#[trigger] extractions@[i], d.args@[i])
        },
        DispatchBranch::Unmatched { .. } => false,
    }
}

/// The index of the first field called `field`, if any.
pub open spec fn first_named(fields: Seq<FieldDescriptor>, field: Seq<char>) -> Option<int> {
    if exists|i: int| 0 <= i < fields.len() && (#[trigger] fields[i]).name@ == field {
        Some(
            choose|i: int|
                0 <= i < fields.len() && fields[i].name@ == field && forall|j: int|
                    0 <= j < i ==> (#[trigger] fields[j]).name@ != field,
        )
    } else {
        None
    }
}

fn register_field(d: &FieldDescriptor) -> (r: FieldRegistration)
    ensures
        registers(r, *d),
{
    let mut clauses: Vec<RegClause> = Vec::new();
    let mut i: usize = 0;
    while i < d.args.len()
        invariant
            i <= d.args@.len(),
            clauses@.len() == i,
            forall|j: int| 0 <= j < i ==> arg_clause(#[trigger] clauses@[j], d.args@[j]),
        decreases d.args.len() - i,
    {
        clauses.push(RegClause::Argument { name: d.args[i].name.clone(), ty: d.args[i].ty.clone() });
        i = i + 1;
    }
    match &d.description {
        Some(t) => clauses.push(RegClause::Description { text: t.clone() }),
        None => {},
    }
    match &d.deprecation {
        Some(t) => clauses.push(RegClause::Deprecation { text: t.clone() }),
        None => {},
    }
    FieldRegistration { name: d.name.clone(), ret: d.ret.clone(), clauses }
}

/// Emits the schema registration of a compiled type.
pub fn emit_registration(td: &TypeDescriptor) -> (r: Registration)
    ensures
        r.fields@.len() == td.fields@.len(),
        forall|i: int| 0 <= i < td.fields@.len() ==> registers(#[trigger] r.fields@[i], td.fields@[i]),
        opt_view(r.description) == opt_view(td.description),
{
    let mut fields: Vec<FieldRegistration> = Vec::new();
    let mut i: usize = 0;
    while i < td.fields.len()
        invariant
            i <= td.fields@.len(),
            fields@.len() == i,
            forall|j: int| 0 <= j < i ==> registers(#[trigger] fields@[j], td.fields@[j]),
        decreases td.fields.len() - i,
    {
        fields.push(register_field(&td.fields[i]));
        i = i + 1;
    }
    let description = match &td.description {
        Some(t) => Some(t.clone()),
        None => None,
    };
    Registration { fields, description }
}

fn dispatch_branch(d: &FieldDescriptor) -> (r: DispatchBranch)
    ensures
        dispatches(r, *d),
{
    let mut extractions: Vec<Extraction> = Vec::new();
    let mut i: usize = 0;
    while i < d.args.len()
        invariant
            i <= d.args@.len(),
            extractions@.len() == i,
            forall|j: int| 0 <= j < i ==> extracts(#[trigger] extractions@[j], d.args@[j]),
        decreases d.args.len() - i,
    {
        extractions.push(
            Extraction {
                key: d.args[i].name.clone(),
                binding: d.args[i].param.clone(),
                ty: d.args[i].ty.clone(),
            },
        );
        i = i + 1;
    }
    DispatchBranch::Field { name: d.name.clone(), member: d.member.clone(), extractions }
}

/// Emits the dispatch routine of a compiled type: one branch per field in
/// order, then the unconditional failure.
pub fn emit_dispatch(td: &TypeDescriptor) -> (r: Vec<DispatchBranch>)
    ensures
        r@.len() == td.fields@.len() + 1,
        forall|i: int| 0 <= i < td.fields@.len() ==> dispatches(#[trigger] r@[i], td.fields@[i]),
        r@.last() matches DispatchBranch::Unmatched { owner } && owner@ == td.name@,
{
    let mut branches: Vec<DispatchBranch> = Vec::new();
    let mut i: usize = 0;
    while i < td.fields.len()
        invariant
            i <= td.fields@.len(),
            branches@.len() == i,
            forall|j: int| 0 <= j < i ==> dispatches(#[trigger] branches@[j], td.fields@[j]),
        decreases td.fields.len() - i,
    {
        branches.push(dispatch_branch(&td.fields[i]));
        i = i + 1;
    }
    branches.push(DispatchBranch::Unmatched { owner: td.name.clone() });
    branches
}

/// The field that a runtime request for `field` reaches: the first one with
/// that name, or the internal error where none has it.
pub fn select_field(td: &TypeDescriptor, field: &String) -> (r: Result<usize, DispatchError>)
    ensures
        match first_named(td.fields@, field@) {
            Some(i) => r == Ok::<usize, DispatchError>(i as usize),
            None => r == Err::<usize, DispatchError>(DispatchError::FieldNotFound),
        },
{
    let mut i: usize = 0;
    while i < td.fields.len()
        invariant
            i <= td.fields@.len(),
            forall|j: int| 0 <= j < i ==> (#[trigger] td.fields@[j]).name@ != field@,
        decreases td.fields.len() - i,
    {
        if td.fields[i].name == *field {
            proof {
                assert(td.fields@[i as int].name@ == field@);
                let k = choose|k: int|
                    0 <= k < td.fields@.len() && td.fields@[k].name@ == field@ && forall|j: int|
                        0 <= j < k ==> (#[trigger] td.fields@[j]).name@ != field@;
                assert(0 <= k < td.fields@.len() && td.fields@[k].name@ == field@ && forall|j: int|
                        0 <= j < k ==> (#[trigger] td.fields@[j]).name@ != field@);
                if k < i {
                    assert(td.fields@[k].name@ != field@);
                } else if k > i {
                    assert(td.fields@[i as int].name@ != field@);
                }
            }
            return Ok(i);
        }
        i = i + 1;
    }
    Err(DispatchError::FieldNotFound)
}

} // verus!
