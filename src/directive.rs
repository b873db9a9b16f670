use vstd::prelude::*;
use crate::syntax::{Attribute, Lit, NestedMeta};

verus! {

/// The key/value directives found in one annotation, in the order they were
/// written, each value with its reading as a type; a later entry for a key
/// overrides an earlier one.
pub struct DirectiveMap {
    pub entries: Vec<(String, String, Option<String>)>,
}

/// What a directive key maps to: its string value, and the token text of that
/// value read as a type, where it reads as one.
pub type DirectiveValue = (Seq<char>, Option<Seq<char>>);

pub open spec fn opt_view(o: Option<String>) -> Option<Seq<char>> {
    match o {
        Some(s) => Some(s@),
        None => None,
    }
}

/// The map that a sequence of entries denotes: later entries win.
pub open spec fn pairs_map(s: Seq<(String, String, Option<String>)>) -> Map<Seq<char>, DirectiveValue>
    decreases s.len(),
{
    if s.len() == 0 {
        Map::empty()
    } else {
        pairs_map(s.drop_last()).insert(s.last().0@, (s.last().1@, opt_view(s.last().2)))
    }
}

/// The directives of a nested list: each `name = "string"` entry, later ones
/// overriding earlier ones; every other nested form is ignored.
pub open spec fn directives_of(n: Seq<NestedMeta>) -> Map<Seq<char>, DirectiveValue>
    decreases n.len(),
{
    if n.len() == 0 {
        Map::empty()
    } else {
        let rest = directives_of(n.drop_last());
        match n.last() {
            NestedMeta::NameValue { name, lit: Lit::Str { value, as_type } } => rest.insert(
                name@,
                (value@, opt_view(as_type)),
            ),
            _ => rest,
        }
    }
}

/// The directives of the first list annotation called `graphql`, if any.
pub open spec fn graphql_directives_of(attrs: Seq<Attribute>) -> Option<Map<Seq<char>, DirectiveValue>>
    decreases attrs.len(),
{
    if attrs.len() == 0 {
        None
    } else {
        match attrs[0] {
            Attribute::List { name, nested } if name@ == "graphql"@ => Some(
                directives_of(nested@),
            ),
            _ => graphql_directives_of(attrs.drop_first()),
        }
    }
}

/// Whether an annotation is a directive list, `graphql(...)`.
pub open spec fn is_directive(a: Attribute) -> bool {
    a matches Attribute::List { name, .. } && name@ == "graphql"@
}

/// `attrs` without its directive lists, the others kept in order.
pub open spec fn without_directives(attrs: Seq<Attribute>) -> Seq<Attribute>
    decreases attrs.len(),
{
    if attrs.len() == 0 {
        Seq::empty()
    } else {
        let rest = without_directives(attrs.drop_last());
        if is_directive(attrs.last()) {
            rest
        } else {
            rest.push(attrs.last())
        }
    }
}

impl View for DirectiveMap {
    type V = Map<Seq<char>, DirectiveValue>;

    open spec fn view(&self) -> Map<Seq<char>, DirectiveValue> {
        pairs_map(self.entries@)
    }
}

impl DirectiveMap {
    /// The value of `key` and its reading as a type, if the map holds it.
    pub fn get(&self, key: &String) -> (r: Option<(String, Option<String>)>)
        ensures
            r is Some <==> self@.contains_key(key@),
            r is Some ==> ((r->0).0@, opt_view((r->0).1)) == self@[key@],
    {
        let mut i: usize = self.entries.len();
        assert(self.entries@.subrange(0, i as int) =~= self.entries@);
        while i > 0
            invariant
                i <= self.entries@.len(),
                pairs_map(self.entries@.subrange(0, i as int)).contains_key(key@)
                    == self@.contains_key(key@),
                self@.contains_key(key@) ==> pairs_map(self.entries@.subrange(0, i as int))[key@]
                    == self@[key@],
            decreases i,
        {
            assert(self.entries@.subrange(0, i as int).drop_last() =~= self.entries@.subrange(
                0,
                i - 1,
            ));
            if self.entries[i - 1].0 == *key {
                let t = match &self.entries[i - 1].2 {
                    Some(t) => Some(t.clone()),
                    None => None,
                };
                return Some((self.entries[i - 1].1.clone(), t));
            }
            i = i - 1;
        }
        assert(self.entries@.subrange(0, 0) =~= Seq::<(String, String, Option<String>)>::empty());
        None
    }
}

/// Reads one annotation: `None` unless it is a list form; otherwise its name
/// and the map of its string-valued `name = "value"` entries.
pub fn get_attr_map(attr: &Attribute) -> (r: Option<(String, DirectiveMap)>)
    ensures
        match attr {
            Attribute::List { name, nested } => r is Some && (r->0).0@ == name@ && (r->0).1@
                == directives_of(nested@),
            Attribute::Other => r is None,
        },
{
    match attr {
        Attribute::List { name, nested } => {
            let mut entries: Vec<(String, String, Option<String>)> = Vec::new();
            let mut i: usize = 0;
            while i < nested.len()
                invariant
                    i <= nested@.len(),
                    pairs_map(entries@) == directives_of(nested@.subrange(0, i as int)),
                decreases nested.len() - i,
            {
                assert(nested@.subrange(0, i + 1).drop_last() =~= nested@.subrange(0, i as int));
                match &nested[i] {
                    NestedMeta::NameValue { name: key, lit: Lit::Str { value, as_type } } => {
                        let ghost before = entries@;
                        let t = match as_type {
                            Some(t) => Some(t.clone()),
                            None => None,
                        };
                        entries.push((key.clone(), value.clone(), t));
                        assert(entries@.drop_last() =~= before);
                    },
                    _ => {},
                }
                i = i + 1;
            }
            assert(nested@.subrange(0, i as int) =~= nested@);
            Some((name.clone(), DirectiveMap { entries }))
        },
        Attribute::Other => None,
    }
}

/// The directives of the first list annotation called `graphql` among `attrs`.
pub fn graphql_directives(attrs: &Vec<Attribute>) -> (r: Option<DirectiveMap>)
    ensures
        match r {
            Some(m) => graphql_directives_of(attrs@) == Some(m@),
            None => graphql_directives_of(attrs@) is None,
        },
{
    let graphql = "graphql".to_owned();
    let mut i: usize = 0;
    assert(attrs@.subrange(0, attrs@.len() as int) =~= attrs@);
    while i < attrs.len()
        invariant
            i <= attrs@.len(),
            graphql@ == "graphql"@,
            graphql_directives_of(attrs@) == graphql_directives_of(
                attrs@.subrange(i as int, attrs@.len() as int),
            ),
        decreases attrs.len() - i,
    {
        let ghost tail = attrs@.subrange(i as int, attrs@.len() as int);
        assert(tail.drop_first() =~= attrs@.subrange(i + 1, attrs@.len() as int));
        assert(tail[0] == attrs@[i as int]);
        match get_attr_map(&attrs[i]) {
            Some((name, map)) => {
                if name == graphql {
                    return Some(map);
                }
            },
            None => {},
        }
        i = i + 1;
    }
    None
}

/// Whether an annotation is a directive list, `graphql(...)`.
pub fn is_directive_attr(a: &Attribute) -> (r: bool)
    ensures
        r == is_directive(*a),
{
    match a {
        Attribute::List { name, .. } => *name == "graphql".to_owned(),
        Attribute::Other => false,
    }
}

/// Removes the directive lists from `attrs`, keeping the other annotations in
/// order.
pub fn strip_directives(attrs: Vec<Attribute>) -> (r: Vec<Attribute>)
    ensures
        r@ == without_directives(attrs@),
{
    let ghost all = attrs@;
    let mut attrs = attrs;
    let n = attrs.len();
    let mut kept: Vec<Attribute> = Vec::new();
    let mut k: usize = 0;
    assert(all.subrange(0, 0) =~= Seq::<Attribute>::empty());
    while k < n
        invariant
            n == all.len(),
            k <= n,
            attrs@ == all.subrange(k as int, n as int),
            kept@ == without_directives(all.subrange(0, k as int)),
        decreases n - k,
    {
        let a = attrs.remove(0);
        assert(a == all[k as int]);
        assert(all.subrange(0, k + 1).drop_last() =~= all.subrange(0, k as int));
        assert(all.subrange(0, k + 1).last() == all[k as int]);
        assert(attrs@ =~= all.subrange(k + 1, n as int));
        if !is_directive_attr(&a) {
            kept.push(a);
        }
        k = k + 1;
    }
    assert(all.subrange(0, n as int) =~= all);
    kept
}

} // verus!
