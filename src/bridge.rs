use vstd::prelude::*;
use vstd::string::StrSliceExecFns;

verus! {

/// The field name that juniper's casing gives an identifier.
pub uninterp spec fn camel_case_of(s: Seq<char>) -> Seq<char>;

/// Whether juniper's casing takes `s`: it slices each part after an `_` at
/// its second byte, so every `_` past the first character that has a
/// character after it must have an ASCII one there.
pub open spec fn casing_safe(s: Seq<char>) -> bool {
    forall|k: int| 1 <= k < s.len() - 1 && s[k] == '_' ==> (#[trigger] s[k + 1] as u32) < 128
}

/// Relies on `juniper::to_camel_case`: the field name it gives depends on the
/// identifier alone.
#[verifier::external_body]
pub(crate) fn to_field_name(ident: &String) -> (r: String)
    requires
        casing_safe(ident@),
    ensures
        r@ == camel_case_of(ident@),
{
    juniper::to_camel_case(ident.as_str()).into_owned()
}

/// Whether `s` can be given to the field-name casing.
pub fn is_casing_safe(s: &String) -> (r: bool)
    ensures
        r == casing_safe(s@),
{
    let t = s.as_str();
    let n = t.unicode_len();
    if n < 2 {
        return true;
    }
    let mut k: usize = 1;
    while k < n - 1
        invariant
            n == s@.len(),
            t@ == s@,
            1 <= k <= n - 1,
            forall|j: int| 1 <= j < k && s@[j] == '_' ==> (#[trigger] s@[j + 1] as u32) < 128,
        decreases n - 1 - k,
    {
        if t.get_char(k) == '_' && (t.get_char(k + 1) as u32) >= 128 {
            assert(s@[k as int] == '_' && (s@[k + 1] as u32) >= 128);
            return false;
        }
        k = k + 1;
    }
    true
}

} // verus!
