//! Unit names.

use vstd::prelude::*;

use crate::text::{cat2, chr, contains_char, find, find_first, lacks, occurs, owned, Text};

verus! {

/// A unit name; one without a type suffix means a service.
pub open spec fn normalized(name: Text) -> Text {
    if occurs(name, chr('.')) {
        name
    } else {
        name + ".service"@
    }
}

/// Append `.service` when a unit name has no type suffix.
pub fn normalize_unit(name: &str) -> (r: String)
    ensures
        r@ == normalized(name@),
{
    if contains_char(name, '.') {
        owned(name)
    } else {
        cat2(name, ".service")
    }
}

/// A normalized name has a suffix, and normalizing it again changes nothing.
pub proof fn normalized_is_final(name: Text)
    ensures
        occurs(normalized(name), chr('.')),
        normalized(normalized(name)) == normalized(name),
{
    if !occurs(name, chr('.')) {
        let n = normalized(name);
        reveal_strlit(".service");
        assert(".service"@[0] == '.');
        assert(n[name.len() as int] == '.');
        find_first(n, chr('.'));
        if !occurs(n, chr('.')) {
            assert(!chr('.')(n[name.len() as int]));
        }
    }
}

/// A name without a point is a service's; one with a point is left as it is.
pub proof fn names_without_suffix_are_services(name: Text)
    ensures
        lacks(name, '.') ==> normalized(name) == name + ".service"@,
        !lacks(name, '.') ==> normalized(name) == name,
{
    find_first(name, chr('.'));
    let k = find(name, chr('.')) as int;
    if occurs(name, chr('.')) {
        assert(name[k] == '.');
    } else {
        assert forall|i: int| 0 <= i < name.len() implies #[trigger] name[i] != '.' by {
            assert(!chr('.')(name[i]));
        }
    }
}

} // verus!
