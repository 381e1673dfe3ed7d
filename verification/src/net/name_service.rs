//! The name server task's decision: the name given for each desired name.

use vstd::prelude::*;
use crate::actors::nameserver::{unused_name_for, Nameserver};

verus! {

/// Gives out the name for one request of the name server task: the desired
/// name if no one holds it, else the desired name followed by `_` and the
/// first Roman numeral that makes it unused; from then on that name is taken.
pub fn client_nameserver(names: &mut Nameserver, desired_name: String) -> (name: String)
    requires
        old(names).names().len() < u64::MAX,
    ensures
        unused_name_for(old(names).names(), desired_name@, name@),
        final(names).names() == old(names).names().insert(name@),
{
    names.uniqueify(desired_name)
}

} // verus!
