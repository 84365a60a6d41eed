//! Names of the files in which fetched issues are kept between runs.

use vstd::prelude::*;
use crate::text::{decimal, push_decimal, push_str};

verus! {

/// The file holding the cached detail of issue `number`: `{number}.json`.
pub fn detail_file_name(number: u64) -> (name: String)
    ensures
        name@ == decimal(number as nat) + ".json"@,
{
    let mut name = String::new();
    push_decimal(&mut name, number);
    push_str(&mut name, ".json");
    assert(name@ =~= decimal(number as nat) + ".json"@);
    name
}

} // verus!
