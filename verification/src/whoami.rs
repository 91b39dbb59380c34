use vstd::prelude::*;

use crate::text::{int_decimal, push_int, push_str};

verus! {

/// `Logged in as {name} (id: {id})`.
pub open spec fn whoami_text(name: Seq<char>, id: i64) -> Seq<char> {
    "Logged in as "@ + name + " (id: "@ + int_decimal(id as int) + ")"@
}

/// The line `whoami` prints for the logged-in user.
pub fn whoami(name: &str, id: i64) -> (r: String)
    ensures
        r@ == whoami_text(name@, id),
{
    let mut r = "Logged in as ".to_owned();
    push_str(&mut r, name);
    push_str(&mut r, " (id: ");
    push_int(&mut r, id);
    push_str(&mut r, ")");
    r
}

} // verus!
