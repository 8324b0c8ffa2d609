//! The small answers of the command shell that need no file system.

use vstd::prelude::*;
use vstd::string::*;

verus! {

/// The greeting for `name`.
pub open spec fn greeting(name: Seq<char>) -> Seq<char> {
    "Hello, "@ + name + "! You've been greeted from Rust!"@
}

/// Greets `name`.
pub fn greet(name: &str) -> (r: String)
    ensures
        r@ == greeting(name@),
{
    let mut out = "Hello, ".to_owned();
    out.append(name);
    out.append("! You've been greeted from Rust!");
    out
}

/// The directory in which the project lives.
pub open spec fn project_root() -> Seq<char> {
    "/home/duksan/바탕화면/gumgang_0_5"@
}

/// The directory in which the project lives.
pub fn get_project_root() -> (r: String)
    ensures
        r@ == project_root(),
{
    "/home/duksan/바탕화면/gumgang_0_5".to_owned()
}

} // verus!
