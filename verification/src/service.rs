//! Route dispatch for the catalog service.
//!
//! The service knows a closed set of routes, matched against the request
//! path literally: no patterns, no parameters. The transport and the
//! response bodies are the surrounding shell's; what is decided here is
//! only which handler a path names.

use vstd::prelude::*;
use vstd::string::StrSliceExecFns;

verus! {

/// The closed set of routes the service answers.
#[derive(Clone, Copy, Debug, PartialEq, Eq, Structural)]
pub enum Route {
    /// A plaintext greeting.
    Hello,
    /// The catalog as JSON.
    Photos,
    /// Any other path.
    NotFound,
}

/// Compares two strings character by character.
fn str_eq(a: &str, b: &str) -> (r: bool)
    ensures
        r == (a@ == b@),
{
    let la: usize = a.unicode_len();
    let lb: usize = b.unicode_len();
    if la != lb {
        return false;
    }
    let mut i: usize = 0;
    while i < la
        invariant
            0 <= i <= la,
            la == a@.len(),
            la == b@.len(),
            forall|j: int| 0 <= j < i ==> a@[j] == b@[j],
        decreases la - i,
    {
        if a.get_char(i) != b.get_char(i) {
            return false;
        }
        i = i + 1;
    }
    proof {
        assert(a@ =~= b@);
    }
    true
}

/// The handler a request path names.
pub open spec fn spec_route(path: Seq<char>) -> Route {
    if path == "/hello"@ {
        Route::Hello
    } else if path == "/photos"@ {
        Route::Photos
    } else {
        Route::NotFound
    }
}

/// Dispatches a request path over the closed route set by exact match.
pub fn route(path: &str) -> (r: Route)
    ensures
        r == spec_route(path@),
{
    if str_eq(path, "/hello") {
        Route::Hello
    } else if str_eq(path, "/photos") {
        Route::Photos
    } else {
        Route::NotFound
    }
}

/// The HTTP status a route is answered with: 404 for an unknown path,
/// 200 otherwise.
pub fn status_of(r: Route) -> (s: u16)
    ensures
        s == 404 <==> r is NotFound,
        s == 200 <==> !(r is NotFound),
{
    match r {
        Route::NotFound => 404,
        _ => 200,
    }
}

} // verus!
