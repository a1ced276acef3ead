//! The front door's one decision: metrics or protocol upgrade.

use vstd::prelude::*;
use crate::text::chars_of;

verus! {

/// Where the front door sends one accepted request.
#[derive(Clone, Copy, PartialEq, Eq, Structural, Debug)]
pub enum Route {
    /// Render current process statistics as a synchronous response.
    Metrics,
    /// Attempt the protocol upgrade and start a connection handler.
    Upgrade,
}

/// The path reserved for statistics.
pub open spec fn metrics_path() -> Seq<char> {
    "/metrics"@
}

/// Routes a request by its target path: exactly the metrics path gets the
/// statistics renderer, every other target the protocol upgrade.
pub fn route(path: &str) -> (r: Route)
    ensures
        r == Route::Metrics <==> path@ == metrics_path(),
{
    let p = chars_of(path);
    let m = chars_of("/metrics");
    if p.len() != m.len() {
        return Route::Upgrade;
    }
    let n = p.len();
    let mut i: usize = 0;
    while i < n
        invariant
            n == p@.len(),
            n == m@.len(),
            i <= n,
            p@ == path@,
            m@ == metrics_path(),
            forall|j: int| 0 <= j < i ==> p@[j] == m@[j],
        decreases n - i,
    {
        if p[i] != m[i] {
            return Route::Upgrade;
        }
        i = i + 1;
    }
    proof {
        assert(p@ =~= m@);
    }
    Route::Metrics
}

} // verus!
