//! The rules by which a downloaded skin is kept and accepted.

use crate::text::same_text;
use vstd::prelude::*;

verus! {

/// The age in seconds at which a cached skin is downloaded anew: a week.
pub const CACHE_SECONDS: u64 = 604800;

/// Whether a cached skin of the given age in seconds is still used.
pub fn is_fresh(age_seconds: u64) -> (fresh: bool)
    ensures
        fresh == (age_seconds < CACHE_SECONDS),
{
    age_seconds < CACHE_SECONDS
}

/// Whether a response of the given content type holds a skin. The skin
/// service answers a name that it does not allow with another type.
pub fn is_skin(content_type: &str) -> (accepted: bool)
    ensures
        accepted == (content_type@ == "image/png"@),
{
    same_text(content_type, "image/png")
}

} // verus!
