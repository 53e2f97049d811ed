//! Progress markers and the download-readiness decision.
//!
//! Every task owns a store entry keyed by its `target` identifier. The
//! producer creates it holding the literal pending sentinel; a successful
//! commit overwrites it with the text form of the result identifier. Once
//! the result's TTL has elapsed the result blob is gone, and a client asking
//! for it is told so.
use vstd::prelude::*;

verus! {

/// The bytes of the pending sentinel, the literal `pending`.
pub open spec fn pending_value() -> Seq<u8> {
    seq![112u8, 101u8, 110u8, 100u8, 105u8, 110u8, 103u8]
}

/// The pending sentinel, built at run time.
pub fn make_pending_value() -> (r: Vec<u8>)
    ensures
        r@ == pending_value(),
{
    let mut v: Vec<u8> = Vec::new();
    v.push(112);
    v.push(101);
    v.push(110);
    v.push(100);
    v.push(105);
    v.push(110);
    v.push(103);
    proof {
        assert(v@ =~= pending_value());
    }
    v
}

/// TTL answer of the store for a key that no longer exists.
pub const REDIS_TTL_EXPIRED: i32 = -2;

/// How far along a task is, as a client sees it.
pub enum VideoProgress {
    /// The render has not finished yet.
    Pending,
    /// The result existed once and has expired since.
    Gone,
    /// The result is ready under the returned key.
    Ready(Vec<u8>),
}

/// Decide a task's progress from the marker value under its target key and
/// the TTL the store reports for the result key the marker names. While the
/// marker still holds the pending sentinel the render is not done; otherwise
/// the marker holds the result key, which is gone once its TTL reads as
/// expired.
pub fn check_resource_state(progress: &Vec<u8>, video_ttl: i32) -> (r: VideoProgress)
    ensures
        progress@ == pending_value() ==> r is Pending,
        progress@ != pending_value() && video_ttl == REDIS_TTL_EXPIRED ==> r is Gone,
        progress@ != pending_value() && video_ttl != REDIS_TTL_EXPIRED ==> (r matches
            VideoProgress::Ready(k) && k@ == progress@),
    {
    if bytes_eq(progress, &make_pending_value()) {
        VideoProgress::Pending
    } else if video_ttl == REDIS_TTL_EXPIRED {
        VideoProgress::Gone
    } else {
        VideoProgress::Ready(crate::store::copy_bytes(progress))
    }
}

/// Whether two byte strings hold the same bytes.
fn bytes_eq(a: &Vec<u8>, b: &Vec<u8>) -> (r: bool)
    ensures
        r == (a@ == b@),
{
    if a.len() != b.len() {
        return false;
    }
    let n = a.len();
    let mut i: usize = 0;
    while i < n
        invariant
            0 <= i <= n,
            n == a@.len(),
            a@.len() == b@.len(),
            forall|j: int| 0 <= j < i ==> a@[j] == b@[j],
        decreases n - i,
    {
        if a[i] != b[i] {
            return false;
        }
        i += 1;
    }
    proof {
        assert(a@ =~= b@);
    }
    true
}

} // verus!
