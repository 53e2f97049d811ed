//! Request body size limiting.
//!
//! Uploads above a configured number of bytes are turned away before the
//! body is read. The decision reads the request's `content-length` header:
//! a request without the header, or with one that is no decimal number, is
//! let through for later stages to handle, exactly as a missing header
//! would be.
use vstd::prelude::*;

verus! {

use vstd::string::StringSliceAdditionalSpecFns;

/// Size limit for uploaded request bodies, in bytes.
pub struct ContentLengthLimit {
    pub limit: u64,
}

impl Default for ContentLengthLimit {
    /// The default limit of five mebibytes.
    fn default() -> (r: Self)
        ensures
            r.limit == 5242880,
    {
        ContentLengthLimit { limit: 5242880 }
    }
}

impl ContentLengthLimit {
    /// Wrap a service in the limiting middleware.
    pub fn new_transform<S>(&self, service: S) -> (r: ContentLengthLimitMiddleware<S>)
        ensures
            r.limit == self.limit,
            r.service == service,
    {
        ContentLengthLimitMiddleware { service, limit: self.limit }
    }
}

/// The middleware around one inner service.
pub struct ContentLengthLimitMiddleware<S> {
    pub service: S,
    pub limit: u64,
}

/// The numeric value of a decimal digit byte (48 is '0').
pub open spec fn digit_val(b: u8) -> nat {
    if 48 <= b && b <= 57 {
        (b - 48) as nat
    } else {
        0
    }
}

/// True when every byte is a decimal digit.
pub open spec fn all_digits(s: Seq<u8>) -> bool {
    forall|i: int| 0 <= i < s.len() ==> 48 <= #[trigger] s[i] <= 57
}

/// The number written by a string of decimal digits, most significant
/// first.
pub open spec fn dec_nat(s: Seq<u8>) -> nat
    decreases s.len(),
{
    if s.len() == 0 {
        0
    } else {
        dec_nat(s.drop_last()) * 10 + digit_val(s.last())
    }
}

/// The `u64` a byte string parses to, if any: an optional leading plus sign
/// (43 is '+'), then at least one digit, and a value that fits.
pub open spec fn dec_u64(s: Seq<u8>) -> Option<u64> {
    let ds = if s.len() > 0 && s[0] == 43 {
        s.drop_first()
    } else {
        s
    };
    if ds.len() > 0 && all_digits(ds) && dec_nat(ds) <= u64::MAX {
        Some(dec_nat(ds) as u64)
    } else {
        None
    }
}

/// Parse a decimal `u64`, exactly as `dec_u64` describes.
pub fn parse_u64(s: &[u8]) -> (r: Option<u64>)
    ensures
        r == dec_u64(s@),
{
    let n = s.len();
    let mut i: usize = 0;
    if n > 0 && s[0] == 43 {
        i = 1;
    }
    let ghost ds = if s@.len() > 0 && s@[0] == 43 {
        s@.drop_first()
    } else {
        s@
    };
    proof {
        assert(ds =~= s@.subrange(i as int, n as int));
    }
    if i == n {
        return None;
    }
    let mut acc: u64 = 0;
    let mut too_big = false;
    let mut j: usize = i;
    while j < n
        invariant
            i <= j <= n,
            n == s@.len(),
            i == (if s@.len() > 0 && s@[0] == 43 { 1int } else { 0int }),
            ds == s@.subrange(i as int, n as int),
            forall|k: int| i <= k < j ==> 48 <= #[trigger] s@[k] <= 57,
            !too_big ==> acc == dec_nat(s@.subrange(i as int, j as int)),
            too_big ==> dec_nat(s@.subrange(i as int, j as int)) > u64::MAX,
        decreases n - j,
    {
        let b = s[j];
        if b < 48 || b > 57 {
            proof {
                let sd = if s@.len() > 0 && s@[0] == 43 {
                    s@.drop_first()
                } else {
                    s@
                };
                assert(sd =~= ds);
                assert(ds[j - i] == s@[j as int]);
                assert(!all_digits(ds));
            }
            return None;
        }
        let d = b - 48;
        let ghost prefix = s@.subrange(i as int, j as int);
        let ghost extended = s@.subrange(i as int, j + 1);
        proof {
            assert(extended.drop_last() =~= prefix);
            assert(extended.last() == s@[j as int]);
            assert(dec_nat(extended) == dec_nat(prefix) * 10 + digit_val(s@[j as int]));
        }
        if too_big {
            proof {
                assert(dec_nat(prefix) * 10 >= dec_nat(prefix));
            }
        } else {
            let next = match acc.checked_mul(10) {
                Some(t) => t.checked_add(d as u64),
                None => None,
            };
            match next {
                Some(v) => {
                    acc = v;
                },
                None => {
                    too_big = true;
                    proof {
                        assert(dec_nat(extended) > u64::MAX);
                    }
                },
            }
        }
        j += 1;
    }
    proof {
        assert(s@.subrange(i as int, n as int) == ds);
        assert(all_digits(ds)) by {
            assert(forall|k: int|
                0 <= k < ds.len() ==> ds[k] == #[trigger] s@[k + i] && 48 <= s@[k + i] <= 57);
        }
    }
    if too_big {
        None
    } else {
        Some(acc)
    }
}

impl<S> ContentLengthLimitMiddleware<S> {
    /// Whether the request's `content-length` header announces a body above
    /// the limit. A missing or unreadable header yields `Err`, and the
    /// caller lets such a request pass.
    pub fn is_big(&self, content_length: Option<&str>) -> (r: Result<bool, ()>)
        ensures
            content_length is None ==> r is Err,
            content_length matches Some(h) ==> match dec_u64(h.spec_bytes()) {
                Some(v) => r == Ok::<bool, ()>(v > self.limit),
                None => r is Err,
            },
    {
        match content_length {
            None => Err(()),
            Some(h) => {
                match parse_u64(h.as_bytes()) {
                    Some(v) => Ok(v > self.limit),
                    None => Err(()),
                }
            },
        }
    }
}

} // verus!
