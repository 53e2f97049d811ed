//! Settings consumed by the application and the render worker, and the
//! deployment environment selector.
//!
//! Reading the configuration files themselves is I/O and happens outside the
//! library; these types carry the values the core logic needs.
use vstd::prelude::*;

verus! {

use vstd::string::StringSliceAdditionalSpecFns;

/// Network settings of the HTTP application.
pub struct ApplicationSettings {
    pub host: String,
    pub port: u16,
}

/// Settings of the render worker.
pub struct RenderWorkerSettings {
    /// Seconds the worker sleeps when the render queue is empty, to bound
    /// idle polling cost at the price of a slower first render.
    pub laziness: u16,
    /// Minutes until a finished render is deleted from the store again.
    pub lifetime: u16,
}

/// Deployment environment the process runs in.
pub enum Environment {
    Local,
    Production,
}

/// The UTF-8 bytes of "local".
pub open spec fn local_name() -> Seq<u8> {
    seq![108u8, 111u8, 99u8, 97u8, 108u8]
}

/// The UTF-8 bytes of "production".
pub open spec fn production_name() -> Seq<u8> {
    seq![112u8, 114u8, 111u8, 100u8, 117u8, 99u8, 116u8, 105u8, 111u8, 110u8]
}

/// Case-insensitive (ASCII) match of one byte against a lowercase pattern
/// byte (97 and 122 are 'a' and 'z'; the upper-case letters sit 32 below).
pub open spec fn byte_matches_ci(c: u8, p: u8) -> bool {
    c == p || (97 <= p && p <= 122 && c + 32 == p)
}

/// Case-insensitive (ASCII) match of a byte string against a lowercase
/// pattern.
pub open spec fn matches_ci(s: Seq<u8>, pat: Seq<u8>) -> bool {
    s.len() == pat.len() && forall|i: int| 0 <= i < s.len() ==> byte_matches_ci(s[i], pat[i])
}

impl Environment {
    /// The canonical lowercase name of the environment.
    pub fn as_str(&self) -> (r: &'static str)
        ensures
            matches!(self, Environment::Local) ==> r@ == "local"@,
            matches!(self, Environment::Production) ==> r@ == "production"@,
    {
        match self {
            Environment::Local => "local",
            Environment::Production => "production",
        }
    }

    /// Parse an environment name, ignoring ASCII case. Any other name is
    /// rejected, and the caller reports the failure.
    pub fn try_from(s: &str) -> (r: Result<Environment, ()>)
        ensures
            (r matches Ok(e) && matches!(e, Environment::Local)) <==> matches_ci(
                s.spec_bytes(),
                local_name(),
            ),
            (r matches Ok(e) && matches!(e, Environment::Production)) <==> matches_ci(
                s.spec_bytes(),
                production_name(),
            ),
    {
        let sb = s.as_bytes();
        let local = "local";
        let production = "production";
        proof {
            reveal_strlit("local");
            reveal_strlit("production");
            vstd::utf8::is_ascii_chars_encode_utf8(local@);
            vstd::utf8::is_ascii_chars_encode_utf8(production@);
            assert(local.spec_bytes() =~= local_name());
            assert(production.spec_bytes() =~= production_name());
        }
        if bytes_match_ci(sb, local.as_bytes()) {
            Ok(Environment::Local)
        } else if bytes_match_ci(sb, production.as_bytes()) {
            Ok(Environment::Production)
        } else {
            Err(())
        }
    }
}

/// Compare a byte string against a lowercase ASCII pattern, ignoring the
/// case of the input.
fn bytes_match_ci(s: &[u8], pat: &[u8]) -> (r: bool)
    ensures
        r == matches_ci(s@, pat@),
{
    if s.len() != pat.len() {
        return false;
    }
    let n = pat.len();
    let mut i: usize = 0;
    while i < n
        invariant
            0 <= i <= n,
            n == pat@.len(),
            s@.len() == pat@.len(),
            forall|j: int| 0 <= j < i ==> byte_matches_ci(s@[j], pat@[j]),
        decreases n - i,
    {
        let sc = s[i];
        let pc = pat[i];
        if !(sc == pc || (97 <= pc && pc <= 122 && sc <= 90 && sc + 32 == pc)) {
            assert(!byte_matches_ci(s@[i as int], pat@[i as int]));
            return false;
        }
        i += 1;
    }
    true
}

} // verus!
