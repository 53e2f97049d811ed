//! Identifiers of blobs, tasks and results.
//!
//! An identifier is a 128-bit value. On the wire and as a store key it
//! appears in the conventional hyphenated lowercase hex form (8-4-4-4-12
//! digits, 36 bytes in all), most significant digit first. The text form is
//! produced and parsed here; parsing is strict, and the two directions are
//! proved inverse to each other.
use vstd::prelude::*;

verus! {

use vstd::arithmetic::power::pow;
use vstd::arithmetic::div_mod::lemma_fundamental_div_mod;
use vstd::arithmetic::div_mod::lemma_multiply_divide_lt;

/// Length in bytes of the text form of an identifier.
pub const ID_TEXT_LEN: usize = 36;

/// The lowercase hex digit byte for a value below 16 (48 is '0', 87 + 10 is
/// 'a').
pub open spec fn hex_byte(d: nat) -> u8 {
    if d < 10 {
        (48 + d) as u8
    } else {
        (87 + d) as u8
    }
}

/// The last `n` hex digits of `x`, most significant first.
pub open spec fn hex_of(x: nat, n: nat) -> Seq<u8>
    decreases n,
{
    if n == 0 {
        Seq::empty()
    } else {
        hex_of(x / 16, (n - 1) as nat).push(hex_byte(x % 16))
    }
}

/// Positions of the four hyphens inside the text form.
pub open spec fn is_hyphen_pos(i: int) -> bool {
    i == 8 || i == 13 || i == 18 || i == 23
}

/// Which hex digit of the identifier sits at text position `i`.
pub open spec fn digit_of_pos(i: int) -> int {
    if i < 8 {
        i
    } else if i < 13 {
        i - 1
    } else if i < 18 {
        i - 2
    } else if i < 23 {
        i - 3
    } else {
        i - 4
    }
}

/// Text position of the `k`-th hex digit.
pub open spec fn pos_of_digit(k: int) -> int {
    if k < 8 {
        k
    } else if k < 12 {
        k + 1
    } else if k < 16 {
        k + 2
    } else if k < 20 {
        k + 3
    } else {
        k + 4
    }
}

/// The byte at position `i` of the text form of `x` (45 is '-').
pub open spec fn id_byte_at(x: u128, i: int) -> u8 {
    if is_hyphen_pos(i) {
        45u8
    } else {
        hex_of(x as nat, 32)[digit_of_pos(i)]
    }
}

/// The full 36-byte text form of an identifier.
pub open spec fn id_bytes(x: u128) -> Seq<u8> {
    Seq::new(36, |i: int| id_byte_at(x, i))
}

/// True for bytes that can appear as a hex digit of an identifier.
pub open spec fn is_hex_digit_byte(b: u8) -> bool {
    (48 <= b && b <= 57) || (97 <= b && b <= 102)
}

/// The value of `pow(16, 32)`: one above the largest identifier.
proof fn lemma_pow16_32()
    ensures
        pow(16, 32) == 0x100000000000000000000000000000000,
{
    vstd::arithmetic::power::lemma_pow0(16);
    vstd::arithmetic::power::lemma_pow1(16);
    vstd::arithmetic::power::lemma_pow_adds(16, 1, 1);
    assert(pow(16, 2) == 256);
    vstd::arithmetic::power::lemma_pow_adds(16, 2, 2);
    assert(pow(16, 4) == 0x10000);
    vstd::arithmetic::power::lemma_pow_adds(16, 4, 4);
    assert(pow(16, 8) == 0x100000000);
    vstd::arithmetic::power::lemma_pow_adds(16, 8, 8);
    assert(pow(16, 16) == 0x10000000000000000);
    vstd::arithmetic::power::lemma_pow_adds(16, 16, 16);
}

/// Every digit of a hex rendering is a hex digit byte.
pub proof fn lemma_hex_of_shape(x: nat, n: nat)
    ensures
        hex_of(x, n).len() == n,
        forall|k: int| 0 <= k < n ==> is_hex_digit_byte(#[trigger] hex_of(x, n)[k]),
    decreases n,
{
    if n > 0 {
        lemma_hex_of_shape(x / 16, (n - 1) as nat);
    }
}

/// Two identifiers with the same hex rendering are equal.
pub proof fn lemma_hex_of_injective(x: nat, y: nat, n: nat)
    requires
        x < pow(16, n),
        y < pow(16, n),
        hex_of(x, n) == hex_of(y, n),
    ensures
        x == y,
    decreases n,
{
    lemma_hex_of_shape(x, n);
    lemma_hex_of_shape(y, n);
    if n == 0 {
        vstd::arithmetic::power::lemma_pow0(16);
    } else {
        let m = (n - 1) as nat;
        vstd::arithmetic::power::lemma_pow1(16);
        vstd::arithmetic::power::lemma_pow_adds(16, 1, m);
        assert(hex_of(x, n) == hex_of(x / 16, m).push(hex_byte(x % 16)));
        assert(hex_of(x, n).last() == hex_byte(x % 16));
        assert(hex_of(y, n).last() == hex_byte(y % 16));
        assert(x % 16 == y % 16);
        assert(hex_of(x, n).drop_last() =~= hex_of(x / 16, m));
        assert(hex_of(y, n).drop_last() =~= hex_of(y / 16, m));
        assert(pow(16, n) == 16 * pow(16, m));
        lemma_multiply_divide_lt(x as int, 16, pow(16, m));
        lemma_multiply_divide_lt(y as int, 16, pow(16, m));
        lemma_hex_of_injective(x / 16, y / 16, m);
        lemma_fundamental_div_mod(x as int, 16);
        lemma_fundamental_div_mod(y as int, 16);
    }
}

/// Two identifiers with the same text form are equal.
pub proof fn lemma_id_bytes_injective(x: u128, y: u128)
    requires
        id_bytes(x) == id_bytes(y),
    ensures
        x == y,
{
    lemma_hex_of_shape(x as nat, 32);
    lemma_hex_of_shape(y as nat, 32);
    assert forall|k: int| 0 <= k < 32 implies hex_of(x as nat, 32)[k] == hex_of(
        y as nat,
        32,
    )[k] by {
        let i = pos_of_digit(k);
        assert(0 <= i < 36);
        assert(digit_of_pos(i) == k);
        assert(!is_hyphen_pos(i));
        assert(id_bytes(x)[i] == id_byte_at(x, i));
        assert(id_bytes(y)[i] == id_byte_at(y, i));
        assert(id_byte_at(x, i) == hex_of(x as nat, 32)[k]);
        assert(id_byte_at(y, i) == hex_of(y as nat, 32)[k]);
    }
    assert(hex_of(x as nat, 32) =~= hex_of(y as nat, 32));
    lemma_pow16_32();
    lemma_hex_of_injective(x as nat, y as nat, 32);
}

/// The lowercase hex digit for a value below 16.
fn hex_digit(d: u8) -> (r: u8)
    requires
        d < 16,
    ensures
        r == hex_byte(d as nat),
{
    if d < 10 {
        48 + d
    } else {
        87 + d
    }
}

/// The last `n` hex digits of `x`, most significant first.
fn hex_digits(x: u128, n: usize) -> (r: Vec<u8>)
    requires
        n <= 32,
    ensures
        r@ == hex_of(x as nat, n as nat),
    decreases n,
{
    if n == 0 {
        Vec::new()
    } else {
        let mut r = hex_digits(x / 16, n - 1);
        r.push(hex_digit((x % 16) as u8));
        r
    }
}

/// Append the text form of `x` to `out`.
pub fn push_id(out: &mut Vec<u8>, x: u128)
    ensures
        final(out)@ == old(out)@ + id_bytes(x),
{
    let h = hex_digits(x, 32);
    let ghost base = out@;
    let mut pos: usize = 0;
    while pos < 36
        invariant
            0 <= pos <= 36,
            h@ == hex_of(x as nat, 32),
            out@ == base + Seq::new(pos as nat, |i: int| id_byte_at(x, i)),
        decreases 36 - pos,
    {
        proof {
            lemma_hex_of_shape(x as nat, 32);
        }
        if pos == 8 || pos == 13 || pos == 18 || pos == 23 {
            out.push(45);
        } else {
            let k: usize = if pos < 8 {
                pos
            } else if pos < 13 {
                pos - 1
            } else if pos < 18 {
                pos - 2
            } else if pos < 23 {
                pos - 3
            } else {
                pos - 4
            };
            out.push(h[k]);
        }
        pos += 1;
        proof {
            assert(out@ =~= base + Seq::new(pos as nat, |i: int| id_byte_at(x, i)));
        }
    }
    proof {
        assert(Seq::new(36, |i: int| id_byte_at(x, i)) == id_bytes(x));
    }
}

/// The text form of `x` as a fresh byte string.
pub fn format_id(x: u128) -> (r: Vec<u8>)
    ensures
        r@ == id_bytes(x),
{
    let mut out: Vec<u8> = Vec::new();
    push_id(&mut out, x);
    proof {
        assert(out@ =~= id_bytes(x));
    }
    out
}

/// Parse the text form of an identifier found at offset `off` of `s`.
/// Exactly the strings that `format_id` produces are accepted.
pub fn parse_id(s: &Vec<u8>, off: usize) -> (r: Option<u128>)
    requires
        off + ID_TEXT_LEN <= s@.len(),
    ensures
        r matches Some(x) ==> s@.subrange(off as int, off as int + 36) == id_bytes(x),
        r is None ==> forall|y: u128|
            s@.subrange(off as int, off as int + 36) != id_bytes(y),
    {
    let n = s.len();
    let ghost sub = s@.subrange(off as int, off as int + 36);
    let mut pos: usize = 0;
    let mut j: usize = 0;
    let mut acc: u128 = 0;
    proof {
        lemma_pow16_32();
        vstd::arithmetic::power::lemma_pow0(16);
    }
    while pos < 36
        invariant
            0 <= pos <= 36,
            off + 36 <= s@.len(),
            n == s@.len(),
            sub == s@.subrange(off as int, off as int + 36),
            j == pos - (if pos > 8 { 1int } else { 0int }) - (if pos > 13 { 1int } else { 0int })
                - (if pos > 18 { 1int } else { 0int }) - (if pos > 23 { 1int } else { 0int }),
            pos > 8 ==> sub[8] == 45,
            pos > 13 ==> sub[13] == 45,
            pos > 18 ==> sub[18] == 45,
            pos > 23 ==> sub[23] == 45,
            acc < pow(16, j as nat),
            pow(16, 32) == 0x100000000000000000000000000000000,
            hex_of(acc as nat, j as nat) == Seq::new(j as nat, |k: int| sub[pos_of_digit(k)]),
        decreases 36 - pos,
    {
        let b = s[off + pos];
        assert(b == sub[pos as int]);
        if pos == 8 || pos == 13 || pos == 18 || pos == 23 {
            if b != 45 {
                proof {
                    assert forall|y: u128| sub != id_bytes(y) by {
                        assert(id_bytes(y)[pos as int] == 45);
                    }
                }
                return None;
            }
        } else {
            let d: u8 = if 48 <= b && b <= 57 {
                b - 48
            } else if 97 <= b && b <= 102 {
                b - 87
            } else {
                proof {
                    assert forall|y: u128| sub != id_bytes(y) by {
                        lemma_hex_of_shape(y as nat, 32);
                        assert(id_bytes(y)[pos as int] == hex_of(y as nat, 32)[digit_of_pos(
                            pos as int,
                        )]);
                        assert(is_hex_digit_byte(id_bytes(y)[pos as int]));
                        assert(!is_hex_digit_byte(b));
                    }
                }
                return None;
            };
            assert(hex_byte(d as nat) == b);
            let ghost old_acc = acc as nat;
            let ghost old_j = j as nat;
            proof {
                vstd::arithmetic::power::lemma_pow1(16);
                vstd::arithmetic::power::lemma_pow_adds(16, 1, old_j);
                assert(pow(16, (old_j + 1) as nat) == 16 * pow(16, old_j));
                vstd::arithmetic::power::lemma_pow_increases(16, (old_j + 1) as nat, 32);
            }
            acc = acc * 16 + (d as u128);
            j += 1;
            proof {
                let na = old_acc * 16 + d;
                assert(na / 16 == old_acc && na % 16 == d as nat) by {
                    lemma_fundamental_div_mod(na as int, 16);
                    vstd::arithmetic::div_mod::lemma_mod_multiples_vanish(
                        old_acc as int,
                        d as int,
                        16,
                    );
                    vstd::arithmetic::div_mod::lemma_small_mod(d as nat, 16);
                    vstd::arithmetic::div_mod::lemma_div_multiples_vanish_fancy(
                        old_acc as int,
                        d as int,
                        16,
                    );
                }
                assert(hex_of(acc as nat, j as nat) == hex_of(old_acc, old_j).push(
                    hex_byte(d as nat),
                ));
                assert(pos_of_digit(old_j as int) == pos);
                assert(hex_of(acc as nat, j as nat) =~= Seq::new(
                    j as nat,
                    |k: int| sub[pos_of_digit(k)],
                ));
            }
        }
        pos += 1;
    }
    proof {
        assert(sub =~= id_bytes(acc)) by {
            assert forall|i: int| 0 <= i < 36 implies sub[i] == id_byte_at(acc, i) by {
                if !is_hyphen_pos(i) {
                    let k = digit_of_pos(i);
                    assert(pos_of_digit(k) == i);
                    assert(hex_of(acc as nat, 32)[k] == sub[pos_of_digit(k)]);
                }
            }
        }
    }
    Some(acc)
}


/// Relies on `uuid::Uuid::new_v4` and `Uuid::as_u128`: a freshly drawn
/// random version-4 UUID, handed over as its 128-bit value. The result is
/// random, so nothing is promised of it.
#[verifier::external_body]
pub(crate) fn fresh_id() -> u128 {
    uuid::Uuid::new_v4().as_u128()
}

} // verus!
