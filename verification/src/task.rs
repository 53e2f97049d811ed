//! Render tasks and their queue entry wire format.
//!
//! A task names three identifiers: the `target` entry that tracks progress,
//! and the `audio` and `image` asset blobs. On the queue a task travels as
//! the JSON record `{"target":"..","audio":"..","image":".."}` with each
//! identifier in its 36-byte text form, 143 bytes in all. Encoding and
//! decoding are defined here and proved inverse; decoding is strict, so a
//! payload is either exactly the encoding of one task or malformed.
use vstd::prelude::*;

verus! {

use crate::ident::id_bytes;
use crate::ident::id_byte_at;
use crate::ident::parse_id;
use crate::ident::push_id;
use crate::ident::lemma_id_bytes_injective;

/// One render job: make a video for `target` out of `audio` and `image`.
#[derive(Clone, Copy, PartialEq, Eq, Structural, Debug)]
pub struct RenderTask {
    pub target: u128,
    pub audio: u128,
    pub image: u128,
}

/// Length in bytes of an encoded task.
pub const TASK_TEXT_LEN: usize = 143;

/// The bytes of `{"target":"`.
pub open spec fn head_part() -> Seq<u8> {
    seq![123u8, 34u8, 116u8, 97u8, 114u8, 103u8, 101u8, 116u8, 34u8, 58u8, 34u8]
}

/// The bytes of `","audio":"`.
pub open spec fn audio_part() -> Seq<u8> {
    seq![34u8, 44u8, 34u8, 97u8, 117u8, 100u8, 105u8, 111u8, 34u8, 58u8, 34u8]
}

/// The bytes of `","image":"`.
pub open spec fn image_part() -> Seq<u8> {
    seq![34u8, 44u8, 34u8, 105u8, 109u8, 97u8, 103u8, 101u8, 34u8, 58u8, 34u8]
}

/// The bytes of `"}`.
pub open spec fn tail_part() -> Seq<u8> {
    seq![34u8, 125u8]
}

/// The byte at position `i` of the encoding of `t`.
pub open spec fn task_byte_at(t: RenderTask, i: int) -> u8 {
    if i < 11 {
        head_part()[i]
    } else if i < 47 {
        id_byte_at(t.target, i - 11)
    } else if i < 58 {
        audio_part()[i - 47]
    } else if i < 94 {
        id_byte_at(t.audio, i - 58)
    } else if i < 105 {
        image_part()[i - 94]
    } else if i < 141 {
        id_byte_at(t.image, i - 105)
    } else {
        tail_part()[i - 141]
    }
}

/// The queue entry encoding of a task.
pub open spec fn task_bytes(t: RenderTask) -> Seq<u8> {
    Seq::new(143, |i: int| task_byte_at(t, i))
}

/// Two tasks with the same encoding are equal.
pub proof fn lemma_task_bytes_injective(a: RenderTask, b: RenderTask)
    requires
        task_bytes(a) == task_bytes(b),
    ensures
        a == b,
{
    assert(id_bytes(a.target) =~= id_bytes(b.target)) by {
        assert forall|k: int| 0 <= k < 36 implies id_byte_at(a.target, k) == id_byte_at(
            b.target,
            k,
        ) by {
            assert(task_bytes(a)[k + 11] == task_byte_at(a, k + 11));
            assert(task_bytes(b)[k + 11] == task_byte_at(b, k + 11));
        }
    }
    assert(id_bytes(a.audio) =~= id_bytes(b.audio)) by {
        assert forall|k: int| 0 <= k < 36 implies id_byte_at(a.audio, k) == id_byte_at(
            b.audio,
            k,
        ) by {
            assert(task_bytes(a)[k + 58] == task_byte_at(a, k + 58));
            assert(task_bytes(b)[k + 58] == task_byte_at(b, k + 58));
        }
    }
    assert(id_bytes(a.image) =~= id_bytes(b.image)) by {
        assert forall|k: int| 0 <= k < 36 implies id_byte_at(a.image, k) == id_byte_at(
            b.image,
            k,
        ) by {
            assert(task_bytes(a)[k + 105] == task_byte_at(a, k + 105));
            assert(task_bytes(b)[k + 105] == task_byte_at(b, k + 105));
        }
    }
    lemma_id_bytes_injective(a.target, b.target);
    lemma_id_bytes_injective(a.audio, b.audio);
    lemma_id_bytes_injective(a.image, b.image);
}

/// The bytes of `{"target":"`, built at run time.
fn make_head_part() -> (r: Vec<u8>)
    ensures
        r@ == head_part(),
{
    let mut v: Vec<u8> = Vec::new();
    v.push(123);
    v.push(34);
    v.push(116);
    v.push(97);
    v.push(114);
    v.push(103);
    v.push(101);
    v.push(116);
    v.push(34);
    v.push(58);
    v.push(34);
    proof {
        assert(v@ =~= head_part());
    }
    v
}

/// The bytes of `","audio":"`, built at run time.
fn make_audio_part() -> (r: Vec<u8>)
    ensures
        r@ == audio_part(),
{
    let mut v: Vec<u8> = Vec::new();
    v.push(34);
    v.push(44);
    v.push(34);
    v.push(97);
    v.push(117);
    v.push(100);
    v.push(105);
    v.push(111);
    v.push(34);
    v.push(58);
    v.push(34);
    proof {
        assert(v@ =~= audio_part());
    }
    v
}

/// The bytes of `","image":"`, built at run time.
fn make_image_part() -> (r: Vec<u8>)
    ensures
        r@ == image_part(),
{
    let mut v: Vec<u8> = Vec::new();
    v.push(34);
    v.push(44);
    v.push(34);
    v.push(105);
    v.push(109);
    v.push(97);
    v.push(103);
    v.push(101);
    v.push(34);
    v.push(58);
    v.push(34);
    proof {
        assert(v@ =~= image_part());
    }
    v
}

/// The bytes of `"}`, built at run time.
fn make_tail_part() -> (r: Vec<u8>)
    ensures
        r@ == tail_part(),
{
    let mut v: Vec<u8> = Vec::new();
    v.push(34);
    v.push(125);
    proof {
        assert(v@ =~= tail_part());
    }
    v
}

/// Encode a task as a queue entry.
pub fn encode_task(t: &RenderTask) -> (r: Vec<u8>)
    ensures
        r@ == task_bytes(*t),
{
    let mut out: Vec<u8> = Vec::new();
    let mut part = make_head_part();
    out.append(&mut part);
    push_id(&mut out, t.target);
    let mut part = make_audio_part();
    out.append(&mut part);
    push_id(&mut out, t.audio);
    let mut part = make_image_part();
    out.append(&mut part);
    push_id(&mut out, t.image);
    let mut part = make_tail_part();
    out.append(&mut part);
    proof {
        assert(out@ =~= task_bytes(*t));
    }
    out
}

/// Check that `p` holds exactly the bytes of `pat` from `off` on.
fn check_segment(p: &Vec<u8>, off: usize, pat: &Vec<u8>) -> (r: bool)
    requires
        off + pat@.len() <= p@.len(),
    ensures
        r <==> (forall|k: int| 0 <= k < pat@.len() ==> p@[off + k] == pat@[k]),
{
    let n = pat.len();
    let plen = p.len();
    let mut k: usize = 0;
    while k < n
        invariant
            0 <= k <= n,
            n == pat@.len(),
            plen == p@.len(),
            off + n <= plen,
            forall|j: int| 0 <= j < k ==> p@[off + j] == pat@[j],
        decreases n - k,
    {
        if p[off + k] != pat[k] {
            return false;
        }
        k += 1;
    }
    true
}

/// Decode a queue entry. Exactly the payloads that `encode_task` produces
/// are accepted; anything else is malformed and yields `None`.
pub fn decode_task(p: &Vec<u8>) -> (r: Option<RenderTask>)
    ensures
        r matches Some(t) ==> p@ == task_bytes(t),
        r is None ==> forall|t: RenderTask| p@ != task_bytes(t),
{
    if p.len() != TASK_TEXT_LEN {
        return None;
    }
    let head = make_head_part();
    let audio_mid = make_audio_part();
    let image_mid = make_image_part();
    let tail = make_tail_part();
    if !check_segment(p, 0, &head) {
        proof {
            let k = choose|k: int| 0 <= k < 11 && p@[k] != head_part()[k];
            assert forall|t: RenderTask| p@ != task_bytes(t) by {
                assert(task_bytes(t)[k] == head_part()[k]);
            }
        }
        return None;
    }
    if !check_segment(p, 47, &audio_mid) {
        proof {
            let k = choose|k: int| 0 <= k < 11 && p@[47 + k] != audio_part()[k];
            assert forall|t: RenderTask| p@ != task_bytes(t) by {
                assert(task_bytes(t)[47 + k] == audio_part()[k]);
            }
        }
        return None;
    }
    if !check_segment(p, 94, &image_mid) {
        proof {
            let k = choose|k: int| 0 <= k < 11 && p@[94 + k] != image_part()[k];
            assert forall|t: RenderTask| p@ != task_bytes(t) by {
                assert(task_bytes(t)[94 + k] == image_part()[k]);
            }
        }
        return None;
    }
    if !check_segment(p, 141, &tail) {
        proof {
            let k = choose|k: int| 0 <= k < 2 && p@[141 + k] != tail_part()[k];
            assert forall|t: RenderTask| p@ != task_bytes(t) by {
                assert(task_bytes(t)[141 + k] == tail_part()[k]);
            }
        }
        return None;
    }
    let target = match parse_id(p, 11) {
        Some(x) => x,
        None => {
            proof {
                assert forall|t: RenderTask| p@ != task_bytes(t) by {
                    if p@ == task_bytes(t) {
                        assert(p@.subrange(11, 47) =~= id_bytes(t.target));
                    }
                }
            }
            return None;
        },
    };
    let audio = match parse_id(p, 58) {
        Some(x) => x,
        None => {
            proof {
                assert forall|t: RenderTask| p@ != task_bytes(t) by {
                    if p@ == task_bytes(t) {
                        assert(p@.subrange(58, 94) =~= id_bytes(t.audio));
                    }
                }
            }
            return None;
        },
    };
    let image = match parse_id(p, 105) {
        Some(x) => x,
        None => {
            proof {
                assert forall|t: RenderTask| p@ != task_bytes(t) by {
                    if p@ == task_bytes(t) {
                        assert(p@.subrange(105, 141) =~= id_bytes(t.image));
                    }
                }
            }
            return None;
        },
    };
    let t = RenderTask { target, audio, image };
    proof {
        assert(p@.subrange(11, 47) == id_bytes(target));
        assert(p@.subrange(58, 94) == id_bytes(audio));
        assert(p@.subrange(105, 141) == id_bytes(image));
        assert(p@ =~= task_bytes(t)) by {
            assert forall|i: int| 0 <= i < 143 implies p@[i] == task_byte_at(t, i) by {
                if 11 <= i < 47 {
                    assert(p@[i] == p@.subrange(11, 47)[i - 11]);
                } else if 58 <= i < 94 {
                    assert(p@[i] == p@.subrange(58, 94)[i - 58]);
                } else if 105 <= i < 141 {
                    assert(p@[i] == p@.subrange(105, 141)[i - 105]);
                }
            }
        }
    }
    Some(t)
}

/// Encoding then decoding a task yields the task again.
pub proof fn lemma_task_round_trip(t: RenderTask, p: Seq<u8>, r: Option<RenderTask>)
    requires
        p == task_bytes(t),
        r matches Some(u) ==> p == task_bytes(u),
        r is None ==> forall|u: RenderTask| p != task_bytes(u),
    ensures
        r == Some(t),
{
    match r {
        None => {
            assert(p != task_bytes(t));
        },
        Some(u) => {
            lemma_task_bytes_injective(t, u);
        },
    }
}

} // verus!
