use crate::text::push_char;
use rand::rngs::ThreadRng;
use rand::seq::SliceRandom;
use vstd::prelude::*;

verus! {

#[verifier::external_type_specification]
#[verifier::external_body]
pub struct ExThreadRng(ThreadRng);

/// `rand::thread_rng`: a handle to the random number generator of the
/// current thread. Nothing is stated of it.
#[verifier::external_body]
fn thread_rng() -> ThreadRng {
    rand::thread_rng()
}

/// `r` holds the bytes of `pool` at the positions `idx`, in that order; the
/// positions lie within `pool` and none repeats.
pub open spec fn drawn_from(pool: Seq<u8>, r: Seq<u8>, idx: Seq<int>) -> bool {
    &&& idx.len() == r.len()
    &&& idx.no_duplicates()
    &&& forall|k: int| 0 <= k < idx.len() ==> 0 <= #[trigger] idx[k] < pool.len() && r[k] == pool[idx[k]]
}

/// `<[u8] as SliceRandom>::choose_multiple`, its items copied into a vector:
/// `amount` bytes of `pool`, or all of them when `pool` is shorter, drawn
/// from distinct positions. Which positions, and in which order, rests on
/// chance and is not stated.
#[verifier::external_body]
fn choose_multiple_bytes(pool: &[u8], rng: &mut ThreadRng, amount: usize) -> (r: Vec<u8>)
    ensures
        r@.len() == (if amount <= pool@.len() { amount as int } else { pool@.len() as int }),
        exists|idx: Seq<int>| drawn_from(pool@, r@, idx),
{
    pool.choose_multiple(rng, amount).cloned().collect()
}

/// The characters random strings are made of: the ASCII letters, upper case
/// then lower case, then the digits.
pub open spec fn base_byte(i: int) -> u8 {
    if i < 26 {
        (65 + i) as u8
    } else if i < 52 {
        (97 + i - 26) as u8
    } else {
        (48 + i - 52) as u8
    }
}

/// `c` is an ASCII letter or digit.
pub open spec fn is_base_char(c: char) -> bool {
    ('A' <= c && c <= 'Z') || ('a' <= c && c <= 'z') || ('0' <= c && c <= '9')
}

/// The 62 bytes random strings are made of.
fn base_bytes() -> (r: Vec<u8>)
    ensures
        r@.len() == 62,
        forall|i: int| 0 <= i < 62 ==> #[trigger] r@[i] == base_byte(i),
{
    let mut r: Vec<u8> = Vec::new();
    let mut i: u8 = 0;
    while i < 62
        invariant
            i <= 62,
            r@.len() == i,
            forall|j: int| 0 <= j < i ==> #[trigger] r@[j] == base_byte(j),
        decreases 62 - i,
    {
        let b: u8 = if i < 26 {
            65 + i
        } else if i < 52 {
            97 + i - 26
        } else {
            48 + i - 52
        };
        r.push(b);
        i = i + 1;
    }
    r
}

/// The text whose characters are the ASCII bytes `bytes`, in order.
pub fn ascii_string_of(bytes: &[u8]) -> (r: String)
    requires
        forall|k: int| 0 <= k < bytes@.len() ==> #[trigger] bytes@[k] < 128,
    ensures
        r@.len() == bytes@.len(),
        forall|k: int| 0 <= k < bytes@.len() ==> #[trigger] r@[k] == (bytes@[k] as char),
{
    let mut s = String::new();
    let mut i: usize = 0;
    while i < bytes.len()
        invariant
            i <= bytes@.len(),
            s@.len() == i,
            forall|k: int| 0 <= k < i ==> #[trigger] s@[k] == (bytes@[k] as char),
        decreases bytes@.len() - i,
    {
        let b = bytes[i];
        push_char(&mut s, b as char);
        i = i + 1;
    }
    s
}

/// A random string of `length` distinct ASCII letters and digits, or of all
/// 62 of them, in random order, when `length` is larger.
pub fn ascii_string(length: usize) -> (r: String)
    ensures
        r@.len() == (if length <= 62 { length as int } else { 62 }),
        forall|k: int| 0 <= k < r@.len() ==> is_base_char(#[trigger] r@[k]),
        r@.no_duplicates(),
{
    let pool = base_bytes();
    let mut rng = thread_rng();
    let bytes = choose_multiple_bytes(pool.as_slice(), &mut rng, length);
    let ghost idx = choose|idx: Seq<int>| drawn_from(pool@, bytes@, idx);
    proof {
        assert forall|k: int| 0 <= k < bytes@.len() implies #[trigger] bytes@[k] < 128 by {
            let p = idx[k];
            assert(bytes@[k] == base_byte(p));
        }
    }
    let s = ascii_string_of(bytes.as_slice());
    assert forall|k: int| 0 <= k < s@.len() implies is_base_char(#[trigger] s@[k]) by {
        let p = idx[k];
        assert(0 <= p < 62);
        assert(bytes@[k] == base_byte(p));
    }
    assert forall|a: int, b: int| 0 <= a < s@.len() && 0 <= b < s@.len() && a != b implies s@[a] != s@[b] by {
        let pa = idx[a];
        let pb = idx[b];
        assert(pa != pb);
        assert(bytes@[a] == base_byte(pa));
        assert(bytes@[b] == base_byte(pb));
    }
    s
}

} // verus!
