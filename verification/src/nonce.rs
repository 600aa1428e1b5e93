//! The nonce of a connection: twelve bytes read as a big-endian counter.
use vstd::prelude::*;
use vstd::std_specs::convert::{FromSpecImpl, TryFromSpecImpl};

use crate::NOUNCE_SIZE;

verus! {

/// 256 to the power `n`.
pub open spec fn pow256(n: nat) -> nat
    decreases n,
{
    if n == 0 {
        1
    } else {
        256 * pow256((n - 1) as nat)
    }
}

/// The number that `bytes` spell in base 256, the last byte least significant.
pub open spec fn be_value(bytes: Seq<u8>) -> nat
    decreases bytes.len(),
{
    if bytes.len() == 0 {
        0
    } else {
        be_value(bytes.drop_last()) * 256 + bytes.last() as nat
    }
}

/// The `len` bytes that spell `value` in base 256, the last byte least
/// significant. Digits above the first byte are dropped.
pub open spec fn be_bytes(value: nat, len: nat) -> Seq<u8>
    decreases len,
{
    if len == 0 {
        Seq::empty()
    } else {
        be_bytes(value / 256, (len - 1) as nat).push((value % 256) as u8)
    }
}

/// The counter after `bytes`: one more, wrapping to zero after the largest value.
pub open spec fn successor(bytes: Seq<u8>) -> Seq<u8> {
    be_bytes((be_value(bytes) + 1) % pow256(bytes.len()), bytes.len())
}

pub proof fn lemma_pow256_positive(n: nat)
    ensures
        pow256(n) > 0,
    decreases n,
{
    if n > 0 {
        lemma_pow256_positive((n - 1) as nat);
    }
}

/// Twelve bytes span 2^96 values.
pub proof fn lemma_nonce_space()
    ensures
        pow256(12) == 0x1_0000_0000_0000_0000_0000_0000,
{
    reveal_with_fuel(pow256, 13);
}

pub proof fn lemma_be_value_bound(bytes: Seq<u8>)
    ensures
        be_value(bytes) < pow256(bytes.len()),
    decreases bytes.len(),
{
    if bytes.len() > 0 {
        lemma_be_value_bound(bytes.drop_last());
    }
}

pub proof fn lemma_be_bytes_len(value: nat, len: nat)
    ensures
        be_bytes(value, len).len() == len,
    decreases len,
{
    if len > 0 {
        lemma_be_bytes_len(value / 256, (len - 1) as nat);
    }
}

/// Spelling the value of a byte string gives the string back.
pub proof fn lemma_be_bytes_of_value(bytes: Seq<u8>)
    ensures
        be_bytes(be_value(bytes), bytes.len()) == bytes,
    decreases bytes.len(),
{
    if bytes.len() > 0 {
        let front = bytes.drop_last();
        lemma_be_bytes_of_value(front);
        assert(be_value(bytes) / 256 == be_value(front));
        assert(be_value(bytes) % 256 == bytes.last() as nat);
        assert(be_bytes(be_value(bytes), bytes.len()) =~= bytes);
    }
}

/// Reading the spelling of a value that fits gives the value back.
pub proof fn lemma_be_value_of_bytes(value: nat, len: nat)
    requires
        value < pow256(len),
    ensures
        be_value(be_bytes(value, len)) == value,
    decreases len,
{
    if len > 0 {
        let spelled = be_bytes(value, len);
        lemma_be_value_of_bytes(value / 256, (len - 1) as nat);
        assert(spelled.drop_last() =~= be_bytes(value / 256, (len - 1) as nat));
    }
}

// One carry step: the bytes behind `at` were all 255 and are now 0, the byte
// at `at` went up by one, the bytes before it stayed.
proof fn lemma_carry_stops(before: Seq<u8>, after: Seq<u8>, at: int)
    requires
        before.len() == after.len(),
        0 <= at < before.len(),
        forall|j: int| 0 <= j < at ==> #[trigger] after[j] == before[j],
        after[at] == before[at] + 1,
        forall|j: int| at < j < before.len() ==> #[trigger] before[j] == 255,
        forall|j: int| at < j < after.len() ==> #[trigger] after[j] == 0,
    ensures
        be_value(after) == be_value(before) + 1,
    decreases before.len(),
{
    if at == before.len() - 1 {
        assert(after.drop_last() =~= before.drop_last());
    } else {
        lemma_carry_stops(before.drop_last(), after.drop_last(), at);
    }
}

// The carry ran off the first byte: every byte was 255 and is now 0.
proof fn lemma_carry_wraps(before: Seq<u8>, after: Seq<u8>)
    requires
        before.len() == after.len(),
        forall|j: int| 0 <= j < before.len() ==> #[trigger] before[j] == 255,
        forall|j: int| 0 <= j < after.len() ==> #[trigger] after[j] == 0,
    ensures
        be_value(after) == 0,
        be_value(before) + 1 == pow256(before.len()),
    decreases before.len(),
{
    if before.len() > 0 {
        lemma_carry_wraps(before.drop_last(), after.drop_last());
    }
}

/// Twelve bytes used once per encryption under a given key.
#[derive(Debug, Clone, Copy)]
pub struct Nonce {
    value: [u8; NOUNCE_SIZE],
}

impl View for Nonce {
    type V = Seq<u8>;

    closed spec fn view(&self) -> Seq<u8> {
        self.value@
    }
}

/// `rand::random` for a byte array: `NOUNCE_SIZE` bytes from the thread's
/// generator. Nothing is claimed of the bytes.
#[verifier::external_body]
fn random_bytes() -> [u8; NOUNCE_SIZE] {
    rand::random()
}

impl Nonce {
    /// Every nonce has twelve bytes.
    pub broadcast proof fn lemma_len(self)
        ensures
            #[trigger] self@.len() == NOUNCE_SIZE,
    {
    }

    /// The nonce as a counter.
    pub open spec fn counter(self) -> nat {
        be_value(self@)
    }

    /// Consume the nonce and return the next one, which was not used yet:
    /// the counter plus one, with the carry running toward the first byte.
    /// After the largest counter comes zero.
    pub fn consume(self) -> (next: Nonce)
        ensures
            next@ == successor(self@),
            next@ != self@,
            next.counter() == (self.counter() + 1) % pow256(12),
    {
        proof {
            lemma_successor(self.value@);
        }
        let mut value = self.value;
        let mut i: usize = NOUNCE_SIZE;
        while i > 0
            invariant
                i <= NOUNCE_SIZE,
                forall|j: int| 0 <= j < i ==> #[trigger] value@[j] == self.value@[j],
                forall|j: int| i <= j < NOUNCE_SIZE ==> #[trigger] self.value@[j] == 255,
                forall|j: int| i <= j < NOUNCE_SIZE ==> #[trigger] value@[j] == 0,
            decreases i,
        {
            i -= 1;
            match value[i].checked_add(1) {
                Some(v) => {
                    value[i] = v;
                    proof {
                        lemma_carry_stops(self.value@, value@, i as int);
                        lemma_be_value_bound(value@);
                        lemma_be_bytes_of_value(value@);
                        assert((be_value(self.value@) + 1) % pow256(12) == be_value(value@))
                            by (nonlinear_arith)
                            requires
                                be_value(self.value@) + 1 == be_value(value@),
                                be_value(value@) < pow256(12),
                        ;
                    }
                    return Nonce { value };
                },
                None => {
                    value[i] = 0;
                },
            }
        }
        proof {
            lemma_carry_wraps(self.value@, value@);
            lemma_be_bytes_of_value(value@);
            lemma_pow256_positive(12);
            assert((be_value(self.value@) + 1) % pow256(12) == 0) by (nonlinear_arith)
                requires
                    be_value(self.value@) + 1 == pow256(12),
                    pow256(12) > 0,
            ;
            assert(self.value@[0] != value@[0]);
        }
        Nonce { value }
    }

    /// The bytes in the shape the cipher takes.
    pub fn cipher_nonce(&self) -> (bytes: &[u8; NOUNCE_SIZE])
        ensures
            bytes@ == self@,
    {
        &self.value
    }
}

impl TryFrom<Vec<u8>> for Nonce {
    type Error = Vec<u8>;

    /// A nonce from a byte string, which is handed back unless it has
    /// exactly twelve bytes.
    fn try_from(value: Vec<u8>) -> (parsed: Result<Nonce, Vec<u8>>)
        ensures
            value@.len() == NOUNCE_SIZE ==> (parsed matches Ok(nonce) && nonce@ == value@),
            value@.len() != NOUNCE_SIZE ==> parsed == Err::<Nonce, Vec<u8>>(value),
    {
        if value.len() != NOUNCE_SIZE {
            return Err(value);
        }
        let mut bytes = [0u8; NOUNCE_SIZE];
        let mut i: usize = 0;
        while i < NOUNCE_SIZE
            invariant
                i <= NOUNCE_SIZE,
                value@.len() == NOUNCE_SIZE,
                forall|j: int| 0 <= j < i ==> bytes@[j] == value@[j],
            decreases NOUNCE_SIZE - i,
        {
            bytes[i] = value[i];
            i += 1;
        }
        assert(bytes@ =~= value@);
        let nonce = Nonce { value: bytes };
        proof {
            assert(nonce@ == value@);
            let chosen = choose|n: Nonce| n@ == value@;
            assert(chosen.value =~= bytes);
        }
        Ok(nonce)
    }
}

impl TryFromSpecImpl<Vec<u8>> for Nonce {
    open spec fn obeys_try_from_spec() -> bool {
        true
    }

    /// The nonce that holds the bytes, where there are twelve; else the
    /// bytes are handed back.
    open spec fn try_from_spec(value: Vec<u8>) -> Result<Nonce, Vec<u8>> {
        if value@.len() == NOUNCE_SIZE {
            Ok(choose|nonce: Nonce| nonce@ == value@)
        } else {
            Err(value)
        }
    }
}

impl Default for Nonce {
    /// A fresh nonce with a random value.
    fn default() -> (nonce: Nonce) {
        Nonce { value: random_bytes() }
    }
}

impl From<[u8; NOUNCE_SIZE]> for Nonce {
    fn from(value: [u8; NOUNCE_SIZE]) -> (nonce: Nonce)
        ensures
            nonce@ == value@,
    {
        Nonce { value }
    }
}

impl FromSpecImpl<[u8; NOUNCE_SIZE]> for Nonce {
    open spec fn obeys_from_spec() -> bool {
        true
    }

    closed spec fn from_spec(value: [u8; NOUNCE_SIZE]) -> Nonce {
        Nonce { value }
    }
}

/// Two steps of the sequence add two to the counter, modulo 2^96.
pub proof fn lemma_consume_twice(nonce: Seq<u8>)
    requires
        nonce.len() == NOUNCE_SIZE,
    ensures
        successor(nonce).len() == NOUNCE_SIZE,
        successor(successor(nonce)).len() == NOUNCE_SIZE,
        be_value(successor(nonce)) == (be_value(nonce) + 1) % pow256(12),
        be_value(successor(successor(nonce))) == (be_value(nonce) + 2) % pow256(12),
{
    lemma_successor(nonce);
    lemma_successor(successor(nonce));
    lemma_pow256_positive(12);
    let m = pow256(12) as int;
    let v = be_value(nonce) as int;
    vstd::arithmetic::div_mod::lemma_add_mod_noop_right(1, v + 1, m);
    assert(1 + (v + 1) == v + 2);
    assert((v + 1) % m + 1 == 1 + (v + 1) % m);
}

/// The successor of a nonce is another nonce: no step of the sequence
/// repeats the value before it.
pub proof fn lemma_successor_differs(nonce: Seq<u8>)
    requires
        nonce.len() == NOUNCE_SIZE,
    ensures
        successor(nonce) != nonce,
{
    lemma_successor(nonce);
    lemma_be_value_bound(nonce);
    lemma_nonce_space();
    let space = pow256(12);
    let counter = be_value(nonce);
    if counter + 1 < space {
        vstd::arithmetic::div_mod::lemma_small_mod(counter + 1, space);
    } else {
        vstd::arithmetic::div_mod::lemma_mod_self_0(space as int);
    }
    assert(be_value(successor(nonce)) != counter);
}

/// The successor keeps the length and adds one to the counter, modulo the
/// number of values of that length.
pub proof fn lemma_successor(bytes: Seq<u8>)
    ensures
        successor(bytes).len() == bytes.len(),
        be_value(successor(bytes)) == (be_value(bytes) + 1) % pow256(bytes.len()),
{
    let len = bytes.len();
    lemma_pow256_positive(len);
    let next = (be_value(bytes) + 1) % pow256(len);
    assert(next < pow256(len)) by (nonlinear_arith)
        requires
            next == (be_value(bytes) + 1) % pow256(len),
            pow256(len) > 0,
    ;
    lemma_be_bytes_len(next, len);
    lemma_be_value_of_bytes(next, len);
}

} // verus!
