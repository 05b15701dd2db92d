//! Wire codecs for the protocol's variable-size primitives.
//!
//! This module holds what the variable-length integer codecs share: the
//! little-endian base-128 continuation encoding, its value function, and the
//! lemmas about where such a sequence terminates.

use vstd::prelude::*;

use crate::bytebuf::{ByteBuffer, ByteCursor, ReadingError};

pub mod bit_set;
pub mod identifier;
pub mod uuid;
pub mod var_int;
pub mod var_long;

verus! {

/// A value with a fixed, exactly specified wire representation.
///
/// The option and list combinators are generic over this trait: they write
/// a discriminant or count and then each value's own bytes.
pub trait Encode {
    /// Whether the value may be written: its variable-size parts fit their
    /// bounds, so that writing cannot fail mid-stream.
    spec fn encodable(&self) -> bool;

    /// The exact bytes the value puts on the wire.
    spec fn wire_bytes(&self) -> Seq<u8>;

    /// Appends the value's wire bytes to `buf`.
    fn write_to(&self, buf: &mut ByteBuffer)
        requires
            self.encodable(),
        ensures
            final(buf)@ == old(buf)@ + self.wire_bytes(),
    ;
}

/// A value that can be parsed back off the wire.
///
/// The three spec functions say when a byte sequence starts with a complete
/// value, how many bytes that value occupies, and what it is; `read_from`
/// is held to them exactly.
pub trait Decode: Sized {
    /// Whether `s` starts with a complete, in-bounds value.
    spec fn decodes(s: Seq<u8>) -> bool;

    /// How many bytes the value at the front of `s` occupies.
    spec fn decoded_len(s: Seq<u8>) -> int;

    /// The value at the front of `s`.
    spec fn decoded_value(s: Seq<u8>) -> Self;

    /// What a failed read means: which error kind this failure mode hands
    /// back, and exactly what input is left afterwards.
    spec fn decode_failure(s: Seq<u8>, e: ReadingError, fin: Seq<u8>) -> bool;

    /// A decodable value takes at least one byte and no more than `s` has.
    proof fn lemma_decoded_len_bounds(s: Seq<u8>)
        requires
            Self::decodes(s),
        ensures
            1 <= Self::decoded_len(s) <= s.len(),
    ;

    /// Reads one value from the front of `cur`; succeeds exactly when the
    /// remaining input starts with a complete value, and otherwise reports
    /// the failure [`Self::decode_failure`] describes.
    fn read_from(cur: &mut ByteCursor) -> (r: Result<Self, ReadingError>)
        requires
            old(cur).wf(),
        ensures
            final(cur).wf(),
            match r {
                Ok(v) => Self::decodes(old(cur)@) && v == Self::decoded_value(old(cur)@) && final(cur)@ == old(cur)@.skip(Self::decoded_len(old(cur)@)),
                Err(e) => !Self::decodes(old(cur)@) && Self::decode_failure(
                    old(cur)@,
                    e,
                    final(cur)@,
                ),
            },
    ;
}

/// Why a variable-length integer could not be decoded.
#[derive(Debug, Clone, Copy, PartialEq, Eq, Structural)]
pub enum DecodeError {
    /// The input ended before a terminating byte was seen.
    Incomplete,
    /// More than the maximum byte count was consumed without termination.
    TooLarge,
}

/// `128^n`, the weight of the `n`-th base-128 digit.
pub open spec fn pow128(n: nat) -> int
    decreases n,
{
    if n == 0 {
        1
    } else {
        128 * pow128((n - 1) as nat)
    }
}

/// The value of a little-endian base-128 digit sequence: each byte
/// contributes its low seven bits, the continuation bit is ignored.
pub open spec fn base128_value(s: Seq<u8>) -> int
    decreases s.len(),
{
    if s.len() == 0 {
        0
    } else {
        (s[0] as int) % 128 + 128 * base128_value(s.skip(1))
    }
}

/// The index of the first byte without the continuation bit, or `-1` when
/// every byte of `s` has it set.
pub open spec fn term_index(s: Seq<u8>) -> int
    decreases s.len(),
{
    if s.len() == 0 {
        -1
    } else if s[0] < 128 {
        0
    } else {
        let t = term_index(s.skip(1));
        if t == -1 {
            -1
        } else {
            t + 1
        }
    }
}

/// The little-endian base-128 continuation encoding of `n`: seven payload
/// bits per byte, the high bit marking that more bytes follow, minimum
/// length.
pub open spec fn base128_encoding(n: nat) -> Seq<u8>
    decreases n,
{
    if n < 128 {
        seq![n as u8]
    } else {
        seq![((n % 128) + 128) as u8] + base128_encoding(n / 128)
    }
}

/// `pow128` is positive.
pub proof fn lemma_pow128_pos(n: nat)
    ensures
        pow128(n) >= 1,
    decreases n,
{
    if n > 0 {
        lemma_pow128_pos((n - 1) as nat);
    }
}

/// Appending a digit adds its seven payload bits at the next weight.
pub proof fn lemma_base128_value_snoc(s: Seq<u8>, b: u8)
    ensures
        base128_value(s.push(b)) == base128_value(s) + ((b as int) % 128) * pow128(s.len()),
    decreases s.len(),
{
    if s.len() == 0 {
        assert(s.push(b)[0] == b);
        assert(s.push(b).skip(1) =~= Seq::<u8>::empty());
        assert(base128_value(s.push(b)) == (b as int) % 128 + 128 * base128_value(
            s.push(b).skip(1),
        ));
        assert(base128_value(s.push(b).skip(1)) == 0);
        assert(pow128(0) == 1);
    } else {
        assert(s.push(b)[0] == s[0]);
        assert(s.push(b).skip(1) =~= s.skip(1).push(b));
        lemma_base128_value_snoc(s.skip(1), b);
        assert(base128_value(s.push(b)) == (s[0] as int) % 128 + 128 * base128_value(
            s.skip(1).push(b),
        ));
        let c = (b as int) % 128;
        let p = pow128((s.len() - 1) as nat);
        assert(s.skip(1).len() == s.len() - 1);
        assert(base128_value(s.skip(1).push(b)) == base128_value(s.skip(1)) + c * p);
        assert(pow128(s.len()) == 128 * p);
        assert(128 * (base128_value(s.skip(1)) + c * p) == 128 * base128_value(s.skip(1)) + c * (
        128 * p)) by (nonlinear_arith);
        assert(base128_value(s) == (s[0] as int) % 128 + 128 * base128_value(s.skip(1)));
        assert(base128_value(s.push(b)) == base128_value(s) + c * pow128(s.len()));
    }
}

/// A digit sequence of `n` base-128 digits is worth less than `128^n`.
pub proof fn lemma_base128_value_bound(s: Seq<u8>)
    ensures
        0 <= base128_value(s) < pow128(s.len()),
    decreases s.len(),
{
    if s.len() == 0 {
    } else {
        lemma_base128_value_bound(s.skip(1));
    }
}

/// A sequence whose bytes all carry the continuation bit has no terminator.
pub proof fn lemma_term_index_all_continuation(s: Seq<u8>)
    requires
        forall|j: int| 0 <= j < s.len() ==> s[j] >= 128,
    ensures
        term_index(s) == -1,
    decreases s.len(),
{
    if s.len() > 0 {
        lemma_term_index_all_continuation(s.skip(1));
    }
}

/// When the bytes before index `i` all carry the continuation bit and the
/// byte at `i` does not, `i` is the terminator index.
pub proof fn lemma_term_index_first(s: Seq<u8>, i: int)
    requires
        0 <= i < s.len(),
        forall|j: int| 0 <= j < i ==> s[j] >= 128,
        s[i] < 128,
    ensures
        term_index(s) == i,
    decreases i,
{
    if i > 0 {
        lemma_term_index_first(s.skip(1), i - 1);
    }
}

/// What a non-negative terminator index means: it is in range, the byte
/// there lacks the continuation bit, and every earlier byte has it.
pub proof fn lemma_term_index_props(s: Seq<u8>)
    requires
        0 <= term_index(s),
    ensures
        term_index(s) < s.len(),
        s[term_index(s)] < 128,
        forall|j: int| 0 <= j < term_index(s) ==> s[j] >= 128,
    decreases s.len(),
{
    if s.len() == 0 {
    } else if s[0] < 128 {
    } else {
        lemma_term_index_props(s.skip(1));
        let t = term_index(s);
        assert(forall|j: int| 0 <= j < t ==> s[j] >= 128) by {
            assert(forall|j: int| 1 <= j < t ==> s[j] == s.skip(1)[j - 1]);
        }
    }
}

/// The encoding is well-formed: nonempty, every byte but the last carries
/// the continuation bit, the last does not, and its digits are worth `n`.
pub proof fn lemma_base128_encoding_props(n: nat)
    ensures
        1 <= base128_encoding(n).len(),
        base128_encoding(n)[base128_encoding(n).len() - 1] < 128,
        forall|j: int|
            0 <= j < base128_encoding(n).len() - 1 ==> #[trigger] base128_encoding(n)[j] >= 128,
        base128_value(base128_encoding(n)) == n,
    decreases n,
{
    if n < 128 {
        assert(base128_encoding(n) == seq![n as u8]);
        assert(base128_encoding(n).skip(1) =~= Seq::<u8>::empty());
        assert(base128_value(base128_encoding(n)) == ((n as u8) as int) % 128 + 128
            * base128_value(base128_encoding(n).skip(1)));
        assert(((n as u8) as int) % 128 == n);
    } else {
        lemma_base128_encoding_props(n / 128);
        let d = (((n % 128) + 128)) as u8;
        let rest = base128_encoding(n / 128);
        assert(base128_encoding(n) == seq![d] + rest);
        assert((seq![d] + rest).skip(1) =~= rest);
        assert(base128_encoding(n)[0] == d);
        assert(base128_encoding(n).len() > 0);
        assert(base128_encoding(n).skip(1) =~= rest);
        assert(base128_value(base128_encoding(n)) == (d as int) % 128 + 128 * base128_value(
            base128_encoding(n).skip(1),
        ));
        assert(base128_value(base128_encoding(n)) == (d as int) % 128 + 128 * base128_value(rest));
        assert((d as int) % 128 == n % 128);
        assert(base128_value(rest) == n / 128);
        vstd::arithmetic::div_mod::lemma_fundamental_div_mod(n as int, 128);
        assert(n as int == 128 * ((n as int) / 128) + (n as int) % 128);
        assert(base128_value(base128_encoding(n)) == (n as int) % 128 + 128 * ((n as int) / 128));
        assert(forall|j: int|
            0 <= j < (seq![d] + rest).len() - 1 ==> #[trigger] (seq![d] + rest)[j] >= 128) by {
            assert(forall|j: int| 1 <= j < (seq![d] + rest).len() ==> (seq![d] + rest)[j] == rest[j - 1]);
        }
    }
}

/// An encoding of a value below `128^k` takes at most `k` bytes.
pub proof fn lemma_base128_encoding_len(n: nat, k: nat)
    requires
        n < pow128(k),
        k >= 1,
    ensures
        base128_encoding(n).len() <= k,
    decreases k,
{
    if n < 128 {
    } else {
        assert(pow128(k) == 128 * pow128((k - 1) as nat));
        assert(n / 128 < pow128((k - 1) as nat));
        lemma_base128_encoding_len(n / 128, (k - 1) as nat);
    }
}

/// The terminator index is never below `-1`.
pub proof fn lemma_term_index_ge(s: Seq<u8>)
    ensures
        term_index(s) >= -1,
    decreases s.len(),
{
    if s.len() > 0 && s[0] >= 128 {
        lemma_term_index_ge(s.skip(1));
    }
}

/// A sequence with no terminator has every byte's continuation bit set.
pub proof fn lemma_term_index_none_all_continuation(s: Seq<u8>)
    requires
        term_index(s) == -1,
    ensures
        forall|j: int| 0 <= j < s.len() ==> s[j] >= 128,
    decreases s.len(),
{
    if s.len() > 0 {
        assert(s[0] >= 128);
        lemma_term_index_ge(s.skip(1));
        lemma_term_index_none_all_continuation(s.skip(1));
        assert(forall|j: int| 1 <= j < s.len() ==> s[j] == s.skip(1)[j - 1]);
    }
}

/// When a prefix has no terminator, none lies within it.
pub proof fn lemma_term_index_take_none(s: Seq<u8>, n: int)
    requires
        0 <= n <= s.len(),
        term_index(s.take(n)) == -1,
    ensures
        term_index(s) == -1 || term_index(s) >= n,
{
    lemma_term_index_none_all_continuation(s.take(n));
    lemma_term_index_ge(s);
    let t = term_index(s);
    if 0 <= t < n {
        lemma_term_index_props(s);
        assert(s.take(n)[t] == s[t]);
    }
}


/// The first `n` values at the front of `s` all decode, each starting where
/// the previous one ended.
pub open spec fn elems_decode<G: Decode>(s: Seq<u8>, n: int) -> bool
    decreases n,
{
    if n <= 0 {
        true
    } else {
        G::decodes(s) && elems_decode::<G>(s.skip(G::decoded_len(s)), n - 1)
    }
}

/// How many bytes the first `n` values at the front of `s` occupy together.
pub open spec fn elems_len<G: Decode>(s: Seq<u8>, n: int) -> int
    decreases n,
{
    if n <= 0 {
        0
    } else {
        G::decoded_len(s) + elems_len::<G>(s.skip(G::decoded_len(s)), n - 1)
    }
}

/// The first `n` values at the front of `s`, in order.
pub open spec fn elems_values<G: Decode>(s: Seq<u8>, n: int) -> Seq<G>
    decreases n,
{
    if n <= 0 {
        Seq::empty()
    } else {
        seq![G::decoded_value(s)] + elems_values::<G>(s.skip(G::decoded_len(s)), n - 1)
    }
}

/// When `n` values decode, they occupy between `n` and all of `s`'s bytes,
/// and there are `n` of them.
pub proof fn lemma_elems_len_bounds<G: Decode>(s: Seq<u8>, n: int)
    requires
        n >= 0,
        elems_decode::<G>(s, n),
    ensures
        0 <= elems_len::<G>(s, n) <= s.len(),
        elems_values::<G>(s, n).len() == n,
    decreases n,
{
    if n > 0 {
        G::lemma_decoded_len_bounds(s);
        lemma_elems_len_bounds::<G>(s.skip(G::decoded_len(s)), n - 1);
    }
}

/// Decoding one more value extends the decoded prefix by that value.
pub proof fn lemma_elems_snoc<G: Decode>(s: Seq<u8>, n: int)
    requires
        n >= 0,
        elems_decode::<G>(s, n),
        G::decodes(s.skip(elems_len::<G>(s, n))),
    ensures
        elems_decode::<G>(s, n + 1),
        elems_len::<G>(s, n + 1) == elems_len::<G>(s, n) + G::decoded_len(
            s.skip(elems_len::<G>(s, n)),
        ),
        elems_values::<G>(s, n + 1) == elems_values::<G>(s, n).push(
            G::decoded_value(s.skip(elems_len::<G>(s, n))),
        ),
    decreases n,
{
    if n == 0 {
        assert(s.skip(0) =~= s);
        assert(G::decodes(s));
        assert(elems_decode::<G>(s, 1) == (G::decodes(s) && elems_decode::<G>(
            s.skip(G::decoded_len(s)),
            0,
        )));
        assert(elems_len::<G>(s, 1) == G::decoded_len(s) + elems_len::<G>(
            s.skip(G::decoded_len(s)),
            0,
        ));
        assert(elems_values::<G>(s, 1) == seq![G::decoded_value(s)] + elems_values::<G>(
            s.skip(G::decoded_len(s)),
            0,
        ));
        assert(elems_values::<G>(s, 1) =~= Seq::empty().push(G::decoded_value(s)));
    } else {
        let d = G::decoded_len(s);
        let rest = s.skip(d);
        G::lemma_decoded_len_bounds(s);
        lemma_elems_len_bounds::<G>(rest, n - 1);
        assert(rest.skip(elems_len::<G>(rest, n - 1)) =~= s.skip(d + elems_len::<G>(rest, n - 1)));
        lemma_elems_snoc::<G>(rest, n - 1);
        assert(elems_decode::<G>(s, n + 1) == (G::decodes(s) && elems_decode::<G>(rest, n)));
        assert(elems_len::<G>(s, n + 1) == d + elems_len::<G>(rest, n));
        assert(elems_len::<G>(s, n) == d + elems_len::<G>(rest, n - 1));
        assert(elems_values::<G>(s, n + 1) == seq![G::decoded_value(s)] + elems_values::<G>(
            rest,
            n,
        ));
        assert(elems_values::<G>(s, n) == seq![G::decoded_value(s)] + elems_values::<G>(
            rest,
            n - 1,
        ));
        assert(elems_values::<G>(s, n + 1) =~= elems_values::<G>(s, n).push(
            G::decoded_value(s.skip(elems_len::<G>(s, n))),
        ));
    }
}

/// When the value after a decoded prefix fails to decode, no longer run of
/// values decodes either.
pub proof fn lemma_elems_decode_fail<G: Decode>(s: Seq<u8>, i: int, n: int)
    requires
        0 <= i < n,
        elems_decode::<G>(s, i),
        !G::decodes(s.skip(elems_len::<G>(s, i))),
    ensures
        !elems_decode::<G>(s, n),
    decreases i,
{
    if i == 0 {
        assert(s.skip(0) =~= s);
    } else {
        let d = G::decoded_len(s);
        let rest = s.skip(d);
        G::lemma_decoded_len_bounds(s);
        lemma_elems_len_bounds::<G>(rest, i - 1);
        assert(rest.skip(elems_len::<G>(rest, i - 1)) =~= s.skip(d + elems_len::<G>(rest, i - 1)));
        lemma_elems_decode_fail::<G>(rest, i - 1, n - 1);
    }
}

} // verus!
