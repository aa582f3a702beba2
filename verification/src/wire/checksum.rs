//! The Internet checksum.

use vstd::prelude::*;

verus! {

/// What an octet counts in the sum of big-endian 16-bit words, when it is the `i`th.
pub open spec fn counted(octet: u8, i: int) -> nat {
    if i % 2 == 0 { octet as nat * 256 } else { octet as nat }
}

/// The sum of the big-endian 16-bit words of `data`, with a zero octet behind an odd one.
pub open spec fn word_sum(data: Seq<u8>) -> nat
    decreases data.len(),
{
    if data.len() == 0 {
        0
    } else {
        word_sum(data.drop_last()) + counted(data.last(), data.len() - 1)
    }
}

/// A sum in ones' complement 16-bit arithmetic, where the carry is added again: the residue
/// modulo 0xffff, in which only a sum of nothing but zeros gives zero.
pub open spec fn carried(sum: nat) -> nat {
    if sum == 0 { 0 } else { ((sum - 1) % 0xffff + 1) as nat }
}

/// The ones' complement sum of the words of `data`.
pub open spec fn data_spec(data: Seq<u8>) -> nat {
    carried(word_sum(data))
}

/// The sum is bounded by the number of octets.
pub proof fn lemma_word_sum_bound(data: Seq<u8>)
    ensures
        word_sum(data) <= data.len() * 0xff00,
    decreases data.len(),
{
    if data.len() > 0 {
        lemma_word_sum_bound(data.drop_last());
    }
}

/// Another octet changes the sum by what the octet counts.
pub proof fn lemma_word_sum_update(data: Seq<u8>, i: int, octet: u8)
    requires
        0 <= i < data.len(),
    ensures
        word_sum(data.update(i, octet)) + counted(data[i], i) == word_sum(data) + counted(
            octet,
            i,
        ),
    decreases data.len(),
{
    let changed = data.update(i, octet);
    if i == data.len() - 1 {
        assert(changed.drop_last() =~= data.drop_last());
    } else {
        assert(changed.drop_last() =~= data.drop_last().update(i, octet));
        lemma_word_sum_update(data.drop_last(), i, octet);
    }
}

/// Adding the carry changes nothing in ones' complement arithmetic.
proof fn lemma_carry(sum: nat)
    ensures
        carried(sum / 0x10000 + sum % 0x10000) == carried(sum),
{
    let high = sum / 0x10000;
    let low = sum % 0x10000;
    assert(sum == high * 0x10000 + low);
    if sum > 0 {
        let once = high + low;
        assert(sum - 1 == high * 0xffff + (once - 1));
        vstd::arithmetic::div_mod::lemma_mod_multiples_vanish(high as int, once - 1, 0xffff);
    }
}

/// The sum of two runs of octets, the first of which is made of whole words, is the sum of
/// their sums.
proof fn lemma_word_sum_concat(first: Seq<u8>, second: Seq<u8>)
    requires
        first.len() % 2 == 0,
    ensures
        word_sum(first + second) == word_sum(first) + word_sum(second),
    decreases second.len(),
{
    let both = first + second;
    if second.len() == 0 {
        assert(both =~= first);
    } else {
        assert(both.drop_last() =~= first + second.drop_last());
        lemma_word_sum_concat(first, second.drop_last());
    }
}

/// A sum of nothing but zeros is zero, and no other is.
proof fn lemma_word_sum_zero(data: Seq<u8>)
    ensures
        word_sum(data) == 0 <==> forall|i: int| 0 <= i < data.len() ==> data[i] == 0,
    decreases data.len(),
{
    if data.len() > 0 {
        let rest = data.drop_last();
        lemma_word_sum_zero(rest);
        if word_sum(data) == 0 {
            assert forall|i: int| 0 <= i < data.len() implies data[i] == 0 by {
                if i < rest.len() {
                    assert(rest[i] == data[i]);
                }
            }
        }
    }
}

/// What the sum of some octets is: one word is its own sum, a last octet that is not part of
/// a word is the upper half of one, and the sums of the parts add up, as far as 16 bits go.
/// The sum is zero for nothing but zeros.
pub proof fn law_data_is_sum_of_words(high: u8, low: u8, first: Seq<u8>, second: Seq<u8>)
    ensures
        data_spec(seq![high, low]) == 256 * high + low,
        data_spec(seq![high]) == 256 * high,
        data_spec(first) <= 0xffff,
        data_spec(first) == 0 <==> forall|i: int| 0 <= i < first.len() ==> first[i] == 0,
        first.len() % 2 == 1 ==> data_spec(first.push(0)) == data_spec(first),
        first.len() % 2 == 0 ==> data_spec(first + second) % 0xffff == (data_spec(first)
            + data_spec(second)) % 0xffff,
{
    let word = seq![high, low];
    assert(word.drop_last() =~= seq![high]);
    assert(seq![high].drop_last() =~= Seq::<u8>::empty());
    assert(word_sum(Seq::<u8>::empty()) == 0);
    assert(word_sum(seq![high]) == 256 * high);
    assert(word_sum(word) == 256 * high + low);
    lemma_word_sum_zero(first);
    assert(first.push(0).drop_last() =~= first);
    if first.len() % 2 == 0 {
        lemma_word_sum_concat(first, second);
        lemma_carried(word_sum(first));
        lemma_carried(word_sum(second));
        lemma_carried(word_sum(first + second));
        vstd::arithmetic::div_mod::lemma_add_mod_noop(
            word_sum(first) as int,
            word_sum(second) as int,
            0xffff,
        );
        vstd::arithmetic::div_mod::lemma_add_mod_noop(
            data_spec(first) as int,
            data_spec(second) as int,
            0xffff,
        );
    }
}

/// Carries change nothing modulo 0xffff.
proof fn lemma_carried(sum: nat)
    ensures
        carried(sum) % 0xffff == sum % 0xffff,
{
}

/// Compute the ones' complement sum of the words of `octets`.
pub fn data(octets: &[u8]) -> (sum: u16)
    requires
        octets@.len() <= 0xffff,
    ensures
        sum == data_spec(octets@),
{
    let mut accum: u32 = 0;
    let mut i: usize = 0;
    while i < octets.len()
        invariant
            i <= octets@.len() <= 0xffff,
            accum == word_sum(octets@.take(i as int)),
        decreases octets@.len() - i,
    {
        proof {
            assert(octets@.take(i + 1).drop_last() =~= octets@.take(i as int));
            lemma_word_sum_bound(octets@.take(i + 1));
        }
        if i % 2 == 0 {
            accum = accum + octets[i] as u32 * 256;
        } else {
            accum = accum + octets[i] as u32;
        }
        i = i + 1;
    }
    assert(octets@.take(i as int) =~= octets@);
    let once: u32 = accum / 0x10000 + accum % 0x10000;
    let twice: u32 = once / 0x10000 + once % 0x10000;
    proof {
        lemma_carry(accum as nat);
        lemma_carry(once as nat);
    }
    twice as u16
}

} // verus!
