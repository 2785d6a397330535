//! The encoder: from text to packed Morse bytes.
//!
//! [`text_syms`] is the symbol stream of a text; [`encode`] produces
//! exactly that stream (plus the message-end marker after a trailing
//! space) packed four symbols per byte, as [`packs`](crate::packs)
//! states.

use vstd::prelude::*;

use vstd::arithmetic::div_mod::{
    lemma_div_denominator, lemma_fundamental_div_mod, lemma_fundamental_div_mod_converse,
};
use vstd::pervasive::VecAdditionalExecFns;
use vstd::string::StrSliceExecFns;

use crate::table::{char_code, code, is_morse_char, lemma_upper_unsupported, to_upper, upper};
use crate::{lemma_byte_decomp, packs, place_idx, slot, unpack, MorseError, Place, END, MARK};

verus! {

/// The character is in the alphabet, possibly after uppercasing.
pub open spec fn supported(c: char) -> bool {
    is_morse_char(upper(c))
}

/// The symbols one character contributes to the stream: its dit/dah
/// sequence closed by the terminator.  A space contributes the bare
/// terminator.
pub open spec fn char_syms(c: char) -> Seq<u8> {
    code(upper(c)).push(END)
}

/// The symbols of a whole text, character by character.
pub open spec fn text_syms(s: Seq<char>) -> Seq<u8>
    decreases s.len(),
{
    if s.len() == 0 {
        Seq::empty()
    } else {
        char_syms(s[0]) + text_syms(s.drop_first())
    }
}

/// The text's last character is a space, so its trailing terminators
/// would be indistinguishable from padding without a marker.
pub open spec fn ends_with_space(s: Seq<char>) -> bool {
    s.len() > 0 && upper(s[s.len() - 1]) == ' '
}

/// The full symbol stream of a message: the text's symbols, and the
/// message-end marker when the text ends with a space.
pub open spec fn msg_syms(s: Seq<char>) -> Seq<u8> {
    if ends_with_space(s) {
        text_syms(s).push(MARK)
    } else {
        text_syms(s)
    }
}

/// Appending one character extends the symbol stream by that
/// character's symbols.
pub proof fn lemma_text_syms_push(s: Seq<char>, c: char)
    ensures
        text_syms(s.push(c)) == text_syms(s) + char_syms(c),
    decreases s.len(),
{
    if s.len() == 0 {
        assert(s =~= Seq::<char>::empty());
        assert(s.push(c).drop_first() =~= Seq::<char>::empty());
        assert(text_syms(Seq::<char>::empty()) == Seq::<u8>::empty());
        assert(text_syms(s.push(c)) == char_syms(c) + Seq::<u8>::empty());
        assert(text_syms(s.push(c)) =~= text_syms(s) + char_syms(c));
    } else {
        assert(s.push(c).drop_first() =~= s.drop_first().push(c));
        lemma_text_syms_push(s.drop_first(), c);
        assert(text_syms(s.push(c)) =~= text_syms(s) + char_syms(c));
    }
}

/// Four 2-bit values land in the four slots of the byte that is their
/// weighted sum.
pub proof fn lemma_byte_compose(s0: int, s1: int, s2: int, s3: int)
    requires
        0 <= s0 <= 3,
        0 <= s1 <= 3,
        0 <= s2 <= 3,
        0 <= s3 <= 3,
    ensures
        ({
            let b = s0 + 4 * s1 + 16 * s2 + 64 * s3;
            &&& 0 <= b <= 255
            &&& slot(b as u8, 0) == s0
            &&& slot(b as u8, 1) == s1
            &&& slot(b as u8, 2) == s2
            &&& slot(b as u8, 3) == s3
        }),
{
    let b = s0 + 4 * s1 + 16 * s2 + 64 * s3;
    assert((b as u8) as int == b);
    lemma_fundamental_div_mod_converse(b, 4, s1 + 4 * s2 + 16 * s3, s0);
    lemma_fundamental_div_mod_converse(b / 4, 4, s2 + 4 * s3, s1);
    lemma_div_denominator(b, 4, 4);
    lemma_fundamental_div_mod_converse(b / 16, 4, s3, s2);
    lemma_div_denominator(b, 16, 4);
}

/// Write `sym` into the slot of `src` named by `place`.  The slot and
/// every higher one must still be empty, so the write is a plain
/// addition of the shifted symbol.
pub fn fmt(sym: u8, src: u8, place: Place) -> (r: u8)
    requires
        sym <= 3,
        forall|j: int| place_idx(place) <= j < 4 ==> slot(src, j) == 0,
    ensures
        forall|j: int| 0 <= j < place_idx(place) ==> slot(r, j) == slot(src, j),
        slot(r, place_idx(place)) == sym,
        forall|j: int| place_idx(place) < j < 4 ==> slot(r, j) == 0,
{
    proof {
        lemma_byte_decomp(src);
    }
    match place {
        Place::Zero => {
            proof {
                lemma_byte_compose(sym as int, 0, 0, 0);
            }
            src + sym
        },
        Place::One => {
            proof {
                lemma_byte_compose(slot(src, 0) as int, sym as int, 0, 0);
            }
            src + sym * 4
        },
        Place::Two => {
            proof {
                lemma_byte_compose(slot(src, 0) as int, slot(src, 1) as int, sym as int, 0);
            }
            src + sym * 16
        },
        Place::Three => {
            proof {
                lemma_byte_compose(
                    slot(src, 0) as int,
                    slot(src, 1) as int,
                    slot(src, 2) as int,
                    sym as int,
                );
            }
            src + sym * 64
        },
    }
}

/// Append one symbol to the packed buffer at the cursor: a fresh byte
/// when the cursor is at slot 0, otherwise a write into the last byte.
fn emplace(place: &mut Place, v: &mut Vec<u8>, sym: u8, Ghost(syms): Ghost<Seq<u8>>) -> (gs: Ghost<
    Seq<u8>,
>)
    requires
        sym <= 3,
        packs(old(v)@, syms),
        place_idx(*old(place)) == syms.len() % 4,
    ensures
        gs@ == syms.push(sym),
        packs(final(v)@, gs@),
        place_idx(*final(place)) == gs@.len() % 4,
{
    let ghost v0 = v@;
    let ghost n = syms.len() as int;
    let ghost k = place_idx(*place);
    let ghost gs = syms.push(sym);
    if *place == Place::Zero {
        proof {
            assert(slot(0u8, 0) == 0 && slot(0u8, 1) == 0 && slot(0u8, 2) == 0 && slot(0u8, 3)
                == 0);
            assert(v0.len() * 4 == n);
        }
        let b = fmt(sym, 0, Place::Zero);
        v.push(b);
        proof {
            assert forall|i: int| 0 <= i < gs.len() implies unpack(v@)[i] == gs[i] by {
                lemma_fundamental_div_mod(i, 4);
                if i < n {
                    assert(v@[i / 4] == v0[i / 4]);
                    assert(unpack(v@)[i] == unpack(v0)[i]);
                } else {
                    lemma_fundamental_div_mod_converse(i, 4, v0.len() as int, 0);
                    assert(v@[i / 4] == b);
                }
            }
            assert forall|i: int| gs.len() <= i < v@.len() * 4 implies unpack(v@)[i] == END by {
                lemma_fundamental_div_mod_converse(i, 4, v0.len() as int, i - n);
                assert(v@[i / 4] == b);
                assert(slot(b, i % 4) == 0);
            }
        }
    } else {
        proof {
            assert(n % 4 == k && 1 <= k <= 3);
            assert(v0.len() == (n + 3) / 4);
            assert(v0.len() >= 1);
            assert(n == 4 * (v0.len() - 1) + k);
        }
        let last = v.len() - 1;
        let b0 = v[last];
        proof {
            assert forall|j: int| k <= j < 4 implies slot(b0, j) == 0 by {
                let i = 4 * (v0.len() - 1) + j;
                lemma_fundamental_div_mod_converse(i, 4, v0.len() - 1, j);
                assert(unpack(v0)[i] == END);
            }
        }
        let b = fmt(sym, b0, *place);
        v.set(last, b);
        proof {
            assert forall|i: int| 0 <= i < gs.len() implies unpack(v@)[i] == gs[i] by {
                lemma_fundamental_div_mod(i, 4);
                if i < n {
                    if i / 4 < v0.len() - 1 {
                        assert(v@[i / 4] == v0[i / 4]);
                        assert(unpack(v@)[i] == unpack(v0)[i]);
                    } else {
                        assert(i / 4 == v0.len() - 1);
                        assert(i % 4 < k);
                        assert(slot(b, i % 4) == slot(b0, i % 4));
                        assert(unpack(v0)[i] == slot(b0, i % 4));
                    }
                } else {
                    lemma_fundamental_div_mod_converse(i, 4, v0.len() - 1, k);
                    assert(v@[i / 4] == b);
                    assert(slot(b, k) == sym);
                }
            }
            assert forall|i: int| gs.len() <= i < v@.len() * 4 implies unpack(v@)[i] == END by {
                lemma_fundamental_div_mod_converse(i, 4, v0.len() - 1, i - 4 * (v0.len() - 1));
                assert(v@[i / 4] == b);
                assert(slot(b, i % 4) == 0);
            }
        }
    }
    let p = *place;
    *place = p.incr();
    Ghost(gs)
}

/// Append one supported (canonical) character: its dit/dah sequence,
/// then the terminator.
fn encode_char(c: char, place: &mut Place, v: &mut Vec<u8>, Ghost(syms): Ghost<Seq<u8>>) -> (gs:
    Ghost<Seq<u8>>)
    requires
        is_morse_char(c),
        packs(old(v)@, syms),
        place_idx(*old(place)) == syms.len() % 4,
    ensures
        gs@ == syms + code(c).push(END),
        packs(final(v)@, gs@),
        place_idx(*final(place)) == gs@.len() % 4,
{
    let word = char_code(c).unwrap();
    let ghost mut gs = syms;
    let mut j: usize = 0;
    while j < word.len()
        invariant
            j <= word.len(),
            word@ == code(c),
            forall|i: int| 0 <= i < word@.len() ==> word@[i] <= 3,
            gs == syms + code(c).take(j as int),
            packs(v@, gs),
            place_idx(*place) == gs.len() % 4,
        decreases word.len() - j,
    {
        proof {
            assert(code(c).take(j + 1) =~= code(c).take(j as int).push(code(c)[j as int]));
        }
        let Ghost(g2) = emplace(place, v, word[j], Ghost(gs));
        proof {
            gs = g2;
            assert(gs =~= syms + code(c).take(j + 1));
        }
        j += 1;
    }
    proof {
        assert(code(c).take(word@.len() as int) =~= code(c));
    }
    let Ghost(g3) = emplace(place, v, END, Ghost(gs));
    proof {
        assert(g3 =~= syms + code(c).push(END));
    }
    Ghost(g3)
}

/// Encode a text as packed Morse symbols.
///
/// Succeeds exactly when every character of the text is supported
/// (possibly after uppercasing); the result then packs the message's
/// symbol stream four symbols per byte.  On the first unsupported
/// character the error names it.
pub fn encode(src: &str) -> (r: Result<Vec<u8>, MorseError>)
    ensures
        r is Ok <==> (forall|i: int| 0 <= i < src@.len() ==> supported(src@[i])),
        r matches Ok(v) ==> packs(v@, msg_syms(src@)),
        r matches Err(e) ==> exists|i: int|
            0 <= i < src@.len() && !supported(src@[i]) && (forall|j: int|
                0 <= j < i ==> supported(src@[j])) && e == MorseError::UnsupportedCharacter(
                src@[i],
            ),
{
    let n = src.unicode_len();
    let mut v: Vec<u8> = Vec::new();
    let mut place = Place::Zero;
    let mut last_space = false;
    let ghost mut syms: Seq<u8> = Seq::empty();
    let mut i: usize = 0;
    while i < n
        invariant
            i <= n,
            n == src@.len(),
            forall|j: int| 0 <= j < i ==> supported(src@[j]),
            syms == text_syms(src@.take(i as int)),
            packs(v@, syms),
            place_idx(place) == syms.len() % 4,
            last_space == ends_with_space(src@.take(i as int)),
        decreases n - i,
    {
        let c = src.get_char(i);
        let u = to_upper(c);
        if char_code(u).is_none() {
            proof {
                lemma_upper_unsupported(c);
                assert(!supported(src@[i as int]));
            }
            return Err(MorseError::UnsupportedCharacter(u));
        }
        let Ghost(g2) = encode_char(u, &mut place, &mut v, Ghost(syms));
        proof {
            assert(src@.take(i + 1) =~= src@.take(i as int).push(src@[i as int]));
            lemma_text_syms_push(src@.take(i as int), src@[i as int]);
            syms = g2;
            assert(syms =~= text_syms(src@.take(i + 1)));
        }
        last_space = u == ' ';
        i += 1;
    }
    proof {
        assert(src@.take(n as int) =~= src@);
    }
    if last_space {
        let Ghost(g3) = emplace(&mut place, &mut v, MARK, Ghost(syms));
        proof {
            syms = g3;
        }
    }
    Ok(v)
}

} // verus!
