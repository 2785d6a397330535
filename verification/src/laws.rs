//! The laws the codec obeys, proved once and for all: the round trip
//! from text through bytes and back, the injectivity of the character
//! table, and the byte-length bound of an encoding.

use vstd::prelude::*;

use crate::decoding::{all_end, parse, spaces, spec_decode};
use crate::encoding::{char_syms, ends_with_space, msg_syms, supported, text_syms};
use crate::table::{
    accum, code, is_morse_char, lemma_code_symbols, lemma_table, lemma_upper_canonical, pow4,
    rev_val, upper,
};
use crate::{packs, unpack, DAH, DIT, END, MARK};

verus! {

/// The uppercased view of a text: what decoding its encoding yields.
pub open spec fn upper_text(s: Seq<char>) -> Seq<char> {
    Seq::new(s.len(), |i: int| upper(s[i]))
}

/// A tail made of the message-end marker followed by padding only.
pub open spec fn marker_tail(t: Seq<u8>) -> bool {
    t.len() >= 1 && t[0] == MARK && all_end(t.drop_first())
}

/// A stream of padding decodes to nothing, whatever was pending.
proof fn lemma_parse_padding(t: Seq<u8>, p: nat)
    requires
        all_end(t),
    ensures
        parse(t, p, 0, 0) == Some(Seq::<char>::empty()),
    decreases t.len(),
{
    if t.len() > 0 {
        assert(t[0] == END);
        lemma_parse_padding(t.drop_first(), (p + 1) as nat);
    }
}

/// Dits and dahs fed to an open word land in the accumulator one
/// slot after another.
proof fn lemma_parse_run(w: Seq<u8>, rest: Seq<u8>, acc: int, k: nat)
    requires
        forall|i: int| 0 <= i < w.len() ==> (w[i] == DIT || w[i] == DAH),
        1 <= k,
        k + w.len() <= 6,
    ensures
        parse(w + rest, 0, acc, k) == parse(rest, 0, accum(acc, k, w), (k + w.len()) as nat),
    decreases w.len(),
{
    if w.len() == 0 {
        assert(w + rest =~= rest);
    } else {
        let r = w[0];
        assert((w + rest)[0] == r);
        assert((w + rest).drop_first() =~= w.drop_first() + rest);
        lemma_parse_run(w.drop_first(), rest, acc + r * pow4(k), (k + 1) as nat);
    }
}

/// A whole dit/dah word read from an empty accumulator first turns the
/// pending terminators into spaces, then accumulates to its value.
proof fn lemma_parse_word(w: Seq<u8>, rest: Seq<u8>, p: nat)
    requires
        forall|i: int| 0 <= i < w.len() ==> (w[i] == DIT || w[i] == DAH),
        1 <= w.len() <= 6,
    ensures
        parse(w + rest, p, 0, 0) == (match parse(rest, 0, accum(0, 0, w), w.len() as nat) {
            Some(t) => Some(spaces(p) + t),
            None => None::<Seq<char>>,
        }),
{
    let r = w[0];
    assert((w + rest)[0] == r);
    assert((w + rest).drop_first() =~= w.drop_first() + rest);
    assert(pow4(0) == 1);
    lemma_parse_run(w.drop_first(), rest, r as int, 1);
}

/// One supported non-space character at the head of the stream is
/// decoded back, after the pending spaces.
proof fn lemma_parse_char(c: char, rest: Seq<u8>, p: nat)
    requires
        is_morse_char(c),
        c != ' ',
    ensures
        parse(code(c) + seq![END] + rest, p, 0, 0) == (match parse(rest, 0, 0, 0) {
            Some(t) => Some(spaces(p) + seq![c] + t),
            None => None::<Seq<char>>,
        }),
{
    lemma_table(c);
    lemma_code_symbols(c);
    let w = code(c);
    assert(code(c) + seq![END] + rest =~= w + (seq![END] + rest));
    lemma_parse_word(w, seq![END] + rest, p);
    assert((seq![END] + rest)[0] == END);
    assert((seq![END] + rest).drop_first() =~= rest);
    match parse(rest, 0, 0, 0) {
        Some(t) => {
            assert(spaces(p) + (seq![c] + t) =~= spaces(p) + seq![c] + t);
        },
        None => {},
    }
}

/// The decoder inverts the symbol stream of any supported text,
/// whatever padding follows it, provided the stream is closed by the
/// marker exactly when trailing spaces demand one.
proof fn lemma_parse_text(s: Seq<char>, tail: Seq<u8>, p: nat)
    requires
        forall|i: int| 0 <= i < s.len() ==> supported(s[i]),
        if s.len() == 0 {
            (p == 0 && all_end(tail)) || marker_tail(tail)
        } else if ends_with_space(s) {
            marker_tail(tail)
        } else {
            all_end(tail) || marker_tail(tail)
        },
    ensures
        parse(text_syms(s) + tail, p, 0, 0) == Some(spaces(p) + upper_text(s)),
    decreases s.len(),
{
    if s.len() == 0 {
        assert(text_syms(s) + tail =~= tail);
        if p == 0 && all_end(tail) {
            lemma_parse_padding(tail, 0);
            assert(spaces(0) + upper_text(s) =~= Seq::<char>::empty());
        } else {
            assert(tail[0] == MARK);
            assert(parse(tail, p, 0, 0) == Some(spaces(p)));
            assert(spaces(p) + upper_text(s) =~= spaces(p));
        }
    } else {
        let c = s[0];
        let s2 = s.drop_first();
        let u = upper(c);
        assert(supported(c));
        assert(s2.len() > 0 ==> s2[s2.len() - 1] == s[s.len() - 1]);
        if u == ' ' {
            assert(code(u) =~= Seq::<u8>::empty());
            assert(char_syms(c) =~= seq![END]);
            assert(text_syms(s) + tail =~= seq![END] + (text_syms(s2) + tail));
            assert((seq![END] + (text_syms(s2) + tail))[0] == END);
            assert((seq![END] + (text_syms(s2) + tail)).drop_first() =~= text_syms(s2) + tail);
            if s2.len() == 0 {
                assert(ends_with_space(s));
            }
            lemma_parse_text(s2, tail, (p + 1) as nat);
            assert(spaces((p + 1) as nat) + upper_text(s2) =~= spaces(p) + upper_text(s));
        } else {
            assert(is_morse_char(u));
            assert(text_syms(s) + tail =~= code(u) + seq![END] + (text_syms(s2) + tail));
            lemma_parse_char(u, text_syms(s2) + tail, p);
            lemma_parse_text(s2, tail, 0);
            assert(spaces(0) + upper_text(s2) =~= upper_text(s2));
            assert(spaces(p) + seq![u] + upper_text(s2) =~= spaces(p) + upper_text(s));
        }
    }
}

/// Round trip: decoding any encoding of a supported text yields the
/// text, uppercased.  Together with the contracts of `encode` and
/// `decode` this says `decode(encode(s)) == uppercase(s)` whenever
/// `encode(s)` succeeds.
pub proof fn lemma_round_trip(s: Seq<char>, bytes: Seq<u8>)
    requires
        forall|i: int| 0 <= i < s.len() ==> supported(s[i]),
        packs(bytes, msg_syms(s)),
    ensures
        spec_decode(bytes) == Some(upper_text(s)),
{
    let m = msg_syms(s);
    let pad = 4 * bytes.len() - m.len();
    let zeros = Seq::new(pad as nat, |i: int| END);
    assert(unpack(bytes) =~= m + zeros);
    if ends_with_space(s) {
        let tail = seq![MARK] + zeros;
        assert(m + zeros =~= text_syms(s) + tail);
        assert(tail.drop_first() =~= zeros);
        assert(marker_tail(tail));
        lemma_parse_text(s, tail, 0);
    } else {
        assert(m + zeros =~= text_syms(s) + zeros);
        lemma_parse_text(s, zeros, 0);
    }
    assert(spaces(0) + upper_text(s) =~= upper_text(s));
}

/// Alphabet coverage: every supported character, encoded on its own,
/// decodes back to its canonical form.
pub proof fn lemma_alphabet_round_trip(c: char, bytes: Seq<u8>)
    requires
        supported(c),
        packs(bytes, msg_syms(seq![c])),
    ensures
        spec_decode(bytes) == Some(seq![upper(c)]),
{
    lemma_round_trip(seq![c], bytes);
    assert(upper_text(seq![c]) =~= seq![upper(c)]);
}

/// Injectivity of the table: distinct canonical characters have
/// distinct symbol sequences, so a correctly delimited stream decodes
/// unambiguously.
pub proof fn lemma_table_injective(c1: char, c2: char)
    requires
        is_morse_char(c1),
        is_morse_char(c2),
        c1 != c2,
    ensures
        char_syms(c1) != char_syms(c2),
{
    lemma_upper_canonical(c1);
    lemma_upper_canonical(c2);
    if c1 == ' ' {
        lemma_table(c2);
        assert(char_syms(c1).len() < char_syms(c2).len());
    } else if c2 == ' ' {
        lemma_table(c1);
        assert(char_syms(c1).len() > char_syms(c2).len());
    } else {
        lemma_table(c1);
        lemma_table(c2);
        if char_syms(c1) == char_syms(c2) {
            assert(code(c1) =~= code(c2)) by {
                assert(code(c1).len() == code(c2).len());
                assert forall|i: int| 0 <= i < code(c1).len() implies code(c1)[i]
                    == code(c2)[i] by {
                    assert(char_syms(c1)[i] == char_syms(c2)[i]);
                }
            }
            assert(rev_val(accum(0, 0, code(c1))) == Some(c1));
            assert(rev_val(accum(0, 0, code(c2))) == Some(c2));
            assert(false);
        }
    }
}

/// Byte-length bound: the encoding of a text occupies exactly
/// `ceil(total_symbols / 4)` bytes, where `total_symbols` counts, per
/// character, its dits and dahs plus one terminator — that is, the
/// length of `text_syms`.  The one family of inputs left out is texts
/// ending in a space whose symbol count is a multiple of four: there
/// the message-end marker spills into one further byte.
pub proof fn lemma_encoded_len(s: Seq<char>, bytes: Seq<u8>)
    requires
        packs(bytes, msg_syms(s)),
        !(ends_with_space(s) && text_syms(s).len() % 4 == 0),
    ensures
        bytes.len() == (text_syms(s).len() + 3) / 4,
{
}

} // verus!
