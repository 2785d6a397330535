//! The decoder: from packed Morse bytes back to text.
//!
//! [`parse`] is the specification of the whole pass, symbol by symbol;
//! [`decode`] returns exactly what `parse` describes, for every input,
//! malformed ones included.

use vstd::prelude::*;

use vstd::arithmetic::div_mod::lemma_fundamental_div_mod_converse;

use crate::table::{pow4, rev_val};
use crate::{place_idx, slot, unpack, MorseError, Place, END, MARK};

verus! {

/// Every symbol of the stream is the padding value.
pub open spec fn all_end(syms: Seq<u8>) -> bool {
    forall|i: int| 0 <= i < syms.len() ==> syms[i] == END
}

/// A run of `n` spaces.
pub open spec fn spaces(n: nat) -> Seq<char> {
    Seq::new(n, |i: int| ' ')
}

/// One pass of the decoder over a symbol stream.
///
/// `pending` counts the terminator symbols read since the output was
/// last committed: they become spaces if a dit, a dah or the
/// message-end marker follows, and are discarded as structural padding
/// if the stream simply ends.  `acc` and `k` are the value and the
/// symbol count of the code word being accumulated.
///
/// * A terminator read while a word is open closes it: the word's
///   value is looked up and one character is emitted.
/// * A terminator read with no open word is pended as above.
/// * The marker turns the pending terminators into spaces, and may be
///   followed by padding only.
/// * A dit or a dah first turns the pending terminators into spaces,
///   then opens or extends the word; no supported word has more than
///   six symbols, so a seventh is malformed.
/// * At the end of the stream an open word is malformed, and pending
///   terminators are padding.
pub open spec fn parse(syms: Seq<u8>, pending: nat, acc: int, k: nat) -> Option<Seq<char>>
    decreases syms.len(),
{
    if syms.len() == 0 {
        if k == 0 {
            Some(Seq::empty())
        } else {
            None
        }
    } else {
        let r = syms[0];
        let rest = syms.drop_first();
        if r == END {
            if k > 0 {
                match rev_val(acc) {
                    Some(c) => match parse(rest, 0, 0, 0) {
                        Some(t) => Some(seq![c] + t),
                        None => None,
                    },
                    None => None,
                }
            } else {
                parse(rest, (pending + 1) as nat, 0, 0)
            }
        } else if r == MARK {
            if k == 0 && all_end(rest) {
                Some(spaces(pending))
            } else {
                None
            }
        } else {
            if k >= 6 {
                None
            } else if k == 0 {
                match parse(rest, 0, r as int, 1) {
                    Some(t) => Some(spaces(pending) + t),
                    None => None,
                }
            } else {
                parse(rest, pending, acc + r * pow4(k), (k + 1) as nat)
            }
        }
    }
}

/// What `decode` recovers from a byte sequence, `None` where the
/// stream is malformed.
pub open spec fn spec_decode(bytes: Seq<u8>) -> Option<Seq<char>> {
    parse(unpack(bytes), 0, 0, 0)
}

/// Look a whole accumulated code word up in the reverse table.
pub fn decode_morse(w: u16) -> (r: Option<char>)
    ensures
        r == rev_val(w as int),
{
    match w {
        14 => Some('A'),
        171 => Some('B'),
        187 => Some('C'),
        43 => Some('D'),
        2 => Some('E'),
        186 => Some('F'),
        47 => Some('G'),
        170 => Some('H'),
        10 => Some('I'),
        254 => Some('J'),
        59 => Some('K'),
        174 => Some('L'),
        15 => Some('M'),
        11 => Some('N'),
        63 => Some('O'),
        190 => Some('P'),
        239 => Some('Q'),
        46 => Some('R'),
        42 => Some('S'),
        3 => Some('T'),
        58 => Some('U'),
        234 => Some('V'),
        62 => Some('W'),
        235 => Some('X'),
        251 => Some('Y'),
        175 => Some('Z'),
        1022 => Some('1'),
        1018 => Some('2'),
        1002 => Some('3'),
        938 => Some('4'),
        682 => Some('5'),
        683 => Some('6'),
        687 => Some('7'),
        703 => Some('8'),
        767 => Some('9'),
        1023 => Some('0'),
        1003 => Some(':'),
        3822 => Some('.'),
        2810 => Some('?'),
        747 => Some('/'),
        3755 => Some('-'),
        763 => Some('('),
        3835 => Some(')'),
        _ => None,
    }
}

/// The spaces still provisional at this point of a decode: the tail of
/// the output written since the current terminator run began.
pub open spec fn pending_of(out: Seq<char>, run_active: bool, run_start: int) -> int {
    if run_active {
        out.len() - run_start
    } else {
        0
    }
}

/// The committed part of the output: everything before the provisional
/// spaces.
pub open spec fn commit_of(out: Seq<char>, run_active: bool, run_start: int) -> Seq<char> {
    out.take(out.len() - pending_of(out, run_active, run_start))
}

/// The weight of slot `k`, as an executable value.
fn mult4(k: u8) -> (r: u16)
    requires
        k < 6,
    ensures
        r as int == pow4(k as nat),
        r <= 1024,
{
    proof {
        reveal_with_fuel(pow4, 7);
    }
    match k {
        0 => 1,
        1 => 4,
        2 => 16,
        3 => 64,
        4 => 256,
        _ => 1024,
    }
}

/// Relies on `String`'s `FromIterator<char>` impl: collecting an
/// iterator of characters yields the string of exactly those
/// characters, in order.
#[verifier::external_body]
fn chars_to_string(v: &Vec<char>) -> (s: String)
    ensures
        s@ == v@,
{
    v.iter().collect()
}

/// Decode a packed Morse byte stream back to text.
///
/// Succeeds exactly when the stream parses, and then returns the
/// parsed text; any malformed stream is reported as such.
pub fn decode(src: &[u8]) -> (r: Result<String, MorseError>)
    ensures
        r matches Ok(t) ==> spec_decode(src@) == Some(t@),
        r is Err ==> spec_decode(src@) is None && r == Err::<String, MorseError>(
            MorseError::MalformedCode,
        ),
{
    let ghost bytes = src@;
    let mut out: Vec<char> = Vec::new();
    let mut i: usize = 0;
    let mut place = Place::Zero;
    let mut acc: u16 = 0;
    let mut k: u8 = 0;
    let mut run_start: usize = 0;
    let mut run_active = false;
    let mut done = false;
    proof {
        assert(unpack(bytes).skip(0) =~= unpack(bytes));
        reveal_with_fuel(pow4, 2);
    }
    while i < src.len()
        invariant
            bytes == src@,
            i <= bytes.len(),
            i == bytes.len() ==> place == Place::Zero,
            place == Place::Zero || i < bytes.len(),
            k <= 6,
            k == 0 ==> acc == 0,
            (acc as int) < pow4(k as nat),
            k > 0 ==> !run_active,
            done ==> k == 0 && !run_active,
            run_active ==> run_start <= out@.len(),
            run_active ==> forall|j: int| run_start <= j < out@.len() ==> out@[j] == ' ',
            !done ==> spec_decode(bytes) == (match parse(
                unpack(bytes).skip(4 * (i as int) + place_idx(place)),
                pending_of(out@, run_active, run_start as int) as nat,
                acc as int,
                k as nat,
            ) {
                Some(rest) => Some(commit_of(out@, run_active, run_start as int) + rest),
                None => None::<Seq<char>>,
            }),
            done ==> spec_decode(bytes) == (if all_end(
                unpack(bytes).skip(4 * (i as int) + place_idx(place)),
            ) {
                Some(out@)
            } else {
                None::<Seq<char>>
            }),
        decreases bytes.len() - i, 4 - place_idx(place),
    {
        proof {
            reveal_with_fuel(pow4, 8);
        }
        let ghost pos0 = 4 * (i as int) + place_idx(place);
        let ghost suffix = unpack(bytes).skip(pos0);
        let ghost pend0 = pending_of(out@, run_active, run_start as int);
        let ghost com0 = commit_of(out@, run_active, run_start as int);
        let ghost out0 = out@;
        let ghost acc0 = acc as int;
        let ghost k0 = k as nat;
        let r = place.idx(src[i]);
        proof {
            lemma_fundamental_div_mod_converse(pos0, 4, i as int, place_idx(place));
            assert(unpack(bytes)[pos0] == slot(bytes[pos0 / 4], pos0 % 4));
            assert(suffix.len() > 0);
            assert(suffix[0] == r);
            assert(suffix.drop_first() =~= unpack(bytes).skip(pos0 + 1));
        }
        let ghost suffix1 = unpack(bytes).skip(pos0 + 1);
        place = place.incr();
        if place == Place::Zero {
            i += 1;
        }
        proof {
            assert(4 * (i as int) + place_idx(place) == pos0 + 1);
        }
        if done {
            if r != END {
                proof {
                    assert(!all_end(suffix));
                }
                return Err(MorseError::MalformedCode);
            }
            proof {
                assert(all_end(suffix) == all_end(suffix1)) by {
                    if all_end(suffix1) {
                        assert forall|j: int| 0 <= j < suffix.len() implies suffix[j] == END by {
                            if j > 0 {
                                assert(suffix[j] == suffix1[j - 1]);
                            }
                        }
                    }
                    if all_end(suffix) {
                        assert forall|j: int| 0 <= j < suffix1.len() implies suffix1[j]
                            == END by {
                            assert(suffix1[j] == suffix[j + 1]);
                        }
                    }
                }
            }
        } else if r == END {
            if k > 0 {
                match decode_morse(acc) {
                    Some(c) => {
                        proof {
                            assert(com0 =~= out0);
                            assert(parse(suffix, pend0 as nat, acc0, k0) == (match parse(
                                suffix1,
                                0,
                                0,
                                0,
                            ) {
                                Some(t) => Some(seq![c] + t),
                                None => None::<Seq<char>>,
                            }));
                        }
                        out.push(c);
                        acc = 0;
                        k = 0;
                        proof {
                            assert(commit_of(out@, run_active, run_start as int) =~= out@);
                            match parse(suffix1, 0, 0, 0) {
                                Some(t) => {
                                    assert(com0 + (seq![c] + t) =~= out@ + t);
                                },
                                None => {},
                            }
                        }
                    },
                    None => {
                        proof {
                            assert(parse(suffix, pend0 as nat, acc0, k0) is None);
                        }
                        return Err(MorseError::MalformedCode);
                    },
                }
            } else {
                proof {
                    assert(parse(suffix, pend0 as nat, acc0, k0) == parse(
                        suffix1,
                        (pend0 + 1) as nat,
                        0,
                        0,
                    ));
                }
                if !run_active {
                    run_active = true;
                    run_start = out.len();
                }
                out.push(' ');
                proof {
                    assert(pending_of(out@, run_active, run_start as int) == pend0 + 1);
                    assert(commit_of(out@, run_active, run_start as int) =~= com0);
                }
            }
        } else if r == MARK {
            if k > 0 {
                proof {
                    assert(parse(suffix, pend0 as nat, acc0, k0) is None);
                }
                return Err(MorseError::MalformedCode);
            }
            proof {
                assert(parse(suffix, pend0 as nat, acc0, k0) == (if all_end(suffix1) {
                    Some(spaces(pend0 as nat))
                } else {
                    None::<Seq<char>>
                }));
                assert(com0 + spaces(pend0 as nat) =~= out0);
            }
            run_active = false;
            done = true;
        } else {
            if k >= 6 {
                proof {
                    assert(parse(suffix, pend0 as nat, acc0, k0) is None);
                }
                return Err(MorseError::MalformedCode);
            }
            if k == 0 {
                proof {
                    assert(parse(suffix, pend0 as nat, acc0, k0) == (match parse(
                        suffix1,
                        0,
                        r as int,
                        1,
                    ) {
                        Some(t) => Some(spaces(pend0 as nat) + t),
                        None => None::<Seq<char>>,
                    }));
                }
                run_active = false;
                acc = r as u16;
                k = 1;
                proof {
                    assert(pow4(1) == 4);
                    assert(commit_of(out@, run_active, run_start as int) =~= out@);
                    match parse(suffix1, 0, r as int, 1) {
                        Some(t) => {
                            assert(com0 + (spaces(pend0 as nat) + t) =~= out@ + t);
                        },
                        None => {},
                    }
                }
            } else {
                proof {
                    assert(parse(suffix, pend0 as nat, acc0, k0) == parse(
                        suffix1,
                        pend0 as nat,
                        acc0 + r * pow4(k0),
                        (k0 + 1) as nat,
                    ));
                    assert(pow4((k0 + 1) as nat) == 4 * pow4(k0));
                }
                let m = mult4(k);
                proof {
                    assert((r as int) * (m as int) <= 3 * (m as int)) by (nonlinear_arith)
                        requires
                            r <= 3,
                            0 <= m,
                    ;
                }
                acc = acc + (r as u16) * m;
                k = k + 1;
            }
        }
    }
    proof {
        assert(unpack(bytes).skip(4 * (i as int) + place_idx(place)) =~= Seq::<u8>::empty());
        assert(parse(Seq::<u8>::empty(), pending_of(out@, run_active, run_start as int) as nat, acc as int, k as nat)
            == (if k as nat == 0 { Some(Seq::<char>::empty()) } else { None::<Seq<char>> }));
    }
    if k > 0 {
        return Err(MorseError::MalformedCode);
    }
    if !done && run_active {
        proof {
            assert(commit_of(out@, run_active, run_start as int) =~= out@.take(run_start as int));
        }
        out.truncate(run_start);
    }
    proof {
        if !done {
            match spec_decode(bytes) {
                Some(t) => {
                    assert(t =~= out@);
                },
                None => {
                    assert(false);
                },
            }
        }
    }
    Ok(chars_to_string(&out))
}

} // verus!
