//! The character table: the bidirectional mapping between the 44
//! supported characters and their dit/dah sequences.
//!
//! The forward direction is [`code`]; the reverse direction works on
//! the packed value of a whole code word ([`accum`], [`rev_val`]).
//! [`lemma_table`] proves the two directions consistent entry by
//! entry, so encode and decode cannot drift apart.

use vstd::prelude::*;

use crate::{DAH, DIT};

verus! {

/// ASCII uppercasing restricted to the letters: every other
/// character is left alone.
pub open spec fn upper(c: char) -> char {
    if c == 'a' {
        'A'
    } else if c == 'b' {
        'B'
    } else if c == 'c' {
        'C'
    } else if c == 'd' {
        'D'
    } else if c == 'e' {
        'E'
    } else if c == 'f' {
        'F'
    } else if c == 'g' {
        'G'
    } else if c == 'h' {
        'H'
    } else if c == 'i' {
        'I'
    } else if c == 'j' {
        'J'
    } else if c == 'k' {
        'K'
    } else if c == 'l' {
        'L'
    } else if c == 'm' {
        'M'
    } else if c == 'n' {
        'N'
    } else if c == 'o' {
        'O'
    } else if c == 'p' {
        'P'
    } else if c == 'q' {
        'Q'
    } else if c == 'r' {
        'R'
    } else if c == 's' {
        'S'
    } else if c == 't' {
        'T'
    } else if c == 'u' {
        'U'
    } else if c == 'v' {
        'V'
    } else if c == 'w' {
        'W'
    } else if c == 'x' {
        'X'
    } else if c == 'y' {
        'Y'
    } else if c == 'z' {
        'Z'
    } else {
        c
    }
}

/// Uppercase one character, as [`upper`] describes.
pub fn to_upper(c: char) -> (r: char)
    ensures
        r == upper(c),
{
    match c {
        'a' => 'A',
        'b' => 'B',
        'c' => 'C',
        'd' => 'D',
        'e' => 'E',
        'f' => 'F',
        'g' => 'G',
        'h' => 'H',
        'i' => 'I',
        'j' => 'J',
        'k' => 'K',
        'l' => 'L',
        'm' => 'M',
        'n' => 'N',
        'o' => 'O',
        'p' => 'P',
        'q' => 'Q',
        'r' => 'R',
        's' => 'S',
        't' => 'T',
        'u' => 'U',
        'v' => 'V',
        'w' => 'W',
        'x' => 'X',
        'y' => 'Y',
        'z' => 'Z',
        _ => c,
    }
}

/// The 44 supported characters, in canonical (uppercase) form.
pub open spec fn is_morse_char(c: char) -> bool {
    c == 'A'
        || c == 'B'
        || c == 'C'
        || c == 'D'
        || c == 'E'
        || c == 'F'
        || c == 'G'
        || c == 'H'
        || c == 'I'
        || c == 'J'
        || c == 'K'
        || c == 'L'
        || c == 'M'
        || c == 'N'
        || c == 'O'
        || c == 'P'
        || c == 'Q'
        || c == 'R'
        || c == 'S'
        || c == 'T'
        || c == 'U'
        || c == 'V'
        || c == 'W'
        || c == 'X'
        || c == 'Y'
        || c == 'Z'
        || c == '1'
        || c == '2'
        || c == '3'
        || c == '4'
        || c == '5'
        || c == '6'
        || c == '7'
        || c == '8'
        || c == '9'
        || c == '0'
        || c == ':'
        || c == '.'
        || c == '?'
        || c == '/'
        || c == '-'
        || c == '('
        || c == ')'
        || c == ' '
}

/// The dit/dah sequence of a canonical character.  The space's
/// sequence is empty: it is represented by its terminator alone.
/// Unsupported characters are mapped to the empty sequence as well;
/// [`is_morse_char`] tells the two apart.
pub open spec fn code(c: char) -> Seq<u8> {
    if c == 'A' {
        seq![DIT, DAH]
    } else if c == 'B' {
        seq![DAH, DIT, DIT, DIT]
    } else if c == 'C' {
        seq![DAH, DIT, DAH, DIT]
    } else if c == 'D' {
        seq![DAH, DIT, DIT]
    } else if c == 'E' {
        seq![DIT]
    } else if c == 'F' {
        seq![DIT, DIT, DAH, DIT]
    } else if c == 'G' {
        seq![DAH, DAH, DIT]
    } else if c == 'H' {
        seq![DIT, DIT, DIT, DIT]
    } else if c == 'I' {
        seq![DIT, DIT]
    } else if c == 'J' {
        seq![DIT, DAH, DAH, DAH]
    } else if c == 'K' {
        seq![DAH, DIT, DAH]
    } else if c == 'L' {
        seq![DIT, DAH, DIT, DIT]
    } else if c == 'M' {
        seq![DAH, DAH]
    } else if c == 'N' {
        seq![DAH, DIT]
    } else if c == 'O' {
        seq![DAH, DAH, DAH]
    } else if c == 'P' {
        seq![DIT, DAH, DAH, DIT]
    } else if c == 'Q' {
        seq![DAH, DAH, DIT, DAH]
    } else if c == 'R' {
        seq![DIT, DAH, DIT]
    } else if c == 'S' {
        seq![DIT, DIT, DIT]
    } else if c == 'T' {
        seq![DAH]
    } else if c == 'U' {
        seq![DIT, DIT, DAH]
    } else if c == 'V' {
        seq![DIT, DIT, DIT, DAH]
    } else if c == 'W' {
        seq![DIT, DAH, DAH]
    } else if c == 'X' {
        seq![DAH, DIT, DIT, DAH]
    } else if c == 'Y' {
        seq![DAH, DIT, DAH, DAH]
    } else if c == 'Z' {
        seq![DAH, DAH, DIT, DIT]
    } else if c == '1' {
        seq![DIT, DAH, DAH, DAH, DAH]
    } else if c == '2' {
        seq![DIT, DIT, DAH, DAH, DAH]
    } else if c == '3' {
        seq![DIT, DIT, DIT, DAH, DAH]
    } else if c == '4' {
        seq![DIT, DIT, DIT, DIT, DAH]
    } else if c == '5' {
        seq![DIT, DIT, DIT, DIT, DIT]
    } else if c == '6' {
        seq![DAH, DIT, DIT, DIT, DIT]
    } else if c == '7' {
        seq![DAH, DAH, DIT, DIT, DIT]
    } else if c == '8' {
        seq![DAH, DAH, DAH, DIT, DIT]
    } else if c == '9' {
        seq![DAH, DAH, DAH, DAH, DIT]
    } else if c == '0' {
        seq![DAH, DAH, DAH, DAH, DAH]
    } else if c == ':' {
        seq![DAH, DIT, DIT, DAH, DAH]
    } else if c == '.' {
        seq![DIT, DAH, DIT, DAH, DIT, DAH]
    } else if c == '?' {
        seq![DIT, DIT, DAH, DAH, DIT, DIT]
    } else if c == '/' {
        seq![DAH, DIT, DIT, DAH, DIT]
    } else if c == '-' {
        seq![DAH, DIT, DIT, DIT, DIT, DAH]
    } else if c == '(' {
        seq![DAH, DIT, DAH, DAH, DIT]
    } else if c == ')' {
        seq![DAH, DIT, DAH, DAH, DIT, DAH]
    } else {
        Seq::empty()
    }
}

/// Look up the dit/dah sequence of a canonical character, `None`
/// outside the supported alphabet.
pub fn char_code(c: char) -> (r: Option<Vec<u8>>)
    ensures
        r is Some <==> is_morse_char(c),
        r matches Some(v) ==> v@ == code(c),
        r matches Some(v) ==> forall|i: int| 0 <= i < v@.len() ==> v@[i] <= 3,
{
    match c {
        'A' => Some(vec![DIT, DAH]),
        'B' => Some(vec![DAH, DIT, DIT, DIT]),
        'C' => Some(vec![DAH, DIT, DAH, DIT]),
        'D' => Some(vec![DAH, DIT, DIT]),
        'E' => Some(vec![DIT]),
        'F' => Some(vec![DIT, DIT, DAH, DIT]),
        'G' => Some(vec![DAH, DAH, DIT]),
        'H' => Some(vec![DIT, DIT, DIT, DIT]),
        'I' => Some(vec![DIT, DIT]),
        'J' => Some(vec![DIT, DAH, DAH, DAH]),
        'K' => Some(vec![DAH, DIT, DAH]),
        'L' => Some(vec![DIT, DAH, DIT, DIT]),
        'M' => Some(vec![DAH, DAH]),
        'N' => Some(vec![DAH, DIT]),
        'O' => Some(vec![DAH, DAH, DAH]),
        'P' => Some(vec![DIT, DAH, DAH, DIT]),
        'Q' => Some(vec![DAH, DAH, DIT, DAH]),
        'R' => Some(vec![DIT, DAH, DIT]),
        'S' => Some(vec![DIT, DIT, DIT]),
        'T' => Some(vec![DAH]),
        'U' => Some(vec![DIT, DIT, DAH]),
        'V' => Some(vec![DIT, DIT, DIT, DAH]),
        'W' => Some(vec![DIT, DAH, DAH]),
        'X' => Some(vec![DAH, DIT, DIT, DAH]),
        'Y' => Some(vec![DAH, DIT, DAH, DAH]),
        'Z' => Some(vec![DAH, DAH, DIT, DIT]),
        '1' => Some(vec![DIT, DAH, DAH, DAH, DAH]),
        '2' => Some(vec![DIT, DIT, DAH, DAH, DAH]),
        '3' => Some(vec![DIT, DIT, DIT, DAH, DAH]),
        '4' => Some(vec![DIT, DIT, DIT, DIT, DAH]),
        '5' => Some(vec![DIT, DIT, DIT, DIT, DIT]),
        '6' => Some(vec![DAH, DIT, DIT, DIT, DIT]),
        '7' => Some(vec![DAH, DAH, DIT, DIT, DIT]),
        '8' => Some(vec![DAH, DAH, DAH, DIT, DIT]),
        '9' => Some(vec![DAH, DAH, DAH, DAH, DIT]),
        '0' => Some(vec![DAH, DAH, DAH, DAH, DAH]),
        ':' => Some(vec![DAH, DIT, DIT, DAH, DAH]),
        '.' => Some(vec![DIT, DAH, DIT, DAH, DIT, DAH]),
        '?' => Some(vec![DIT, DIT, DAH, DAH, DIT, DIT]),
        '/' => Some(vec![DAH, DIT, DIT, DAH, DIT]),
        '-' => Some(vec![DAH, DIT, DIT, DIT, DIT, DAH]),
        '(' => Some(vec![DAH, DIT, DAH, DAH, DIT]),
        ')' => Some(vec![DAH, DIT, DAH, DAH, DIT, DAH]),
        ' ' => Some(Vec::new()),
        _ => None,
    }
}


/// 4 to the power `k`: the weight of the `k`-th 2-bit slot of a code
/// word.
pub open spec fn pow4(k: nat) -> int
    decreases k,
{
    if k == 0 {
        1
    } else {
        4 * pow4((k - 1) as nat)
    }
}

/// The value reached by feeding the symbols of `w`, in order, into an
/// accumulator that already holds `acc` with its next free slot at
/// position `k`.  Each symbol is weighted by the slot it lands in, so
/// a whole code word read from an empty accumulator has the value
/// `accum(0, 0, w)`.
pub open spec fn accum(acc: int, k: nat, w: Seq<u8>) -> int
    decreases w.len(),
{
    if w.len() == 0 {
        acc
    } else {
        accum(acc + w[0] * pow4(k), k + 1, w.drop_first())
    }
}

/// The reverse table: the value of an accumulated code word, back to
/// the character it stands for.
pub open spec fn rev_val(v: int) -> Option<char> {
    if v == 14 {
        Some('A')
    } else if v == 171 {
        Some('B')
    } else if v == 187 {
        Some('C')
    } else if v == 43 {
        Some('D')
    } else if v == 2 {
        Some('E')
    } else if v == 186 {
        Some('F')
    } else if v == 47 {
        Some('G')
    } else if v == 170 {
        Some('H')
    } else if v == 10 {
        Some('I')
    } else if v == 254 {
        Some('J')
    } else if v == 59 {
        Some('K')
    } else if v == 174 {
        Some('L')
    } else if v == 15 {
        Some('M')
    } else if v == 11 {
        Some('N')
    } else if v == 63 {
        Some('O')
    } else if v == 190 {
        Some('P')
    } else if v == 239 {
        Some('Q')
    } else if v == 46 {
        Some('R')
    } else if v == 42 {
        Some('S')
    } else if v == 3 {
        Some('T')
    } else if v == 58 {
        Some('U')
    } else if v == 234 {
        Some('V')
    } else if v == 62 {
        Some('W')
    } else if v == 235 {
        Some('X')
    } else if v == 251 {
        Some('Y')
    } else if v == 175 {
        Some('Z')
    } else if v == 1022 {
        Some('1')
    } else if v == 1018 {
        Some('2')
    } else if v == 1002 {
        Some('3')
    } else if v == 938 {
        Some('4')
    } else if v == 682 {
        Some('5')
    } else if v == 683 {
        Some('6')
    } else if v == 687 {
        Some('7')
    } else if v == 703 {
        Some('8')
    } else if v == 767 {
        Some('9')
    } else if v == 1023 {
        Some('0')
    } else if v == 1003 {
        Some(':')
    } else if v == 3822 {
        Some('.')
    } else if v == 2810 {
        Some('?')
    } else if v == 747 {
        Some('/')
    } else if v == 3755 {
        Some('-')
    } else if v == 763 {
        Some('(')
    } else if v == 3835 {
        Some(')')
    } else {
        None
    }
}

/// A character that uppercases to something outside the alphabet was
/// not a lowercase letter, so uppercasing left it unchanged.
pub proof fn lemma_upper_unsupported(c: char)
    ensures
        !is_morse_char(upper(c)) ==> upper(c) == c,
{
}

/// Uppercasing fixes every canonical character.
pub proof fn lemma_upper_canonical(c: char)
    requires
        is_morse_char(c),
    ensures
        upper(c) == c,
{
}

/// Every symbol of a code sequence is a dit or a dah.
pub proof fn lemma_code_symbols(c: char)
    ensures
        forall|i: int| 0 <= i < code(c).len() ==> (code(c)[i] == DIT || code(c)[i] == DAH),
{
}

/// Each supported non-space character is recovered from the value of
/// its own code word: the two directions of the table agree.
pub proof fn lemma_table(c: char)
    requires
        is_morse_char(c),
        c != ' ',
    ensures
        code(c).len() >= 1,
        rev_val(accum(0, 0, code(c))) == Some(c),
{
    reveal_with_fuel(pow4, 7);
    reveal_with_fuel(accum, 8);
    assert(pow4(0) == 1 && pow4(1) == 4 && pow4(2) == 16 && pow4(3) == 64 && pow4(4) == 256
        && pow4(5) == 1024);
    if c == 'A' {
        assert(code(c) =~= seq![DIT, DAH]);
        assert(seq![DIT, DAH].drop_first() =~= seq![DAH]);
        assert(seq![DAH].drop_first() =~= Seq::<u8>::empty());
        assert(accum(0, 0, code(c)) == 14);
    } else if c == 'B' {
        assert(code(c) =~= seq![DAH, DIT, DIT, DIT]);
        assert(seq![DAH, DIT, DIT, DIT].drop_first() =~= seq![DIT, DIT, DIT]);
        assert(seq![DIT, DIT, DIT].drop_first() =~= seq![DIT, DIT]);
        assert(seq![DIT, DIT].drop_first() =~= seq![DIT]);
        assert(seq![DIT].drop_first() =~= Seq::<u8>::empty());
        assert(accum(0, 0, code(c)) == 171);
    } else if c == 'C' {
        assert(code(c) =~= seq![DAH, DIT, DAH, DIT]);
        assert(seq![DAH, DIT, DAH, DIT].drop_first() =~= seq![DIT, DAH, DIT]);
        assert(seq![DIT, DAH, DIT].drop_first() =~= seq![DAH, DIT]);
        assert(seq![DAH, DIT].drop_first() =~= seq![DIT]);
        assert(seq![DIT].drop_first() =~= Seq::<u8>::empty());
        assert(accum(0, 0, code(c)) == 187);
    } else if c == 'D' {
        assert(code(c) =~= seq![DAH, DIT, DIT]);
        assert(seq![DAH, DIT, DIT].drop_first() =~= seq![DIT, DIT]);
        assert(seq![DIT, DIT].drop_first() =~= seq![DIT]);
        assert(seq![DIT].drop_first() =~= Seq::<u8>::empty());
        assert(accum(0, 0, code(c)) == 43);
    } else if c == 'E' {
        assert(code(c) =~= seq![DIT]);
        assert(seq![DIT].drop_first() =~= Seq::<u8>::empty());
        assert(accum(0, 0, code(c)) == 2);
    } else if c == 'F' {
        assert(code(c) =~= seq![DIT, DIT, DAH, DIT]);
        assert(seq![DIT, DIT, DAH, DIT].drop_first() =~= seq![DIT, DAH, DIT]);
        assert(seq![DIT, DAH, DIT].drop_first() =~= seq![DAH, DIT]);
        assert(seq![DAH, DIT].drop_first() =~= seq![DIT]);
        assert(seq![DIT].drop_first() =~= Seq::<u8>::empty());
        assert(accum(0, 0, code(c)) == 186);
    } else if c == 'G' {
        assert(code(c) =~= seq![DAH, DAH, DIT]);
        assert(seq![DAH, DAH, DIT].drop_first() =~= seq![DAH, DIT]);
        assert(seq![DAH, DIT].drop_first() =~= seq![DIT]);
        assert(seq![DIT].drop_first() =~= Seq::<u8>::empty());
        assert(accum(0, 0, code(c)) == 47);
    } else if c == 'H' {
        assert(code(c) =~= seq![DIT, DIT, DIT, DIT]);
        assert(seq![DIT, DIT, DIT, DIT].drop_first() =~= seq![DIT, DIT, DIT]);
        assert(seq![DIT, DIT, DIT].drop_first() =~= seq![DIT, DIT]);
        assert(seq![DIT, DIT].drop_first() =~= seq![DIT]);
        assert(seq![DIT].drop_first() =~= Seq::<u8>::empty());
        assert(accum(0, 0, code(c)) == 170);
    } else if c == 'I' {
        assert(code(c) =~= seq![DIT, DIT]);
        assert(seq![DIT, DIT].drop_first() =~= seq![DIT]);
        assert(seq![DIT].drop_first() =~= Seq::<u8>::empty());
        assert(accum(0, 0, code(c)) == 10);
    } else if c == 'J' {
        assert(code(c) =~= seq![DIT, DAH, DAH, DAH]);
        assert(seq![DIT, DAH, DAH, DAH].drop_first() =~= seq![DAH, DAH, DAH]);
        assert(seq![DAH, DAH, DAH].drop_first() =~= seq![DAH, DAH]);
        assert(seq![DAH, DAH].drop_first() =~= seq![DAH]);
        assert(seq![DAH].drop_first() =~= Seq::<u8>::empty());
        assert(accum(0, 0, code(c)) == 254);
    } else if c == 'K' {
        assert(code(c) =~= seq![DAH, DIT, DAH]);
        assert(seq![DAH, DIT, DAH].drop_first() =~= seq![DIT, DAH]);
        assert(seq![DIT, DAH].drop_first() =~= seq![DAH]);
        assert(seq![DAH].drop_first() =~= Seq::<u8>::empty());
        assert(accum(0, 0, code(c)) == 59);
    } else if c == 'L' {
        assert(code(c) =~= seq![DIT, DAH, DIT, DIT]);
        assert(seq![DIT, DAH, DIT, DIT].drop_first() =~= seq![DAH, DIT, DIT]);
        assert(seq![DAH, DIT, DIT].drop_first() =~= seq![DIT, DIT]);
        assert(seq![DIT, DIT].drop_first() =~= seq![DIT]);
        assert(seq![DIT].drop_first() =~= Seq::<u8>::empty());
        assert(accum(0, 0, code(c)) == 174);
    } else if c == 'M' {
        assert(code(c) =~= seq![DAH, DAH]);
        assert(seq![DAH, DAH].drop_first() =~= seq![DAH]);
        assert(seq![DAH].drop_first() =~= Seq::<u8>::empty());
        assert(accum(0, 0, code(c)) == 15);
    } else if c == 'N' {
        assert(code(c) =~= seq![DAH, DIT]);
        assert(seq![DAH, DIT].drop_first() =~= seq![DIT]);
        assert(seq![DIT].drop_first() =~= Seq::<u8>::empty());
        assert(accum(0, 0, code(c)) == 11);
    } else if c == 'O' {
        assert(code(c) =~= seq![DAH, DAH, DAH]);
        assert(seq![DAH, DAH, DAH].drop_first() =~= seq![DAH, DAH]);
        assert(seq![DAH, DAH].drop_first() =~= seq![DAH]);
        assert(seq![DAH].drop_first() =~= Seq::<u8>::empty());
        assert(accum(0, 0, code(c)) == 63);
    } else if c == 'P' {
        assert(code(c) =~= seq![DIT, DAH, DAH, DIT]);
        assert(seq![DIT, DAH, DAH, DIT].drop_first() =~= seq![DAH, DAH, DIT]);
        assert(seq![DAH, DAH, DIT].drop_first() =~= seq![DAH, DIT]);
        assert(seq![DAH, DIT].drop_first() =~= seq![DIT]);
        assert(seq![DIT].drop_first() =~= Seq::<u8>::empty());
        assert(accum(0, 0, code(c)) == 190);
    } else if c == 'Q' {
        assert(code(c) =~= seq![DAH, DAH, DIT, DAH]);
        assert(seq![DAH, DAH, DIT, DAH].drop_first() =~= seq![DAH, DIT, DAH]);
        assert(seq![DAH, DIT, DAH].drop_first() =~= seq![DIT, DAH]);
        assert(seq![DIT, DAH].drop_first() =~= seq![DAH]);
        assert(seq![DAH].drop_first() =~= Seq::<u8>::empty());
        assert(accum(0, 0, code(c)) == 239);
    } else if c == 'R' {
        assert(code(c) =~= seq![DIT, DAH, DIT]);
        assert(seq![DIT, DAH, DIT].drop_first() =~= seq![DAH, DIT]);
        assert(seq![DAH, DIT].drop_first() =~= seq![DIT]);
        assert(seq![DIT].drop_first() =~= Seq::<u8>::empty());
        assert(accum(0, 0, code(c)) == 46);
    } else if c == 'S' {
        assert(code(c) =~= seq![DIT, DIT, DIT]);
        assert(seq![DIT, DIT, DIT].drop_first() =~= seq![DIT, DIT]);
        assert(seq![DIT, DIT].drop_first() =~= seq![DIT]);
        assert(seq![DIT].drop_first() =~= Seq::<u8>::empty());
        assert(accum(0, 0, code(c)) == 42);
    } else if c == 'T' {
        assert(code(c) =~= seq![DAH]);
        assert(seq![DAH].drop_first() =~= Seq::<u8>::empty());
        assert(accum(0, 0, code(c)) == 3);
    } else if c == 'U' {
        assert(code(c) =~= seq![DIT, DIT, DAH]);
        assert(seq![DIT, DIT, DAH].drop_first() =~= seq![DIT, DAH]);
        assert(seq![DIT, DAH].drop_first() =~= seq![DAH]);
        assert(seq![DAH].drop_first() =~= Seq::<u8>::empty());
        assert(accum(0, 0, code(c)) == 58);
    } else if c == 'V' {
        assert(code(c) =~= seq![DIT, DIT, DIT, DAH]);
        assert(seq![DIT, DIT, DIT, DAH].drop_first() =~= seq![DIT, DIT, DAH]);
        assert(seq![DIT, DIT, DAH].drop_first() =~= seq![DIT, DAH]);
        assert(seq![DIT, DAH].drop_first() =~= seq![DAH]);
        assert(seq![DAH].drop_first() =~= Seq::<u8>::empty());
        assert(accum(0, 0, code(c)) == 234);
    } else if c == 'W' {
        assert(code(c) =~= seq![DIT, DAH, DAH]);
        assert(seq![DIT, DAH, DAH].drop_first() =~= seq![DAH, DAH]);
        assert(seq![DAH, DAH].drop_first() =~= seq![DAH]);
        assert(seq![DAH].drop_first() =~= Seq::<u8>::empty());
        assert(accum(0, 0, code(c)) == 62);
    } else if c == 'X' {
        assert(code(c) =~= seq![DAH, DIT, DIT, DAH]);
        assert(seq![DAH, DIT, DIT, DAH].drop_first() =~= seq![DIT, DIT, DAH]);
        assert(seq![DIT, DIT, DAH].drop_first() =~= seq![DIT, DAH]);
        assert(seq![DIT, DAH].drop_first() =~= seq![DAH]);
        assert(seq![DAH].drop_first() =~= Seq::<u8>::empty());
        assert(accum(0, 0, code(c)) == 235);
    } else if c == 'Y' {
        assert(code(c) =~= seq![DAH, DIT, DAH, DAH]);
        assert(seq![DAH, DIT, DAH, DAH].drop_first() =~= seq![DIT, DAH, DAH]);
        assert(seq![DIT, DAH, DAH].drop_first() =~= seq![DAH, DAH]);
        assert(seq![DAH, DAH].drop_first() =~= seq![DAH]);
        assert(seq![DAH].drop_first() =~= Seq::<u8>::empty());
        assert(accum(0, 0, code(c)) == 251);
    } else if c == 'Z' {
        assert(code(c) =~= seq![DAH, DAH, DIT, DIT]);
        assert(seq![DAH, DAH, DIT, DIT].drop_first() =~= seq![DAH, DIT, DIT]);
        assert(seq![DAH, DIT, DIT].drop_first() =~= seq![DIT, DIT]);
        assert(seq![DIT, DIT].drop_first() =~= seq![DIT]);
        assert(seq![DIT].drop_first() =~= Seq::<u8>::empty());
        assert(accum(0, 0, code(c)) == 175);
    } else if c == '1' {
        assert(code(c) =~= seq![DIT, DAH, DAH, DAH, DAH]);
        assert(seq![DIT, DAH, DAH, DAH, DAH].drop_first() =~= seq![DAH, DAH, DAH, DAH]);
        assert(seq![DAH, DAH, DAH, DAH].drop_first() =~= seq![DAH, DAH, DAH]);
        assert(seq![DAH, DAH, DAH].drop_first() =~= seq![DAH, DAH]);
        assert(seq![DAH, DAH].drop_first() =~= seq![DAH]);
        assert(seq![DAH].drop_first() =~= Seq::<u8>::empty());
        assert(accum(0, 0, code(c)) == 1022);
    } else if c == '2' {
        assert(code(c) =~= seq![DIT, DIT, DAH, DAH, DAH]);
        assert(seq![DIT, DIT, DAH, DAH, DAH].drop_first() =~= seq![DIT, DAH, DAH, DAH]);
        assert(seq![DIT, DAH, DAH, DAH].drop_first() =~= seq![DAH, DAH, DAH]);
        assert(seq![DAH, DAH, DAH].drop_first() =~= seq![DAH, DAH]);
        assert(seq![DAH, DAH].drop_first() =~= seq![DAH]);
        assert(seq![DAH].drop_first() =~= Seq::<u8>::empty());
        assert(accum(0, 0, code(c)) == 1018);
    } else if c == '3' {
        assert(code(c) =~= seq![DIT, DIT, DIT, DAH, DAH]);
        assert(seq![DIT, DIT, DIT, DAH, DAH].drop_first() =~= seq![DIT, DIT, DAH, DAH]);
        assert(seq![DIT, DIT, DAH, DAH].drop_first() =~= seq![DIT, DAH, DAH]);
        assert(seq![DIT, DAH, DAH].drop_first() =~= seq![DAH, DAH]);
        assert(seq![DAH, DAH].drop_first() =~= seq![DAH]);
        assert(seq![DAH].drop_first() =~= Seq::<u8>::empty());
        assert(accum(0, 0, code(c)) == 1002);
    } else if c == '4' {
        assert(code(c) =~= seq![DIT, DIT, DIT, DIT, DAH]);
        assert(seq![DIT, DIT, DIT, DIT, DAH].drop_first() =~= seq![DIT, DIT, DIT, DAH]);
        assert(seq![DIT, DIT, DIT, DAH].drop_first() =~= seq![DIT, DIT, DAH]);
        assert(seq![DIT, DIT, DAH].drop_first() =~= seq![DIT, DAH]);
        assert(seq![DIT, DAH].drop_first() =~= seq![DAH]);
        assert(seq![DAH].drop_first() =~= Seq::<u8>::empty());
        assert(accum(0, 0, code(c)) == 938);
    } else if c == '5' {
        assert(code(c) =~= seq![DIT, DIT, DIT, DIT, DIT]);
        assert(seq![DIT, DIT, DIT, DIT, DIT].drop_first() =~= seq![DIT, DIT, DIT, DIT]);
        assert(seq![DIT, DIT, DIT, DIT].drop_first() =~= seq![DIT, DIT, DIT]);
        assert(seq![DIT, DIT, DIT].drop_first() =~= seq![DIT, DIT]);
        assert(seq![DIT, DIT].drop_first() =~= seq![DIT]);
        assert(seq![DIT].drop_first() =~= Seq::<u8>::empty());
        assert(accum(0, 0, code(c)) == 682);
    } else if c == '6' {
        assert(code(c) =~= seq![DAH, DIT, DIT, DIT, DIT]);
        assert(seq![DAH, DIT, DIT, DIT, DIT].drop_first() =~= seq![DIT, DIT, DIT, DIT]);
        assert(seq![DIT, DIT, DIT, DIT].drop_first() =~= seq![DIT, DIT, DIT]);
        assert(seq![DIT, DIT, DIT].drop_first() =~= seq![DIT, DIT]);
        assert(seq![DIT, DIT].drop_first() =~= seq![DIT]);
        assert(seq![DIT].drop_first() =~= Seq::<u8>::empty());
        assert(accum(0, 0, code(c)) == 683);
    } else if c == '7' {
        assert(code(c) =~= seq![DAH, DAH, DIT, DIT, DIT]);
        assert(seq![DAH, DAH, DIT, DIT, DIT].drop_first() =~= seq![DAH, DIT, DIT, DIT]);
        assert(seq![DAH, DIT, DIT, DIT].drop_first() =~= seq![DIT, DIT, DIT]);
        assert(seq![DIT, DIT, DIT].drop_first() =~= seq![DIT, DIT]);
        assert(seq![DIT, DIT].drop_first() =~= seq![DIT]);
        assert(seq![DIT].drop_first() =~= Seq::<u8>::empty());
        assert(accum(0, 0, code(c)) == 687);
    } else if c == '8' {
        assert(code(c) =~= seq![DAH, DAH, DAH, DIT, DIT]);
        assert(seq![DAH, DAH, DAH, DIT, DIT].drop_first() =~= seq![DAH, DAH, DIT, DIT]);
        assert(seq![DAH, DAH, DIT, DIT].drop_first() =~= seq![DAH, DIT, DIT]);
        assert(seq![DAH, DIT, DIT].drop_first() =~= seq![DIT, DIT]);
        assert(seq![DIT, DIT].drop_first() =~= seq![DIT]);
        assert(seq![DIT].drop_first() =~= Seq::<u8>::empty());
        assert(accum(0, 0, code(c)) == 703);
    } else if c == '9' {
        assert(code(c) =~= seq![DAH, DAH, DAH, DAH, DIT]);
        assert(seq![DAH, DAH, DAH, DAH, DIT].drop_first() =~= seq![DAH, DAH, DAH, DIT]);
        assert(seq![DAH, DAH, DAH, DIT].drop_first() =~= seq![DAH, DAH, DIT]);
        assert(seq![DAH, DAH, DIT].drop_first() =~= seq![DAH, DIT]);
        assert(seq![DAH, DIT].drop_first() =~= seq![DIT]);
        assert(seq![DIT].drop_first() =~= Seq::<u8>::empty());
        assert(accum(0, 0, code(c)) == 767);
    } else if c == '0' {
        assert(code(c) =~= seq![DAH, DAH, DAH, DAH, DAH]);
        assert(seq![DAH, DAH, DAH, DAH, DAH].drop_first() =~= seq![DAH, DAH, DAH, DAH]);
        assert(seq![DAH, DAH, DAH, DAH].drop_first() =~= seq![DAH, DAH, DAH]);
        assert(seq![DAH, DAH, DAH].drop_first() =~= seq![DAH, DAH]);
        assert(seq![DAH, DAH].drop_first() =~= seq![DAH]);
        assert(seq![DAH].drop_first() =~= Seq::<u8>::empty());
        assert(accum(0, 0, code(c)) == 1023);
    } else if c == ':' {
        assert(code(c) =~= seq![DAH, DIT, DIT, DAH, DAH]);
        assert(seq![DAH, DIT, DIT, DAH, DAH].drop_first() =~= seq![DIT, DIT, DAH, DAH]);
        assert(seq![DIT, DIT, DAH, DAH].drop_first() =~= seq![DIT, DAH, DAH]);
        assert(seq![DIT, DAH, DAH].drop_first() =~= seq![DAH, DAH]);
        assert(seq![DAH, DAH].drop_first() =~= seq![DAH]);
        assert(seq![DAH].drop_first() =~= Seq::<u8>::empty());
        assert(accum(0, 0, code(c)) == 1003);
    } else if c == '.' {
        assert(code(c) =~= seq![DIT, DAH, DIT, DAH, DIT, DAH]);
        assert(seq![DIT, DAH, DIT, DAH, DIT, DAH].drop_first() =~= seq![DAH, DIT, DAH, DIT, DAH]);
        assert(seq![DAH, DIT, DAH, DIT, DAH].drop_first() =~= seq![DIT, DAH, DIT, DAH]);
        assert(seq![DIT, DAH, DIT, DAH].drop_first() =~= seq![DAH, DIT, DAH]);
        assert(seq![DAH, DIT, DAH].drop_first() =~= seq![DIT, DAH]);
        assert(seq![DIT, DAH].drop_first() =~= seq![DAH]);
        assert(seq![DAH].drop_first() =~= Seq::<u8>::empty());
        assert(accum(0, 0, code(c)) == 3822);
    } else if c == '?' {
        assert(code(c) =~= seq![DIT, DIT, DAH, DAH, DIT, DIT]);
        assert(seq![DIT, DIT, DAH, DAH, DIT, DIT].drop_first() =~= seq![DIT, DAH, DAH, DIT, DIT]);
        assert(seq![DIT, DAH, DAH, DIT, DIT].drop_first() =~= seq![DAH, DAH, DIT, DIT]);
        assert(seq![DAH, DAH, DIT, DIT].drop_first() =~= seq![DAH, DIT, DIT]);
        assert(seq![DAH, DIT, DIT].drop_first() =~= seq![DIT, DIT]);
        assert(seq![DIT, DIT].drop_first() =~= seq![DIT]);
        assert(seq![DIT].drop_first() =~= Seq::<u8>::empty());
        assert(accum(0, 0, code(c)) == 2810);
    } else if c == '/' {
        assert(code(c) =~= seq![DAH, DIT, DIT, DAH, DIT]);
        assert(seq![DAH, DIT, DIT, DAH, DIT].drop_first() =~= seq![DIT, DIT, DAH, DIT]);
        assert(seq![DIT, DIT, DAH, DIT].drop_first() =~= seq![DIT, DAH, DIT]);
        assert(seq![DIT, DAH, DIT].drop_first() =~= seq![DAH, DIT]);
        assert(seq![DAH, DIT].drop_first() =~= seq![DIT]);
        assert(seq![DIT].drop_first() =~= Seq::<u8>::empty());
        assert(accum(0, 0, code(c)) == 747);
    } else if c == '-' {
        assert(code(c) =~= seq![DAH, DIT, DIT, DIT, DIT, DAH]);
        assert(seq![DAH, DIT, DIT, DIT, DIT, DAH].drop_first() =~= seq![DIT, DIT, DIT, DIT, DAH]);
        assert(seq![DIT, DIT, DIT, DIT, DAH].drop_first() =~= seq![DIT, DIT, DIT, DAH]);
        assert(seq![DIT, DIT, DIT, DAH].drop_first() =~= seq![DIT, DIT, DAH]);
        assert(seq![DIT, DIT, DAH].drop_first() =~= seq![DIT, DAH]);
        assert(seq![DIT, DAH].drop_first() =~= seq![DAH]);
        assert(seq![DAH].drop_first() =~= Seq::<u8>::empty());
        assert(accum(0, 0, code(c)) == 3755);
    } else if c == '(' {
        assert(code(c) =~= seq![DAH, DIT, DAH, DAH, DIT]);
        assert(seq![DAH, DIT, DAH, DAH, DIT].drop_first() =~= seq![DIT, DAH, DAH, DIT]);
        assert(seq![DIT, DAH, DAH, DIT].drop_first() =~= seq![DAH, DAH, DIT]);
        assert(seq![DAH, DAH, DIT].drop_first() =~= seq![DAH, DIT]);
        assert(seq![DAH, DIT].drop_first() =~= seq![DIT]);
        assert(seq![DIT].drop_first() =~= Seq::<u8>::empty());
        assert(accum(0, 0, code(c)) == 763);
    } else if c == ')' {
        assert(code(c) =~= seq![DAH, DIT, DAH, DAH, DIT, DAH]);
        assert(seq![DAH, DIT, DAH, DAH, DIT, DAH].drop_first() =~= seq![DIT, DAH, DAH, DIT, DAH]);
        assert(seq![DIT, DAH, DAH, DIT, DAH].drop_first() =~= seq![DAH, DAH, DIT, DAH]);
        assert(seq![DAH, DAH, DIT, DAH].drop_first() =~= seq![DAH, DIT, DAH]);
        assert(seq![DAH, DIT, DAH].drop_first() =~= seq![DIT, DAH]);
        assert(seq![DIT, DAH].drop_first() =~= seq![DAH]);
        assert(seq![DAH].drop_first() =~= Seq::<u8>::empty());
        assert(accum(0, 0, code(c)) == 3835);
    }
}

} // verus!
