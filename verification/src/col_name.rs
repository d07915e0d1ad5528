//! Spreadsheet-style column names: a bijective base-26 numeral system over
//! the letters A through Z, with no digit for zero past the first position.
//! 0 is "A", 25 is "Z", 26 is "AA", 701 is "ZZ", 702 is "AAA".

use vstd::prelude::*;

verus! {

/// The letter for one base-26 digit.
pub open spec fn col_letter(r: int) -> char {
    if r == 0 {
        'A'
    } else if r == 1 {
        'B'
    } else if r == 2 {
        'C'
    } else if r == 3 {
        'D'
    } else if r == 4 {
        'E'
    } else if r == 5 {
        'F'
    } else if r == 6 {
        'G'
    } else if r == 7 {
        'H'
    } else if r == 8 {
        'I'
    } else if r == 9 {
        'J'
    } else if r == 10 {
        'K'
    } else if r == 11 {
        'L'
    } else if r == 12 {
        'M'
    } else if r == 13 {
        'N'
    } else if r == 14 {
        'O'
    } else if r == 15 {
        'P'
    } else if r == 16 {
        'Q'
    } else if r == 17 {
        'R'
    } else if r == 18 {
        'S'
    } else if r == 19 {
        'T'
    } else if r == 20 {
        'U'
    } else if r == 21 {
        'V'
    } else if r == 22 {
        'W'
    } else if r == 23 {
        'X'
    } else if r == 24 {
        'Y'
    } else {
        'Z'
    }
}

/// The bijective base-26 name of the zero-based column index `n`.
pub open spec fn col_name(n: int) -> Seq<char>
    recommends
        n >= 0,
    decreases n,
{
    if n < 26 {
        seq![col_letter(n % 26)]
    } else {
        col_name(n / 26 - 1).push(col_letter(n % 26))
    }
}

/// Maps a zero-based column index to its alphabetic name.
pub fn number_to_col_name(n: i64) -> (r: String)
    requires
        n >= 0,
    ensures
        r@ == col_name(n as int),
    decreases n,
{
    let rem: i64 = n % 26;
    let letter: &str = if rem == 0 {
        "A"
    } else if rem == 1 {
        "B"
    } else if rem == 2 {
        "C"
    } else if rem == 3 {
        "D"
    } else if rem == 4 {
        "E"
    } else if rem == 5 {
        "F"
    } else if rem == 6 {
        "G"
    } else if rem == 7 {
        "H"
    } else if rem == 8 {
        "I"
    } else if rem == 9 {
        "J"
    } else if rem == 10 {
        "K"
    } else if rem == 11 {
        "L"
    } else if rem == 12 {
        "M"
    } else if rem == 13 {
        "N"
    } else if rem == 14 {
        "O"
    } else if rem == 15 {
        "P"
    } else if rem == 16 {
        "Q"
    } else if rem == 17 {
        "R"
    } else if rem == 18 {
        "S"
    } else if rem == 19 {
        "T"
    } else if rem == 20 {
        "U"
    } else if rem == 21 {
        "V"
    } else if rem == 22 {
        "W"
    } else if rem == 23 {
        "X"
    } else if rem == 24 {
        "Y"
    } else {
        "Z"
    };
    proof {
        reveal_strlit("A");
        reveal_strlit("B");
        reveal_strlit("C");
        reveal_strlit("D");
        reveal_strlit("E");
        reveal_strlit("F");
        reveal_strlit("G");
        reveal_strlit("H");
        reveal_strlit("I");
        reveal_strlit("J");
        reveal_strlit("K");
        reveal_strlit("L");
        reveal_strlit("M");
        reveal_strlit("N");
        reveal_strlit("O");
        reveal_strlit("P");
        reveal_strlit("Q");
        reveal_strlit("R");
        reveal_strlit("S");
        reveal_strlit("T");
        reveal_strlit("U");
        reveal_strlit("V");
        reveal_strlit("W");
        reveal_strlit("X");
        reveal_strlit("Y");
        reveal_strlit("Z");
        assert(letter@ =~= seq![col_letter(n as int % 26)]);
    }
    if n < 26 {
        let r = letter.to_owned();
        proof {
            assert(r@ =~= col_name(n as int));
        }
        r
    } else {
        let prefix = number_to_col_name(n / 26 - 1);
        let r = prefix.concat(letter);
        proof {
            assert(r@ =~= col_name(n as int));
        }
        r
    }
}

} // verus!
