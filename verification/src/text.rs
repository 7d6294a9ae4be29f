use vstd::prelude::*;
use vstd::arithmetic::div_mod::lemma_div_decreases;

verus! {

/// The ASCII digit character for a value below ten.
pub open spec fn digit_char(d: int) -> char {
    if d == 0 {
        '0'
    } else if d == 1 {
        '1'
    } else if d == 2 {
        '2'
    } else if d == 3 {
        '3'
    } else if d == 4 {
        '4'
    } else if d == 5 {
        '5'
    } else if d == 6 {
        '6'
    } else if d == 7 {
        '7'
    } else if d == 8 {
        '8'
    } else {
        '9'
    }
}

/// The ASCII digit byte for a value below ten.
pub open spec fn digit_byte(d: int) -> u8 {
    (48 + d) as u8
}

/// The decimal digits of `n` as characters, most significant first, with no
/// leading zero.
pub open spec fn spec_decimal_chars(n: nat) -> Seq<char>
    decreases n,
{
    if n < 10 {
        seq![digit_char(n as int)]
    } else {
        spec_decimal_chars(n / 10).push(digit_char((n % 10) as int))
    }
}

/// The decimal digits of `n` as ASCII bytes, most significant first, with no
/// leading zero.
pub open spec fn spec_decimal_bytes(n: nat) -> Seq<u8>
    decreases n,
{
    if n < 10 {
        seq![digit_byte(n as int)]
    } else {
        spec_decimal_bytes(n / 10).push(digit_byte((n % 10) as int))
    }
}

/// The one-character string for a decimal digit.
pub fn digit_str(d: u8) -> (r: &'static str)
    requires
        d < 10,
    ensures
        r@ == seq![digit_char(d as int)],
{
    proof {
        reveal_strlit("0");
        reveal_strlit("1");
        reveal_strlit("2");
        reveal_strlit("3");
        reveal_strlit("4");
        reveal_strlit("5");
        reveal_strlit("6");
        reveal_strlit("7");
        reveal_strlit("8");
        reveal_strlit("9");
    }
    let r: &'static str = match d {
        0 => "0",
        1 => "1",
        2 => "2",
        3 => "3",
        4 => "4",
        5 => "5",
        6 => "6",
        7 => "7",
        8 => "8",
        _ => "9",
    };
    proof {
        assert(r@ =~= seq![digit_char(d as int)]);
    }
    r
}

/// Write `n` in decimal.
pub fn decimal_string(n: usize) -> (r: String)
    ensures
        r@ == spec_decimal_chars(n as nat),
    decreases n,
{
    if n < 10 {
        String::from_str(digit_str(n as u8))
    } else {
        proof {
            lemma_div_decreases(n as int, 10);
        }
        let mut s = decimal_string(n / 10);
        s.append(digit_str((n % 10) as u8));
        proof {
            assert(s@ =~= spec_decimal_chars(n as nat));
        }
        s
    }
}

/// Write `n` in decimal, as ASCII bytes.
pub fn decimal_bytes(n: usize) -> (r: Vec<u8>)
    ensures
        r@ == spec_decimal_bytes(n as nat),
    decreases n,
{
    if n < 10 {
        let mut r: Vec<u8> = Vec::new();
        r.push(48 + n as u8);
        proof {
            assert(r@ =~= spec_decimal_bytes(n as nat));
        }
        r
    } else {
        proof {
            lemma_div_decreases(n as int, 10);
        }
        let mut r = decimal_bytes(n / 10);
        r.push(48 + (n % 10) as u8);
        proof {
            assert(r@ =~= spec_decimal_bytes(n as nat));
        }
        r
    }
}

/// The name of the world-sized snapshot: width and height in decimal, joined
/// by `x`.
pub open spec fn spec_world_name(width: nat, height: nat) -> Seq<char> {
    spec_decimal_chars(width) + seq!['x'] + spec_decimal_chars(height)
}

/// The name a saved snapshot is derived from: the world name and the number
/// of completed turns, joined by `x`.
pub open spec fn spec_save_name(width: nat, height: nat, turns: nat) -> Seq<char> {
    spec_world_name(width, height) + seq!['x'] + spec_decimal_chars(turns)
}

/// The name of the initial snapshot for a `width` by `height` world.
pub fn world_name(width: usize, height: usize) -> (r: String)
    ensures
        r@ == spec_world_name(width as nat, height as nat),
{
    proof {
        reveal_strlit("x");
    }
    let mut s = decimal_string(width);
    s.append("x");
    let rest = decimal_string(height);
    s.append(rest.as_str());
    proof {
        assert(s@ =~= spec_world_name(width as nat, height as nat));
    }
    s
}

/// The name to save a snapshot under after `turns` completed turns.
pub fn save_name(width: usize, height: usize, turns: usize) -> (r: String)
    ensures
        r@ == spec_save_name(width as nat, height as nat, turns as nat),
{
    proof {
        reveal_strlit("x");
    }
    let mut s = world_name(width, height);
    s.append("x");
    let rest = decimal_string(turns);
    s.append(rest.as_str());
    proof {
        assert(s@ =~= spec_save_name(width as nat, height as nat, turns as nat));
    }
    s
}

} // verus!
