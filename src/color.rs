use vstd::prelude::*;

verus! {

/// The value of a hexadecimal digit.
pub open spec fn hex_value(c: char) -> Option<int> {
    if '0' <= c && c <= '9' {
        Some(c as int - '0' as int)
    } else if 'a' <= c && c <= 'f' {
        Some(c as int - 'a' as int + 10)
    } else if 'A' <= c && c <= 'F' {
        Some(c as int - 'A' as int + 10)
    } else {
        None
    }
}

/// What a signed integer read in base 16 from the two characters `a`, `b`
/// is: two digits, or a sign and one digit.
pub open spec fn hex_pair_value(a: char, b: char) -> Option<int> {
    match (hex_value(a), hex_value(b)) {
        (Some(x), Some(y)) => Some(16 * x + y),
        (None, Some(y)) => if a == '+' {
            Some(y)
        } else if a == '-' {
            Some(-y)
        } else {
            None
        },
        _ => None,
    }
}

/// The first seven characters are ASCII.
pub open spec fn ascii_head(s: Seq<char>) -> bool {
    s.len() >= 7 && forall|i: int| 0 <= i < 7 ==> ((#[trigger] s[i]) as u32) < 128
}

/// The red, green and blue of an HTML colour code such as `#1A2B3C`: the
/// characters after the first are read in pairs. The first seven characters
/// must be ASCII.
pub open spec fn rgb_of(s: Seq<char>) -> Option<(int, int, int)> {
    if ascii_head(s) {
        match (hex_pair_value(s[1], s[2]), hex_pair_value(s[3], s[4]), hex_pair_value(s[5], s[6])) {
            (Some(r), Some(g), Some(b)) => Some((r, g, b)),
            _ => None,
        }
    } else {
        None
    }
}

fn hex_digit(c: char) -> (r: Option<i64>)
    ensures
        r matches Some(v) ==> hex_value(c) == Some(v as int),
        r is None ==> hex_value(c) is None,
{
    if '0' <= c && c <= '9' {
        Some((c as u32 - '0' as u32) as i64)
    } else if 'a' <= c && c <= 'f' {
        Some((c as u32 - 'a' as u32 + 10) as i64)
    } else if 'A' <= c && c <= 'F' {
        Some((c as u32 - 'A' as u32 + 10) as i64)
    } else {
        None
    }
}

fn hex_pair(a: char, b: char) -> (r: Option<i64>)
    ensures
        r matches Some(v) ==> hex_pair_value(a, b) == Some(v as int),
        r is None ==> hex_pair_value(a, b) is None,
{
    match (hex_digit(a), hex_digit(b)) {
        (Some(x), Some(y)) => Some(16 * x + y),
        (None, Some(y)) => if a == '+' {
            Some(y)
        } else if a == '-' {
            Some(-y)
        } else {
            None
        },
        _ => None,
    }
}

/// Reads an HTML colour code into its red, green and blue, each in base 16.
pub fn parse_rgb_i64(s: &String) -> (r: (i64, i64, i64))
    requires
        rgb_of(s@) is Some,
    ensures
        rgb_of(s@) == Some((r.0 as int, r.1 as int, r.2 as int)),
{
    let t = s.as_str();
    let r = hex_pair(t.get_char(1), t.get_char(2));
    let g = hex_pair(t.get_char(3), t.get_char(4));
    let b = hex_pair(t.get_char(5), t.get_char(6));
    (r.unwrap(), g.unwrap(), b.unwrap())
}

} // verus!
