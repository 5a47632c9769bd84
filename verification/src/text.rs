//! Text built by the library: numbers in decimal, strings from characters.

use vstd::prelude::*;

verus! {

/// The decimal digit for a value below ten.
pub open spec fn decimal_digit(d: nat) -> char {
    (('0' as nat) + d) as char
}

/// A number written in decimal, without leading zeros.
pub open spec fn decimal(n: nat) -> Seq<char>
    decreases n,
{
    if n < 10 {
        seq![decimal_digit(n)]
    } else {
        decimal(n / 10).push(decimal_digit(n % 10))
    }
}

/// `n` written in decimal.
pub fn decimal_string(n: u64) -> (r: String)
    ensures
        r@ == decimal(n as nat),
{
    let mut digits: Vec<char> = Vec::new();
    let mut m: u64 = n;
    while m >= 10
        invariant
            decimal(n as nat) == decimal(m as nat) + digits@,
        decreases m,
    {
        let d = m % 10;
        let c = ((d as u32) + ('0' as u32)) as u8 as char;
        proof {
            assert(c == decimal_digit(d as nat));
            assert(decimal(m as nat) == decimal((m / 10) as nat).push(decimal_digit((m % 10) as nat)));
        }
        let ghost prev = digits@;
        digits.insert(0, c);
        proof {
            assert(digits@ == seq![c] + prev);
            assert(decimal(m as nat) + prev =~= decimal((m / 10) as nat) + (seq![c] + prev));
        }
        m = m / 10;
    }
    let first = ((m as u32) + ('0' as u32)) as u8 as char;
    proof {
        assert(first == decimal_digit(m as nat));
    }
    let mut text: Vec<char> = Vec::new();
    text.push(first);
    let mut i: usize = 0;
    while i < digits.len()
        invariant
            i <= digits@.len(),
            text@ == seq![first] + digits@.take(i as int),
        decreases digits@.len() - i,
    {
        text.push(digits[i]);
        proof {
            assert(text@ =~= seq![first] + digits@.take(i + 1));
        }
        i = i + 1;
    }
    proof {
        assert(digits@.take(digits@.len() as int) =~= digits@);
        assert(text@ =~= decimal(n as nat));
    }
    string_of_chars(&text)
}

/// The string holding the characters `cs`.
pub fn string_of_chars(cs: &Vec<char>) -> (r: String)
    ensures
        r@ == cs@,
{
    let mut s = String::new();
    let mut i: usize = 0;
    while i < cs.len()
        invariant
            i <= cs@.len(),
            s@ == cs@.take(i as int),
        decreases cs@.len() - i,
    {
        push_char(&mut s, cs[i]);
        proof {
            assert(s@ =~= cs@.take(i + 1));
        }
        i = i + 1;
    }
    proof {
        assert(cs@.take(cs@.len() as int) =~= cs@);
    }
    s
}

/// `String::push`: append one character.
#[verifier::external_body]
fn push_char(s: &mut String, c: char)
    ensures
        final(s)@ == old(s)@.push(c),
{
    s.push(c);
}



/// The lower-case hexadecimal digit for a value below sixteen.
pub open spec fn hex_nibble(d: nat) -> char {
    if d < 10 {
        (('0' as nat) + d) as char
    } else {
        (('a' as nat) + (d - 10)) as char
    }
}

/// Sixteen to the power `k`.
pub open spec fn pow16(k: nat) -> nat
    decreases k,
{
    if k == 0 {
        1
    } else {
        16 * pow16((k - 1) as nat)
    }
}

/// `v` as `0x` and eight lower-case hexadecimal digits, most significant
/// first (the `{:#010x}` form of a `u32`).
pub open spec fn hex_u32(v: u32) -> Seq<char> {
    seq!['0', 'x'] + Seq::new(8, |k: int| hex_nibble(((v as nat) / pow16((7 - k) as nat)) % 16))
}

/// `v` in the form `0x` and eight lower-case hexadecimal digits.
pub fn hex_u32_string(v: u32) -> (r: String)
    ensures
        r@ == hex_u32(v),
{
    let mut cs: Vec<char> = Vec::new();
    cs.push('0');
    cs.push('x');
    let mut divisor: u32 = 0x1000_0000;
    let mut k: usize = 0;
    proof {
        reveal_with_fuel(pow16, 8);
        assert(cs@ =~= seq!['0', 'x'] + Seq::new(0, |j: int| hex_nibble(((v as nat) / pow16((7 - j) as nat)) % 16)));
    }
    while k < 8
        invariant
            k <= 8,
            divisor as nat == pow16((7 - k) as nat) || (k == 8 && divisor == 0),
            cs@ == seq!['0', 'x'] + Seq::new(k as nat, |j: int| hex_nibble(((v as nat) / pow16((7 - j) as nat)) % 16)),
        decreases 8 - k,
    {
        proof {
            reveal_with_fuel(pow16, 8);
        }
        let d = (v / divisor) % 16;
        let c = if d < 10 {
            ((d + ('0' as u32)) as u8) as char
        } else {
            ((d - 10 + ('a' as u32)) as u8) as char
        };
        assert(c == hex_nibble(d as nat));
        let ghost prev = cs@;
        cs.push(c);
        proof {
            assert(cs@ =~= seq!['0', 'x'] + Seq::new((k + 1) as nat, |j: int| hex_nibble(((v as nat) / pow16((7 - j) as nat)) % 16)));
        }
        divisor = divisor / 16;
        k = k + 1;
    }
    proof {
        assert(cs@ =~= hex_u32(v));
    }
    string_of_chars(&cs)
}

} // verus!
