//! Small verified string helpers: equality, digit tables, decimal rendering
//! and zero-padding, and the all-zeros test used by the success verdict.

use vstd::prelude::*;

verus! {

/// Compares two string slices by their character sequences.
pub fn str_eq(a: &str, b: &str) -> (r: bool)
    ensures
        r == (a@ == b@),
{
    let sa: String = a.to_owned();
    let sb: String = b.to_owned();
    sa == sb
}

/// Whether `v` holds a string whose characters equal `s`.
pub fn contains_str(v: &Vec<String>, s: &str) -> (r: bool)
    ensures
        r == v.deep_view().contains(s@),
{
    let mut i: usize = 0;
    while i < v.len()
        invariant
            i <= v.len(),
            forall|j: int| 0 <= j < i ==> v.deep_view()[j] != s@,
        decreases v.len() - i,
    {
        if str_eq(v[i].as_str(), s) {
            assert(v.deep_view()[i as int] == s@);
            return true;
        }
        i = i + 1;
    }
    false
}

/// A string matches the success pattern when it is one or more '0' characters
/// and nothing else.
pub open spec fn spec_all_zeros(s: Seq<char>) -> bool {
    s.len() > 0 && (forall|i: int| 0 <= i < s.len() ==> s[i] == '0')
}

/// Whether `s` consists only of '0' characters and is non-empty.
pub fn is_all_zeros(s: &str) -> (r: bool)
    ensures
        r == spec_all_zeros(s@),
{
    let n: usize = s.unicode_len();
    if n == 0 {
        return false;
    }
    let mut i: usize = 0;
    while i < n
        invariant
            i <= n,
            n == s@.len(),
            forall|j: int| 0 <= j < i ==> s@[j] == '0',
        decreases n - i,
    {
        if s.get_char(i) != '0' {
            return false;
        }
        i = i + 1;
    }
    true
}

/// The decimal digit character for `d`, which must be below ten.
pub open spec fn spec_dec_digit(d: int) -> char {
    if d == 0 {
        '0'
    } else if d == 1 {
        '1'
    } else if d == 2 {
        '2'
    } else if d == 3 {
        '3'
    } else if d == 4 {
        '4'
    } else if d == 5 {
        '5'
    } else if d == 6 {
        '6'
    } else if d == 7 {
        '7'
    } else if d == 8 {
        '8'
    } else {
        '9'
    }
}

/// The uppercase hexadecimal digit character for `d`, which must be below sixteen.
pub open spec fn spec_hex_digit(d: int) -> char {
    if d < 10 {
        spec_dec_digit(d)
    } else if d == 10 {
        'A'
    } else if d == 11 {
        'B'
    } else if d == 12 {
        'C'
    } else if d == 13 {
        'D'
    } else if d == 14 {
        'E'
    } else {
        'F'
    }
}

/// A one-character string slice holding the uppercase hexadecimal digit `d`.
pub fn hex_digit_str(d: u8) -> (r: &'static str)
    requires
        d < 16,
    ensures
        r@ =~= seq![spec_hex_digit(d as int)],
{
    proof {
        reveal_strlit("0");
        reveal_strlit("1");
        reveal_strlit("2");
        reveal_strlit("3");
        reveal_strlit("4");
        reveal_strlit("5");
        reveal_strlit("6");
        reveal_strlit("7");
        reveal_strlit("8");
        reveal_strlit("9");
        reveal_strlit("A");
        reveal_strlit("B");
        reveal_strlit("C");
        reveal_strlit("D");
        reveal_strlit("E");
        reveal_strlit("F");
    }
    match d {
        0 => "0",
        1 => "1",
        2 => "2",
        3 => "3",
        4 => "4",
        5 => "5",
        6 => "6",
        7 => "7",
        8 => "8",
        9 => "9",
        10 => "A",
        11 => "B",
        12 => "C",
        13 => "D",
        14 => "E",
        _ => "F",
    }
}

/// The first position at or after `i` holding `c`, or the length when
/// there is none.
pub open spec fn spec_find(s: Seq<char>, i: int, c: char) -> int
    decreases s.len() - i,
{
    if i >= s.len() {
        s.len() as int
    } else if i >= 0 && s[i] == c {
        i
    } else {
        spec_find(s, i + 1, c)
    }
}

/// What `spec_find` returns: a position in range, holding `c` when it is
/// short of the end, with no `c` before it.
pub proof fn lemma_find(s: Seq<char>, i: int, c: char)
    requires
        0 <= i <= s.len(),
    ensures
        i <= spec_find(s, i, c) <= s.len(),
        spec_find(s, i, c) < s.len() ==> s[spec_find(s, i, c)] == c,
        forall|j: int| i <= j < spec_find(s, i, c) ==> s[j] != c,
    decreases s.len() - i,
{
    if i < s.len() && s[i] != c {
        lemma_find(s, i + 1, c);
    }
}

/// Whether `p` occurs in `s` starting at `i`.
pub open spec fn spec_match(s: Seq<char>, i: int, p: Seq<char>) -> bool {
    0 <= i && i + p.len() <= s.len() && s.subrange(i, i + p.len()) == p
}

/// Converts a string slice into its character vector.
pub fn to_chars(s: &str) -> (r: Vec<char>)
    ensures
        r@ == s@,
{
    let n: usize = s.unicode_len();
    let mut r: Vec<char> = Vec::new();
    let mut i: usize = 0;
    while i < n
        invariant
            i <= n,
            n == s@.len(),
            r@ =~= s@.take(i as int),
        decreases n - i,
    {
        r.push(s.get_char(i));
        i = i + 1;
    }
    proof {
        assert(s@.take(n as int) =~= s@);
    }
    r
}

/// Finds the first `c` at or after `from`, or the length when none.
pub fn find_char(s: &Vec<char>, from: usize, c: char) -> (r: usize)
    requires
        from <= s@.len(),
    ensures
        r == spec_find(s@, from as int, c),
        from <= r <= s@.len(),
    {
    let mut i: usize = from;
    while i < s.len()
        invariant
            from <= i <= s@.len(),
            spec_find(s@, from as int, c) == spec_find(s@, i as int, c),
        decreases s@.len() - i,
    {
        if s[i] == c {
            return i;
        }
        i = i + 1;
    }
    i
}

/// Whether `p` occurs in `s` starting at `i`.
pub fn match_at(s: &Vec<char>, i: usize, p: &str) -> (r: bool)
    requires
        i <= s@.len(),
    ensures
        r == spec_match(s@, i as int, p@),
{
    let plen: usize = p.unicode_len();
    let slen: usize = s.len();
    if plen > slen - i {
        return false;
    }
    let mut j: usize = 0;
    while j < plen
        invariant
            j <= plen,
            plen == p@.len(),
            slen == s@.len(),
            i + plen <= slen,
            forall|k: int| 0 <= k < j ==> s@[i + k] == p@[k],
        decreases plen - j,
    {
        if s[i + j] != p.get_char(j) {
            assert(s@[i as int + j] != p@[j as int]);
            assert(!spec_match(s@, i as int, p@)) by {
                if spec_match(s@, i as int, p@) {
                    assert(s@.subrange(i as int, i + p@.len())[j as int] == p@[j as int]);
                }
            }
            return false;
        }
        j = j + 1;
    }
    proof {
        assert(s@.subrange(i as int, i + p@.len()) =~= p@);
    }
    true
}

/// The uppercase hexadecimal rendering of `n`, with no leading zeros (a
/// lone zero for 0).
pub open spec fn spec_hex_nat(n: nat) -> Seq<char>
    decreases n,
{
    if n < 16 {
        seq![spec_hex_digit(n as int)]
    } else {
        spec_hex_nat(n / 16).push(spec_hex_digit((n % 16) as int))
    }
}

/// Renders `n` in uppercase hexadecimal.
pub fn hex_u32_string(n: u32) -> (r: String)
    ensures
        r@ == spec_hex_nat(n as nat),
    decreases n,
{
    if n < 16 {
        hex_digit_str((n % 16) as u8).to_owned()
    } else {
        let head: String = hex_u32_string(n / 16);
        let digit: &str = hex_digit_str((n % 16) as u8);
        let out: String = head.concat(digit);
        proof {
            assert(out@ =~= spec_hex_nat(n as nat));
        }
        out
    }
}

/// The decimal rendering of `n`, with no leading zeros (a lone zero for 0).
pub open spec fn spec_dec(n: nat) -> Seq<char>
    decreases n,
{
    if n < 10 {
        seq![spec_dec_digit(n as int)]
    } else {
        spec_dec((n / 10) as nat).push(spec_dec_digit((n % 10) as int))
    }
}

/// Renders `n` in decimal.
pub fn dec_string(n: u64) -> (r: String)
    ensures
        r@ == spec_dec(n as nat),
    decreases n,
{
    if n < 10 {
        hex_digit_str((n % 10) as u8).to_owned()
    } else {
        let head: String = dec_string(n / 10);
        let digit: &str = hex_digit_str((n % 10) as u8);
        let out: String = head.concat(digit);
        proof {
            assert(out@ =~= spec_dec(n as nat));
        }
        out
    }
}

/// A run of `len` '0' characters.
pub open spec fn spec_zeros(len: nat) -> Seq<char> {
    Seq::new(len, |i: int| '0')
}

/// The decimal rendering of `n` left-padded with '0' to at least `width`
/// characters; longer renderings are kept whole.
pub open spec fn spec_dec_padded(n: nat, width: nat) -> Seq<char> {
    if spec_dec(n).len() >= width {
        spec_dec(n)
    } else {
        spec_zeros((width - spec_dec(n).len()) as nat) + spec_dec(n)
    }
}

/// Renders `n` in decimal, zero-left-padded to at least `width` characters.
pub fn dec_string_padded(n: u64, width: usize) -> (r: String)
    ensures
        r@ == spec_dec_padded(n as nat, width as nat),
{
    let digits: String = dec_string(n);
    let mut pad: String = String::new();
    let mut have: usize = digits.as_str().unicode_len();
    if have >= width {
        proof {
            assert(digits@ =~= spec_dec_padded(n as nat, width as nat));
        }
        return digits;
    }
    while have < width
        invariant
            have <= width,
            have as int == pad@.len() + spec_dec(n as nat).len(),
            pad@ =~= spec_zeros(pad@.len()),
        decreases width - have,
    {
        pad.append("0");
        proof {
            reveal_strlit("0");
            assert(pad@ =~= spec_zeros(pad@.len()));
        }
        have = have + 1;
    }
    let out: String = pad.concat(digits.as_str());
    proof {
        assert(out@ =~= spec_dec_padded(n as nat, width as nat));
    }
    out
}

} // verus!
