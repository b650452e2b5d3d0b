//! Small text helpers: blank characters, empty lines, decimal numbers, repetition.
use vstd::prelude::*;
use vstd::string::StringExecFns;

verus! {

/// A byte of an empty line: space, tab or carriage return.
pub open spec fn is_empty_line_byte(b: u8) -> bool {
    b == 32u8 || b == 9u8 || b == 13u8
}

/// A line is empty when it holds nothing but spaces, tabs and carriage returns.
pub open spec fn is_empty_line(t: Seq<u8>) -> bool {
    forall|k: int| 0 <= k < t.len() ==> is_empty_line_byte(#[trigger] t[k])
}

/// Whether a line holds nothing but spaces, tabs and carriage returns.
pub fn is_empty_text(t: &[u8]) -> (r: bool)
    ensures
        r == is_empty_line(t@),
{
    let mut k: usize = 0;
    while k < t.len()
        invariant
            0 <= k <= t@.len(),
            forall|j: int| 0 <= j < k ==> is_empty_line_byte(#[trigger] t@[j]),
        decreases t@.len() - k,
    {
        if !(t[k] == 32u8 || t[k] == 9u8 || t[k] == 13u8) {
            return false;
        }
        k = k + 1;
    }
    true
}

/// The text of one decimal digit.
pub open spec fn digit_str(d: int) -> Seq<char> {
    if d == 0 {
        "0"@
    } else if d == 1 {
        "1"@
    } else if d == 2 {
        "2"@
    } else if d == 3 {
        "3"@
    } else if d == 4 {
        "4"@
    } else if d == 5 {
        "5"@
    } else if d == 6 {
        "6"@
    } else if d == 7 {
        "7"@
    } else if d == 8 {
        "8"@
    } else {
        "9"@
    }
}

/// The decimal representation of a number, without leading zeros.
pub open spec fn spec_decimal(n: nat) -> Seq<char>
    decreases n,
{
    if n < 10 {
        digit_str(n as int)
    } else {
        spec_decimal(n / 10) + digit_str((n % 10) as int)
    }
}

fn digit(d: usize) -> (s: &'static str)
    requires
        d < 10,
    ensures
        s@ == digit_str(d as int),
{
    if d == 0 {
        "0"
    } else if d == 1 {
        "1"
    } else if d == 2 {
        "2"
    } else if d == 3 {
        "3"
    } else if d == 4 {
        "4"
    } else if d == 5 {
        "5"
    } else if d == 6 {
        "6"
    } else if d == 7 {
        "7"
    } else if d == 8 {
        "8"
    } else {
        "9"
    }
}

/// The decimal representation of a number, as `to_string` gives it.
pub fn decimal(n: usize) -> (s: String)
    ensures
        s@ == spec_decimal(n as nat),
    decreases n,
{
    if n < 10 {
        String::from_str(digit(n))
    } else {
        let mut s = decimal(n / 10);
        s.append(digit(n % 10));
        s
    }
}

/// `n` copies of `unit`, one after another.
pub open spec fn spec_repeat(unit: Seq<char>, n: nat) -> Seq<char>
    decreases n,
{
    if n == 0 {
        Seq::empty()
    } else {
        spec_repeat(unit, (n - 1) as nat) + unit
    }
}

/// `n` copies of `unit`, as `str::repeat` gives them.
pub fn repeat_str(unit: &str, n: usize) -> (s: String)
    ensures
        s@ == spec_repeat(unit@, n as nat),
{
    let mut s = String::new();
    let mut i: usize = 0;
    while i < n
        invariant
            0 <= i <= n,
            s@ == spec_repeat(unit@, i as nat),
        decreases n - i,
    {
        s.append(unit);
        i = i + 1;
    }
    s
}

/// The bytes of an ASCII text: each character's code.
pub open spec fn ascii_bytes(s: Seq<char>) -> Seq<u8> {
    Seq::new(s.len(), |k: int| s[k] as u8)
}

/// Whether the bytes `b` spell the ASCII text `s`.
pub fn bytes_eq_str(b: &[u8], s: &str) -> (r: bool)
    requires
        forall|k: int| 0 <= k < s@.len() ==> (#[trigger] s@[k]) as u32 <= 127,
    ensures
        r == (b@ == ascii_bytes(s@)),
{
    let n = s.unicode_len();
    if b.len() != n {
        assert(b@.len() != ascii_bytes(s@).len());
        return false;
    }
    let mut k: usize = 0;
    while k < n
        invariant
            n == s@.len(),
            b@.len() == n,
            0 <= k <= n,
            forall|k: int| 0 <= k < s@.len() ==> (#[trigger] s@[k]) as u32 <= 127,
            forall|j: int| 0 <= j < k ==> b@[j] == (s@[j] as u8),
        decreases n - k,
    {
        let c = s.get_char(k);
        let code = c as u32;
        if code != b[k] as u32 {
            assert(b@[k as int] != (s@[k as int] as u8));
            assert(b@ != ascii_bytes(s@)) by {
                assert(ascii_bytes(s@)[k as int] == (s@[k as int] as u8));
            }
            return false;
        }
        k = k + 1;
    }
    assert(b@ =~= ascii_bytes(s@));
    true
}

/// What `str::to_lowercase` gives for a text: each character by its Unicode lowercase
/// mapping.
pub uninterp spec fn lowercase(s: Seq<char>) -> Seq<char>;

/// An ASCII character in lowercase: `A` to `Z` become `a` to `z`, the rest stay.
pub open spec fn ascii_lower(c: char) -> char {
    if 'A' <= c <= 'Z' {
        ((c as u32) + 32) as char
    } else {
        c
    }
}

/// A text of ASCII characters only.
pub open spec fn is_ascii_text(s: Seq<char>) -> bool {
    forall|i: int| 0 <= i < s.len() ==> (#[trigger] s[i] as u32) < 128
}

/// The text in lowercase: an ASCII text character by character, any other text as
/// `str::to_lowercase` gives it.
pub open spec fn lowered(s: Seq<char>) -> Seq<char> {
    if is_ascii_text(s) {
        s.map_values(|c: char| ascii_lower(c))
    } else {
        lowercase(s)
    }
}

/// The text in lowercase, by `str::to_lowercase` of the standard library. Its documentation
/// lowercases each character by its Unicode mapping, which turns ASCII `A` to `Z` into `a` to
/// `z` and leaves every other ASCII character as it is; the mapping of other characters is
/// named by `lowercase`.
#[verifier::external_body]
pub(crate) fn to_lowercase(s: &str) -> (r: String)
    ensures
        r@ == lowercase(s@),
        is_ascii_text(s@) ==> r@ == s@.map_values(|c: char| ascii_lower(c)),
{
    s.to_lowercase()
}

/// Whether two texts are equal.
pub fn str_eq(a: &str, b: &str) -> (r: bool)
    ensures
        r == (a@ == b@),
{
    let n = a.unicode_len();
    if n != b.unicode_len() {
        return false;
    }
    let mut k: usize = 0;
    while k < n
        invariant
            n == a@.len(),
            n == b@.len(),
            0 <= k <= n,
            forall|j: int| 0 <= j < k ==> a@[j] == b@[j],
        decreases n - k,
    {
        if a.get_char(k) != b.get_char(k) {
            return false;
        }
        k = k + 1;
    }
    assert(a@ =~= b@);
    true
}

} // verus!
