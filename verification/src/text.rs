use vstd::prelude::*;
use vstd::string::{StrSliceExecFns, StringExecFns, StringSliceAdditionalSpecFns};

verus! {

/// Whether `prefix` is the beginning of `s`.
pub open spec fn has_prefix(s: Seq<char>, prefix: Seq<char>) -> bool {
    prefix.len() <= s.len() && s.subrange(0, prefix.len() as int) == prefix
}

/// The two strings, one after the other.
pub fn joined(a: &str, b: &str) -> (r: String)
    ensures
        r@ == a@ + b@,
{
    let mut r = a.to_owned();
    r.append(b);
    r
}

/// The three strings, one after the other.
pub fn joined3(a: &str, b: &str, c: &str) -> (r: String)
    ensures
        r@ == a@ + b@ + c@,
{
    let mut r = a.to_owned();
    r.append(b);
    r.append(c);
    r
}

/// Whether both strings hold the same characters.
pub fn str_eq(a: &str, b: &str) -> (r: bool)
    ensures
        r == (a@ == b@),
{
    let x = a.as_bytes();
    let y = b.as_bytes();
    proof {
        vstd::utf8::encode_utf8_decode_utf8(a@);
        vstd::utf8::encode_utf8_decode_utf8(b@);
    }
    if x.len() != y.len() {
        return false;
    }
    let mut i: usize = 0;
    while i < x.len()
        invariant
            i <= x.len(),
            x.len() == y.len(),
            x@ == a.spec_bytes(),
            y@ == b.spec_bytes(),
            forall|j: int| 0 <= j < i ==> x@[j] == y@[j],
        decreases x.len() - i,
    {
        if x[i] != y[i] {
            assert(a.spec_bytes() != b.spec_bytes());
            return false;
        }
        i += 1;
    }
    assert(x@ =~= y@);
    true
}

/// Whether the characters of `prefix` are the first characters of `s`.
pub fn str_starts_with(s: &str, prefix: &str) -> (r: bool)
    ensures
        r == has_prefix(s@, prefix@),
{
    let n = prefix.unicode_len();
    if s.unicode_len() < n {
        return false;
    }
    let mut i: usize = 0;
    while i < n
        invariant
            i <= n,
            n == prefix@.len(),
            n <= s@.len(),
            forall|j: int| 0 <= j < i ==> s@[j] == prefix@[j],
        decreases n - i,
    {
        if s.get_char(i) != prefix.get_char(i) {
            assert(s@.subrange(0, n as int)[i as int] != prefix@[i as int]);
            return false;
        }
        i += 1;
    }
    assert(s@.subrange(0, n as int) =~= prefix@);
    true
}

/// The value of a decimal digit.
pub open spec fn digit_value(c: char) -> Option<nat> {
    if '0' <= c <= '9' {
        Some((c as nat - '0' as nat) as nat)
    } else {
        None
    }
}

/// The number that a string of decimal digits spells; zero for no digits.
pub open spec fn digits_value(s: Seq<char>) -> Option<nat>
    decreases s.len(),
{
    if s.len() == 0 {
        Some(0)
    } else {
        match (digits_value(s.drop_last()), digit_value(s.last())) {
            (Some(v), Some(d)) => Some(10 * v + d),
            _ => None,
        }
    }
}

/// The number that decimal digits spell, where there is at least one and
/// the number fits 64 bits.
pub open spec fn digits_u64(digits: Seq<char>) -> Option<u64> {
    if digits.len() == 0 {
        None
    } else {
        match digits_value(digits) {
            Some(v) => if v <= u64::MAX {
                Some(v as u64)
            } else {
                None
            },
            None => None,
        }
    }
}

/// The number that a string spells: decimal digits, at least one, which
/// a plus sign may stand before, and a value that fits 64 bits.
pub open spec fn parsed_u64(s: Seq<char>) -> Option<u64> {
    if s.len() > 0 && s[0] == '+' {
        digits_u64(s.drop_first())
    } else {
        digits_u64(s)
    }
}

/// A string of digits spells at least what its beginning spells.
pub proof fn lemma_digits_grow(s: Seq<char>, i: int)
    requires
        0 <= i <= s.len(),
        digits_value(s) is Some,
    ensures
        digits_value(s.take(i)) is Some,
        digits_value(s.take(i))->Some_0 <= digits_value(s)->Some_0,
    decreases s.len() - i,
{
    if i == s.len() {
        assert(s.take(i) =~= s);
    } else {
        assert(s.drop_last().take(i) =~= s.take(i));
        lemma_digits_grow(s.drop_last(), i);
    }
}

/// A string with a character that is no digit spells no number.
pub proof fn lemma_digits_only(s: Seq<char>, i: int)
    requires
        0 <= i < s.len(),
        digit_value(s[i]) is None,
    ensures
        digits_value(s) is None,
    decreases s.len(),
{
    if i < s.len() - 1 {
        lemma_digits_only(s.drop_last(), i);
    }
}

/// The number that a string spells.
pub fn parse_u64(s: &str) -> (r: Option<u64>)
    ensures
        r == parsed_u64(s@),
{
    if !s.is_ascii() {
        proof {
            let i = choose|i: int| 0 <= i < s@.len() && !('\0' <= #[trigger] s@[i] <= '\u{7f}');
            if s@[0] == '+' {
                assert(s@.drop_first()[i - 1] == s@[i]);
                lemma_digits_only(s@.drop_first(), i - 1);
            } else {
                lemma_digits_only(s@, i);
            }
        }
        return None;
    }
    proof {
        vstd::string::is_ascii_spec_bytes(s);
        assert(s.spec_bytes().len() == s@.len());
    }
    let n = s.as_bytes().len();
    let start: usize = if n > 0 && s.get_ascii(0) == 43 {
        1
    } else {
        0
    };
    let ghost digits = s@.skip(start as int);
    proof {
        if n > 0 {
            assert('\0' <= s@[0] <= '\u{7f}');
            assert('+' as u8 == 43);
        }
        if start == 1 {
            assert(s@[0] == '+');
            assert(s@.drop_first() =~= digits);
        } else {
            assert(s@ =~= digits);
        }
        assert(parsed_u64(s@) == digits_u64(digits));
    }
    if start == n {
        return None;
    }
    let mut value: u64 = 0;
    let mut i: usize = start;
    proof {
        assert(digits.take(0) =~= Seq::<char>::empty());
    }
    while i < n
        invariant
            start <= i <= n,
            n == s@.len(),
            s.is_ascii(),
            digits == s@.skip(start as int),
            parsed_u64(s@) == digits_u64(digits),
            digits_value(digits.take(i - start)) == Some(value as nat),
        decreases n - i,
    {
        let b = s.get_ascii(i);
        proof {
            assert(digits.take(i - start + 1).drop_last() =~= digits.take(i - start));
            assert(digits.take(i - start + 1).last() == s@[i as int]);
        }
        if b < 48 || b > 57 {
            proof {
                lemma_digits_only(digits, i - start);
            }
            return None;
        }
        let d = (b - 48) as u64;
        if value > (u64::MAX - d) / 10 {
            proof {
                if digits_value(digits) is Some {
                    lemma_digits_grow(digits, i - start + 1);
                }
            }
            return None;
        }
        value = value * 10 + d;
        i += 1;
    }
    proof {
        assert(digits.take(n - start) =~= digits);
    }
    Some(value)
}

/// Calls `SystemTime::elapsed` of the standard library on `UNIX_EPOCH`:
/// the time since the epoch on the system clock, or `None` where the clock
/// stands before the epoch. Nothing is claimed of the result.
#[verifier::external_body]
pub(crate) fn since_epoch() -> Option<std::time::Duration> {
    std::time::UNIX_EPOCH.elapsed().ok()
}

/// Calls `Duration::as_millis` of the standard library. Nothing is claimed
/// of the result.
#[verifier::external_body]
pub(crate) fn whole_millis(d: &std::time::Duration) -> u128 {
    d.as_millis()
}

/// The low 64 bits of a count of milliseconds.
pub fn low_millis(millis: u128) -> (r: u64)
    ensures
        r == millis % 0x1_0000_0000_0000_0000,
{
    (millis % 0x1_0000_0000_0000_0000) as u64
}

/// The time since the epoch on the system clock, in milliseconds; `None`
/// where the clock stands before the epoch.
pub fn since_epoch_millis() -> Option<u64> {
    match since_epoch() {
        Some(d) => Some(low_millis(whole_millis(&d))),
        None => None,
    }
}

/// What `str::to_uppercase` gives for a string.
pub uninterp spec fn uppercased(s: Seq<char>) -> Seq<char>;

/// Calls `str::to_uppercase` of the standard library. The contract names
/// the result, which depends on the characters alone.
#[verifier::external_body]
pub(crate) fn to_uppercase(s: &str) -> (r: String)
    ensures
        r@ == uppercased(s@),
{
    s.to_uppercase()
}

/// The standard base64 encoding, with padding, of a sequence of bytes.
pub uninterp spec fn base64_standard(bytes: Seq<u8>) -> Seq<char>;

/// The longest input that is handed to the base64 encoder.
pub const MAX_ENCODED_INPUT: usize = usize::MAX / 2;

/// Calls `Engine::encode` of the crate `base64` on its engine
/// `general_purpose::STANDARD`. The contract names the result, which
/// depends on the bytes alone. The encoder fails on an input whose encoded
/// length does not fit `usize`: the bound on the length keeps clear of
/// that.
#[verifier::external_body]
pub(crate) fn base64_encode(input: &[u8]) -> (r: String)
    requires
        input@.len() <= MAX_ENCODED_INPUT,
    ensures
        r@ == base64_standard(input@),
{
    base64::Engine::encode(&base64::engine::general_purpose::STANDARD, input)
}

/// The longest base address and the longest endpoint, in bytes, that are
/// handed to the crate `url`.
pub const MAX_ADDRESS_PART: usize = 1_048_576;

/// The longest path, in bytes, that is handed to the crate `url`.
pub const MAX_PATH: usize = 4 * MAX_ADDRESS_PART;

/// The longest name and the longest value of a pair, in bytes, that are
/// handed to the crate `url`.
pub const MAX_QUERY_PART: usize = 268_435_456;

/// The longest address, in bytes, that is handed to the crate `url`.
pub const MAX_ADDRESS: usize = 268_435_456;

/// The path that the crate `url` reads in a base address, or why the base
/// is no address.
pub uninterp spec fn parsed_path(base: Seq<char>) -> Result<Seq<char>, Seq<char>>;

/// Parses `base` with `Url::parse` of the crate `url` and gives its path
/// with `Url::path`; a base that does not parse gives the message of the
/// parse error. The contract names the result, which depends on the string
/// alone.
#[verifier::external_body]
pub(crate) fn url_path(base: &str) -> (r: Result<String, String>)
    requires
        utf8(base@).len() <= MAX_ADDRESS_PART,
    ensures
        match r {
            Ok(p) => parsed_path(base@) == Ok::<Seq<char>, Seq<char>>(p@),
            Err(e) => parsed_path(base@) == Err::<Seq<char>, Seq<char>>(e@),
        },
{
    match url::Url::parse(base) {
        Ok(u) => Ok(u.path().to_string()),
        Err(e) => Err(e.to_string()),
    }
}

/// What the crate `url` makes of a base address whose path is set to
/// `path`: the address as text, or why the base is no address.
pub uninterp spec fn url_with_path(base: Seq<char>, path: Seq<char>) -> Result<
    Seq<char>,
    Seq<char>,
>;

/// Parses `base` with `Url::parse` of the crate `url`, sets its path with
/// `Url::set_path`, and gives the address as text; a base that does not
/// parse gives the message of the parse error. The contract names the
/// result, which depends on the two strings alone. The crate fails on an
/// address that grows beyond `u32::MAX` bytes. Parsing percent-encodes what
/// it reads and writes a host in ASCII, and setting the path
/// percent-encodes the path; neither writes more than four bytes for each
/// byte given, so that the address stays below twenty times
/// `MAX_ADDRESS_PART`.
#[verifier::external_body]
pub(crate) fn url_set_path(base: &str, path: &str) -> (r: Result<String, String>)
    requires
        utf8(base@).len() <= MAX_ADDRESS_PART,
        utf8(path@).len() <= MAX_PATH,
    ensures
        match r {
            Ok(u) => url_with_path(base@, path@) == Ok::<Seq<char>, Seq<char>>(u@),
            Err(e) => url_with_path(base@, path@) == Err::<Seq<char>, Seq<char>>(e@),
        },
{
    match url::Url::parse(base) {
        Ok(mut u) => {
            u.set_path(path);
            Ok(String::from(u))
        },
        Err(e) => Err(e.to_string()),
    }
}

/// What the crate `url` makes of an address to whose query one pair is
/// appended: the address as text, or why `url` is no address.
pub uninterp spec fn url_with_pair(url: Seq<char>, name: Seq<char>, value: Seq<char>) -> Result<
    Seq<char>,
    Seq<char>,
>;

/// Parses `url` with `Url::parse` of the crate `url`, appends one pair to
/// its query with `form_urlencoded::Serializer::append_pair`, and gives the
/// address as text; a text that does not parse gives the message of the
/// parse error. The contract names the result, which depends on the three
/// strings alone. The crate fails on an address that grows beyond
/// `u32::MAX` bytes. Parsing percent-encodes what it reads and writes a
/// host in ASCII, which takes no more than four bytes for each byte of the
/// address; the pair takes at most three bytes for each of its own, and
/// two more. With the bounds on the lengths that is at most ten times
/// `MAX_ADDRESS` and two, which is below `u32::MAX`.
#[verifier::external_body]
pub(crate) fn url_append_pair(url: &str, name: &str, value: &str) -> (r: Result<String, String>)
    requires
        utf8(url@).len() <= MAX_ADDRESS,
        utf8(name@).len() <= MAX_QUERY_PART,
        utf8(value@).len() <= MAX_QUERY_PART,
    ensures
        match r {
            Ok(u) => url_with_pair(url@, name@, value@) == Ok::<Seq<char>, Seq<char>>(u@),
            Err(e) => url_with_pair(url@, name@, value@) == Err::<Seq<char>, Seq<char>>(e@),
        },
{
    match url::Url::parse(url) {
        Ok(mut u) => {
            u.query_pairs_mut().append_pair(name, value);
            Ok(String::from(u))
        },
        Err(e) => Err(e.to_string()),
    }
}

/// The bytes of a string in UTF-8.
pub open spec fn utf8(s: Seq<char>) -> Seq<u8> {
    vstd::utf8::encode_utf8(s)
}

/// The decimal digit `d` as a string.
pub open spec fn digit(d: nat) -> Seq<char> {
    if d == 0 {
        "0"@
    } else if d == 1 {
        "1"@
    } else if d == 2 {
        "2"@
    } else if d == 3 {
        "3"@
    } else if d == 4 {
        "4"@
    } else if d == 5 {
        "5"@
    } else if d == 6 {
        "6"@
    } else if d == 7 {
        "7"@
    } else if d == 8 {
        "8"@
    } else {
        "9"@
    }
}

/// The number `n` in decimal digits.
pub open spec fn decimal(n: nat) -> Seq<char>
    decreases n,
{
    if n < 10 {
        digit(n)
    } else {
        decimal(n / 10) + digit(n % 10)
    }
}

/// The decimal digit `d` as a string.
pub fn digit_str(d: u64) -> (r: &'static str)
    requires
        d < 10,
    ensures
        r@ == digit(d as nat),
{
    if d == 0 {
        "0"
    } else if d == 1 {
        "1"
    } else if d == 2 {
        "2"
    } else if d == 3 {
        "3"
    } else if d == 4 {
        "4"
    } else if d == 5 {
        "5"
    } else if d == 6 {
        "6"
    } else if d == 7 {
        "7"
    } else if d == 8 {
        "8"
    } else {
        "9"
    }
}

/// The number `n` in decimal digits.
pub fn decimal_string(n: u64) -> (r: String)
    ensures
        r@ == decimal(n as nat),
    decreases n,
{
    if n < 10 {
        digit_str(n).to_owned()
    } else {
        let mut r = decimal_string(n / 10);
        r.append(digit_str(n % 10));
        r
    }
}

} // verus!
