//! Model identifiers: 128-bit values written as 32 lowercase hexadecimal digits.

use vstd::prelude::*;

verus! {

/// A random 128-bit identifier.
#[derive(Debug, Copy, Clone, PartialEq, Eq, Structural, PartialOrd, Ord, Hash)]
pub struct Id(u128);

/// The error returned when a string is not a hexadecimal `u128`.
#[derive(Debug)]
pub struct ParseUidError;

impl View for Id {
    type V = u128;

    closed spec fn view(&self) -> u128 {
        self.0
    }
}

/// The value of a hexadecimal digit, in either case.
pub open spec fn hex_digit_value(c: char) -> Option<nat> {
    if '0' <= c && c <= '9' {
        Some((c as nat - '0' as nat) as nat)
    } else if 'a' <= c && c <= 'f' {
        Some((c as nat - 'a' as nat + 10) as nat)
    } else if 'A' <= c && c <= 'F' {
        Some((c as nat - 'A' as nat + 10) as nat)
    } else {
        None
    }
}

/// The value of a string made only of hexadecimal digits, most significant first.
pub open spec fn hex_value(s: Seq<char>) -> Option<nat>
    decreases s.len(),
{
    if s.len() == 0 {
        Some(0)
    } else {
        match (hex_value(s.drop_last()), hex_digit_value(s.last())) {
            (Some(high), Some(low)) => Some(high * 16 + low),
            _ => None,
        }
    }
}

/// What reading a string as a base-16 `u128` gives: an optional leading `+`,
/// then at least one hexadecimal digit, for a value that fits in 128 bits.
pub open spec fn spec_parse_id(s: Seq<char>) -> Option<u128> {
    let digits = if s.len() > 0 && s[0] == '+' { s.drop_first() } else { s };
    if digits.len() == 0 {
        None
    } else {
        match hex_value(digits) {
            Some(v) => if v <= u128::MAX { Some(v as u128) } else { None },
            None => None,
        }
    }
}

/// The lowercase hexadecimal digit for a value below 16.
pub open spec fn hex_char(d: nat) -> char {
    if d < 10 {
        (('0' as nat) + d) as char
    } else {
        (('a' as nat) + d - 10) as char
    }
}

/// The last `n` hexadecimal digits of `v`, most significant first.
pub open spec fn hex_digits(v: nat, n: nat) -> Seq<char>
    decreases n,
{
    if n == 0 {
        Seq::empty()
    } else {
        hex_digits(v / 16, (n - 1) as nat).push(hex_char(v % 16))
    }
}

/// The text of an identifier: its value as 32 lowercase hexadecimal digits.
pub open spec fn spec_id_text(v: u128) -> Seq<char> {
    hex_digits(v as nat, 32)
}

/// Whether a string is the canonical text of some identifier.
pub open spec fn is_canonical_id_text(s: Seq<char>) -> bool {
    &&& s.len() == 32
    &&& forall|i: int|
        0 <= i < 32 ==> (('0' <= #[trigger] s[i] && s[i] <= '9') || ('a' <= s[i] && s[i] <= 'f'))
}

/// 16 to the power `n`.
pub open spec fn pow16(n: nat) -> nat
    decreases n,
{
    if n == 0 {
        1
    } else {
        16 * pow16((n - 1) as nat)
    }
}

proof fn lemma_pow16_32()
    ensures
        pow16(32) == u128::MAX + 1,
{
    reveal_with_fuel(pow16, 33);
}

proof fn lemma_hex_value_of_digits(v: nat, n: nat)
    requires
        v < pow16(n),
    ensures
        hex_value(hex_digits(v, n)) == Some(v),
    decreases n,
{
    if n > 0 {
        let d = hex_digits(v, n);
        assert(d.drop_last() =~= hex_digits(v / 16, (n - 1) as nat));
        assert(v / 16 < pow16((n - 1) as nat));
        lemma_hex_value_of_digits(v / 16, (n - 1) as nat);
        assert(hex_digit_value(hex_char(v % 16)) == Some(v % 16));
    }
}

proof fn lemma_hex_digits_len(v: nat, n: nat)
    ensures
        hex_digits(v, n).len() == n,
        forall|i: int|
            0 <= i < n ==> (('0' <= #[trigger] hex_digits(v, n)[i] && hex_digits(v, n)[i] <= '9')
                || ('a' <= hex_digits(v, n)[i] && hex_digits(v, n)[i] <= 'f')),
    decreases n,
{
    if n > 0 {
        lemma_hex_digits_len(v / 16, (n - 1) as nat);
    }
}

/// A prefix of a string of digits is a string of digits of no larger value.
proof fn lemma_hex_value_prefix(s: Seq<char>, i: int)
    requires
        0 <= i <= s.len(),
        hex_value(s) is Some,
    ensures
        hex_value(s.subrange(0, i)) is Some,
        hex_value(s.subrange(0, i))->0 <= hex_value(s)->0,
    decreases s.len(),
{
    if i < s.len() {
        assert(s.drop_last() =~= s.subrange(0, s.len() - 1));
        lemma_hex_value_prefix(s.drop_last(), i);
        assert(s.drop_last().subrange(0, i) =~= s.subrange(0, i));
    } else {
        assert(s.subrange(0, i) =~= s);
    }
}

/// The text of a canonical string gives back the string.
proof fn lemma_canonical_digits(s: Seq<char>, n: nat)
    requires
        s.len() == n,
        forall|i: int| 0 <= i < n ==> (('0' <= #[trigger] s[i] && s[i] <= '9') || ('a' <= s[i] && s[i] <= 'f')),
    ensures
        hex_value(s) is Some,
        hex_value(s)->0 < pow16(n),
        hex_digits(hex_value(s)->0, n) =~= s,
    decreases n,
{
    if n > 0 {
        let p = s.drop_last();
        lemma_canonical_digits(p, (n - 1) as nat);
        let h = hex_value(p)->0;
        let c = s.last();
        assert(('0' <= s[n - 1] && s[n - 1] <= '9') || ('a' <= s[n - 1] && s[n - 1] <= 'f'));
        let d = hex_digit_value(c)->0;
        assert(d < 16);
        assert(hex_char(d) == c);
        let v = h * 16 + d;
        assert(v / 16 == h);
        assert(v % 16 == d);
        assert(s =~= p.push(c));
    }
}

/// `String::push`: appends the character to the string.
#[verifier::external_body]
fn push_char(s: &mut String, c: char)
    ensures
        final(s)@ == old(s)@.push(c),
{
    s.push(c);
}

fn hex_char_exec(d: u128) -> (c: char)
    requires
        d < 16,
    ensures
        c == hex_char(d as nat),
{
    if d < 10 {
        ((48 + d) as u8) as char
    } else {
        ((97 + d - 10) as u8) as char
    }
}

fn push_hex_digits(s: &mut String, v: u128, n: usize)
    ensures
        final(s)@ == old(s)@ + hex_digits(v as nat, n as nat),
    decreases n,
{
    if n > 0 {
        push_hex_digits(s, v / 16, n - 1);
        push_char(s, hex_char_exec(v % 16));
        assert(hex_digits(v as nat, n as nat) =~= hex_digits((v / 16) as nat, (n - 1) as nat).push(
            hex_char((v % 16) as nat),
        ));
    }
}

fn hex_digit_value_exec(c: char) -> (r: Option<u128>)
    ensures
        match hex_digit_value(c) {
            Some(d) => r == Some(d as u128),
            None => r is None,
        },
{
    if '0' <= c && c <= '9' {
        Some(((c as u32) - 48) as u128)
    } else if 'a' <= c && c <= 'f' {
        Some(((c as u32) - 97 + 10) as u128)
    } else if 'A' <= c && c <= 'F' {
        Some(((c as u32) - 65 + 10) as u128)
    } else {
        None
    }
}

impl Id {
    /// A fresh identifier drawn from the thread-local random number generator.
    pub fn new() -> (id: Id) {
        Id(random_u128())
    }

    /// The identifier with the given value.
    pub fn from_u128(value: u128) -> (id: Id)
        ensures
            id@ == value,
    {
        Id(value)
    }

    /// The value of the identifier.
    pub fn as_u128(&self) -> (value: u128)
        ensures
            value == self@,
    {
        self.0
    }

    /// Reads an identifier from its base-16 text.
    pub fn parse(s: &str) -> (r: Result<Id, ParseUidError>)
        ensures
            r is Ok <==> spec_parse_id(s@) is Some,
            r matches Ok(id) ==> Some(id@) == spec_parse_id(s@),
    {
        let len = s.unicode_len();
        if len == 0 {
            return Err(ParseUidError);
        }
        let mut start: usize = 0;
        if s.get_char(0) == '+' {
            if len == 1 {
                return Err(ParseUidError);
            }
            start = 1;
        }
        let ghost digits = if s@.len() > 0 && s@[0] == '+' { s@.drop_first() } else { s@ };
        assert(digits =~= s@.subrange(start as int, s@.len() as int));
        let mut value: u128 = 0;
        let mut i: usize = start;
        while i < len
            invariant
                start <= i <= len,
                len == s@.len(),
                digits =~= s@.subrange(start as int, len as int),
                digits.len() > 0,
                digits == (if s@.len() > 0 && s@[0] == '+' { s@.drop_first() } else { s@ }),
                hex_value(digits.subrange(0, i - start)) == Some(value as nat),
            decreases len - i,
        {
            let c = s.get_char(i);
            let ghost prefix = digits.subrange(0, i - start);
            let ghost next = digits.subrange(0, i + 1 - start);
            assert(next.drop_last() =~= prefix);
            assert(next.last() == c);
            match hex_digit_value_exec(c) {
                None => {
                    proof {
                        assert(hex_value(next) is None);
                        if hex_value(digits) is Some {
                            lemma_hex_value_prefix(digits, i + 1 - start);
                        }
                    }
                    return Err(ParseUidError);
                },
                Some(d) => {
                    if value > (u128::MAX - d) / 16 {
                        proof {
                            assert(value * 16 + d > u128::MAX);
                            if hex_value(digits) is Some {
                                lemma_hex_value_prefix(digits, i + 1 - start);
                            }
                        }
                        return Err(ParseUidError);
                    }
                    value = value * 16 + d;
                },
            }
            i = i + 1;
        }
        assert(digits.subrange(0, len - start) =~= digits);
        Ok(Id(value))
    }

    /// The text of the identifier: 32 lowercase hexadecimal digits.
    pub fn to_string(&self) -> (s: String)
        ensures
            s@ == spec_id_text(self@),
    {
        let mut s = String::new();
        push_hex_digits(&mut s, self.0, 32);
        assert(s@ =~= hex_digits(self.0 as nat, 32));
        s
    }
}

impl Default for Id {
    fn default() -> (id: Id) {
        Id::new()
    }
}

impl std::str::FromStr for Id {
    type Err = ParseUidError;

    fn from_str(s: &str) -> (r: Result<Id, ParseUidError>)
        ensures
            r is Ok <==> spec_parse_id(s@) is Some,
            r matches Ok(id) ==> Some(id@) == spec_parse_id(s@),
    {
        Id::parse(s)
    }
}

/// Writing an identifier and reading it back gives the same identifier.
pub proof fn lemma_id_text_round_trip(v: u128)
    ensures
        spec_parse_id(spec_id_text(v)) == Some(v),
{
    lemma_pow16_32();
    lemma_hex_value_of_digits(v as nat, 32);
    lemma_hex_digits_len(v as nat, 32);
    let t = spec_id_text(v);
    assert(t[0] != '+');
}

/// Reading the canonical text of an identifier and writing it back gives the same text.
pub proof fn lemma_canonical_text_round_trip(s: Seq<char>)
    requires
        is_canonical_id_text(s),
    ensures
        spec_parse_id(s) is Some,
        spec_id_text(spec_parse_id(s)->0) == s,
{
    lemma_pow16_32();
    lemma_canonical_digits(s, 32);
    assert(s[0] != '+');
}

/// `rand::random::<u128>()`: a value from the thread-local generator; nothing is promised of it.
#[verifier::external_body]
fn random_u128() -> (value: u128) {
    rand::random::<u128>()
}

} // verus!
