//! Text as sequences of characters: comparison, slicing, trimming, decimal
//! numerals, and the building of strings from their parts.

use vstd::prelude::*;

verus! {

/// `String::push` appends the given character to the end of the string.
pub assume_specification[ String::push ](s: &mut String, c: char)
    ensures
        final(s)@ == old(s)@.push(c),
;

/// The characters of `s`, in order.
pub fn chars_of(s: &str) -> (v: Vec<char>)
    ensures
        v@ == s@,
{
    let mut v: Vec<char> = Vec::new();
    for c in it: s.chars()
        invariant
            it.seq() == s@,
            v@ == s@.take(it.index()),
    {
        v.push(c);
        proof {
            assert(s@.take(it.index() + 1) =~= s@.take(it.index()).push(c));
        }
    }
    proof {
        assert(s@.take(s@.len() as int) =~= s@);
    }
    v
}

/// Texts as sequences of characters.
pub open spec fn texts(v: Seq<String>) -> Seq<Seq<char>> {
    Seq::new(v.len(), |i: int| v[i]@)
}

/// A text as a sequence of characters, where there is one.
pub open spec fn text_of(s: Option<String>) -> Option<Seq<char>> {
    match s {
        Some(s) => Some(s@),
        None => None,
    }
}

/// The decimal digit of value `d`, for `d` below ten.
pub open spec fn digit(d: int) -> char {
    if d == 0 {
        '0'
    } else if d == 1 {
        '1'
    } else if d == 2 {
        '2'
    } else if d == 3 {
        '3'
    } else if d == 4 {
        '4'
    } else if d == 5 {
        '5'
    } else if d == 6 {
        '6'
    } else if d == 7 {
        '7'
    } else if d == 8 {
        '8'
    } else {
        '9'
    }
}

/// The hexadecimal digit of value `d`, for `d` below sixteen, in lower case.
pub open spec fn hex_digit(d: int) -> char {
    if d < 10 {
        digit(d)
    } else if d == 10 {
        'a'
    } else if d == 11 {
        'b'
    } else if d == 12 {
        'c'
    } else if d == 13 {
        'd'
    } else if d == 14 {
        'e'
    } else {
        'f'
    }
}

/// The decimal numeral of `n`, without leading zeros.
pub open spec fn numeral(n: nat) -> Seq<char>
    decreases n,
{
    if n < 10 {
        seq![digit(n as int)]
    } else {
        numeral(n / 10).push(digit((n % 10) as int))
    }
}

/// The decimal numeral of `n`, with a minus sign when it is negative.
pub open spec fn signed_numeral(n: int) -> Seq<char> {
    if n < 0 {
        "-"@ + numeral((-n) as nat)
    } else {
        numeral(n as nat)
    }
}

/// The decimal numeral of `n`, with leading zeros up to `width` characters.
pub open spec fn padded(n: nat, width: int) -> Seq<char> {
    Seq::new(missing(numeral(n).len() as int, width), |i: int| '0') + numeral(n)
}

/// Characters missing to the given width.
pub open spec fn missing(length: int, width: int) -> nat {
    if length < width {
        (width - length) as nat
    } else {
        0
    }
}

fn digit_char(d: u8) -> (c: char)
    requires
        d < 10,
    ensures
        c == digit(d as int),
{
    if d == 0 {
        '0'
    } else if d == 1 {
        '1'
    } else if d == 2 {
        '2'
    } else if d == 3 {
        '3'
    } else if d == 4 {
        '4'
    } else if d == 5 {
        '5'
    } else if d == 6 {
        '6'
    } else if d == 7 {
        '7'
    } else if d == 8 {
        '8'
    } else {
        '9'
    }
}

/// The decimal numeral of `n`.
pub fn decimal(n: u64) -> (s: String)
    ensures
        s@ == numeral(n as nat),
    decreases n,
{
    let mut s = if n < 10 {
        String::new()
    } else {
        decimal(n / 10)
    };
    s.push(digit_char((n % 10) as u8));
    proof {
        if n < 10 {
            assert(s@ =~= seq![digit(n as int)]);
        }
    }
    s
}

/// The decimal numeral of `n`, with its sign when negative.
pub fn signed_decimal(n: i64) -> (s: String)
    ensures
        s@ == signed_numeral(n as int),
{
    if n == i64::MIN {
        let r = "-".to_owned().concat(decimal(9223372036854775808).as_str());
        r
    } else if n < 0 {
        "-".to_owned().concat(decimal((-n) as u64).as_str())
    } else {
        decimal(n as u64)
    }
}

/// Whether two texts hold the same characters.
pub fn same(a: &str, b: &str) -> (r: bool)
    ensures
        r == (a@ == b@),
{
    a.to_owned() == b.to_owned()
}

/// Unicode's `White_Space` property.
pub open spec fn is_space(c: char) -> bool {
    let u = c as u32;
    ||| 0x09 <= u <= 0x0d
    ||| u == 0x20
    ||| u == 0x85
    ||| u == 0xa0
    ||| u == 0x1680
    ||| 0x2000 <= u <= 0x200a
    ||| u == 0x2028
    ||| u == 0x2029
    ||| u == 0x202f
    ||| u == 0x205f
    ||| u == 0x3000
}

/// `s` without its leading white space.
pub open spec fn trimmed_start(s: Seq<char>) -> Seq<char>
    decreases s.len(),
{
    if s.len() > 0 && is_space(s[0]) {
        trimmed_start(s.skip(1))
    } else {
        s
    }
}

/// `s` without its trailing white space.
pub open spec fn trimmed_end(s: Seq<char>) -> Seq<char>
    decreases s.len(),
{
    if s.len() > 0 && is_space(s.last()) {
        trimmed_end(s.drop_last())
    } else {
        s
    }
}

/// `s` without leading and trailing white space.
pub open spec fn trimmed(s: Seq<char>) -> Seq<char> {
    trimmed_end(trimmed_start(s))
}

/// Whether a character is white space.
pub fn is_white_space(c: char) -> (r: bool)
    ensures
        r == is_space(c),
{
    let u: u32 = c as u32;
    (0x09 <= u && u <= 0x0d) || u == 0x20 || u == 0x85 || u == 0xa0 || u == 0x1680 || (0x2000 <= u
        && u <= 0x200a) || u == 0x2028 || u == 0x2029 || u == 0x202f || u == 0x205f || u == 0x3000
}

/// The text without leading and trailing white space.
pub fn trim(s: &str) -> (r: &str)
    ensures
        r@ == trimmed(s@),
{
    let v = chars_of(s);
    let mut lo: usize = 0;
    proof {
        assert(s@.skip(0) =~= s@);
    }
    while lo < v.len() && is_white_space(v[lo])
        invariant
            lo <= v.len(),
            v@ == s@,
            trimmed_start(s@.skip(lo as int)) == trimmed_start(s@),
        decreases v.len() - lo,
    {
        proof {
            assert(s@.skip(lo as int).skip(1) =~= s@.skip(lo + 1));
        }
        lo += 1;
    }
    let mut hi: usize = v.len();
    proof {
        assert(s@.subrange(lo as int, hi as int) =~= s@.skip(lo as int));
    }
    while hi > lo && is_white_space(v[hi - 1])
        invariant
            lo <= hi <= v.len(),
            v@ == s@,
            trimmed_end(s@.subrange(lo as int, hi as int)) == trimmed(s@),
        decreases hi,
    {
        proof {
            let t = s@.subrange(lo as int, hi as int);
            assert(t.drop_last() =~= s@.subrange(lo as int, hi - 1));
            assert(t.last() == s@[hi - 1]);
        }
        hi -= 1;
    }
    s.substring_char(lo, hi)
}

/// Why a text is not an integer of the wanted type.
#[derive(Debug, Clone, Copy, PartialEq, Eq, Structural)]
pub enum IntFault {
    Empty,
    InvalidDigit,
    TooLarge,
    TooSmall,
}

impl IntFault {
    /// The fault in words.
    pub open spec fn text(self) -> Seq<char> {
        match self {
            IntFault::Empty => "cannot parse integer from empty string"@,
            IntFault::InvalidDigit => "invalid digit found in string"@,
            IntFault::TooLarge => "number too large to fit in target type"@,
            IntFault::TooSmall => "number too small to fit in target type"@,
        }
    }

    pub fn as_str(&self) -> (r: &'static str)
        ensures
            r@ == self.text(),
    {
        match self {
            IntFault::Empty => "cannot parse integer from empty string",
            IntFault::InvalidDigit => "invalid digit found in string",
            IntFault::TooLarge => "number too large to fit in target type",
            IntFault::TooSmall => "number too small to fit in target type",
        }
    }
}

pub open spec fn is_digit(c: char) -> bool {
    '0' <= c && c <= '9'
}

/// The value of the digits `s` read after the value `acc`, left to right, up to
/// the first character that is no digit or that makes the value exceed `max`.
pub open spec fn digits_value(s: Seq<char>, acc: nat, max: nat, fault: IntFault) -> Result<
    nat,
    IntFault,
>
    decreases s.len(),
{
    if s.len() == 0 {
        Ok(acc)
    } else if !is_digit(s[0]) {
        Err(IntFault::InvalidDigit)
    } else {
        let next = (acc * 10 + (s[0] as u32 - '0' as u32)) as nat;
        if next > max {
            Err(fault)
        } else {
            digits_value(s.skip(1), next, max, fault)
        }
    }
}

/// The unsigned integer a text denotes: digits, after an optional plus sign.
pub open spec fn unsigned_value(s: Seq<char>, max: nat) -> Result<nat, IntFault> {
    if s.len() == 0 {
        Err(IntFault::Empty)
    } else if s.len() == 1 && (s[0] == '+' || s[0] == '-') {
        Err(IntFault::InvalidDigit)
    } else if s[0] == '+' {
        digits_value(s.skip(1), 0, max, IntFault::TooLarge)
    } else {
        digits_value(s, 0, max, IntFault::TooLarge)
    }
}

/// The 64-bit signed integer a text denotes: digits, after an optional sign.
pub open spec fn signed_value(s: Seq<char>) -> Result<int, IntFault> {
    if s.len() > 1 && s[0] == '-' {
        match digits_value(s.skip(1), 0, 0x8000_0000_0000_0000, IntFault::TooSmall) {
            Ok(n) => Ok(-(n as int)),
            Err(e) => Err(e),
        }
    } else {
        match unsigned_value(s, 0x7fff_ffff_ffff_ffff) {
            Ok(n) => Ok(n as int),
            Err(e) => Err(e),
        }
    }
}

fn read_digits(v: &Vec<char>, from: usize, max: u64, fault: IntFault) -> (r: Result<u64, IntFault>)
    requires
        from <= v.len(),
    ensures
        match digits_value(v@.skip(from as int), 0, max as nat, fault) {
            Ok(n) => r == Ok::<u64, IntFault>(n as u64) && n <= max,
            Err(e) => r == Err::<u64, IntFault>(e),
        },
{
    let mut i: usize = from;
    let mut acc: u64 = 0;
    while i < v.len()
        invariant
            from <= i <= v.len(),
            acc <= max,
            digits_value(v@.skip(i as int), acc as nat, max as nat, fault) == digits_value(
                v@.skip(from as int),
                0,
                max as nat,
                fault,
            ),
        decreases v.len() - i,
    {
        let c = v[i];
        proof {
            assert(v@.skip(i as int)[0] == c);
            assert(v@.skip(i as int).skip(1) =~= v@.skip(i + 1));
        }
        if c < '0' || c > '9' {
            return Err(IntFault::InvalidDigit);
        }
        let d: u64 = (c as u32 - '0' as u32) as u64;
        if acc > max / 10 || max - acc * 10 < d {
            return Err(fault);
        }
        acc = acc * 10 + d;
        i += 1;
    }
    Ok(acc)
}

/// Read an unsigned integer of at most `max`.
pub fn parse_unsigned(s: &str, max: u64) -> (r: Result<u64, IntFault>)
    ensures
        match unsigned_value(s@, max as nat) {
            Ok(n) => r == Ok::<u64, IntFault>(n as u64) && n <= max,
            Err(e) => r == Err::<u64, IntFault>(e),
        },
{
    let v = chars_of(s);
    if v.len() == 0 {
        return Err(IntFault::Empty);
    }
    if v.len() == 1 && (v[0] == '+' || v[0] == '-') {
        return Err(IntFault::InvalidDigit);
    }
    proof {
        assert(v@.skip(0) =~= v@);
    }
    read_digits(
        &v,
        if v[0] == '+' {
            1
        } else {
            0
        },
        max,
        IntFault::TooLarge,
    )
}

/// Read a signed 64-bit integer.
pub fn parse_signed(s: &str) -> (r: Result<i64, IntFault>)
    ensures
        match signed_value(s@) {
            Ok(n) => r == Ok::<i64, IntFault>(n as i64) && i64::MIN <= n <= i64::MAX,
            Err(e) => r == Err::<i64, IntFault>(e),
        },
{
    let v = chars_of(s);
    if v.len() > 1 && v[0] == '-' {
        match read_digits(&v, 1, 0x8000_0000_0000_0000, IntFault::TooSmall) {
            Ok(n) => if n == 0x8000_0000_0000_0000 {
                Ok(i64::MIN)
            } else {
                Ok(-(n as i64))
            },
            Err(e) => Err(e),
        }
    } else {
        match parse_unsigned(s, 0x7fff_ffff_ffff_ffff) {
            Ok(n) => Ok(n as i64),
            Err(e) => Err(e),
        }
    }
}

/// The number that a sequence of digits denotes.
pub open spec fn digits_number(s: Seq<char>) -> nat
    decreases s.len(),
{
    if s.len() == 0 {
        0
    } else {
        digits_number(s.drop_last()) * 10 + (s.last() as u32 - '0' as u32) as nat
    }
}

/// A numeral is made of digits and denotes its number.
pub proof fn numeral_denotes(n: nat)
    ensures
        digits_number(numeral(n)) == n,
        numeral(n).len() > 0,
        forall|i: int| 0 <= i < numeral(n).len() ==> is_digit(#[trigger] numeral(n)[i]),
    decreases n,
{
    if n < 10 {
        let s = numeral(n);
        assert(s.drop_last() =~= Seq::<char>::empty());
        assert(digits_number(s.drop_last()) == 0);
    } else {
        numeral_denotes(n / 10);
        let s = numeral(n);
        assert(s.drop_last() =~= numeral(n / 10));
        assert forall|i: int| 0 <= i < s.len() implies is_digit(#[trigger] s[i]) by {
            if i < s.len() - 1 {
                assert(s[i] == numeral(n / 10)[i]);
            }
        }
    }
}

proof fn leading_zeros(zeros: nat, s: Seq<char>)
    ensures
        digits_number(Seq::new(zeros, |i: int| '0') + s) == digits_number(s),
    decreases zeros + s.len(),
{
    let z = Seq::new(zeros, |i: int| '0');
    if s.len() > 0 {
        leading_zeros(zeros, s.drop_last());
        assert((z + s).drop_last() =~= z + s.drop_last());
    } else if zeros > 0 {
        let y = Seq::new((zeros - 1) as nat, |i: int| '0');
        leading_zeros((zeros - 1) as nat, s);
        assert((z + s).drop_last() =~= y + s);
    } else {
        assert(z + s =~= s);
    }
}

/// A padded numeral is made of digits and denotes its number.
pub proof fn padded_denotes(n: nat, width: int)
    ensures
        digits_number(padded(n, width)) == n,
        padded(n, width).len() >= width,
        forall|i: int| 0 <= i < padded(n, width).len() ==> is_digit(#[trigger] padded(n, width)[i]),
{
    numeral_denotes(n);
    let zeros = missing(numeral(n).len() as int, width);
    leading_zeros(zeros, numeral(n));
    assert forall|i: int| 0 <= i < padded(n, width).len() implies is_digit(
        #[trigger] padded(n, width)[i],
    ) by {
        if i >= zeros {
            assert(padded(n, width)[i] == numeral(n)[i - zeros]);
        }
    }
}

/// Whether a character occurs in a text.
pub open spec fn occurs(c: char, s: Seq<char>) -> bool {
    exists|i: int| 0 <= i < s.len() && s[i] == c
}

/// How often a character occurs in a text.
pub open spec fn occurrences(c: char, s: Seq<char>) -> nat
    decreases s.len(),
{
    if s.len() == 0 {
        0
    } else {
        occurrences(c, s.drop_last()) + (if s.last() == c {
            1nat
        } else {
            0
        })
    }
}

/// Occurrences add up over a concatenation.
pub proof fn occurrences_add(c: char, a: Seq<char>, b: Seq<char>)
    ensures
        occurrences(c, a + b) == occurrences(c, a) + occurrences(c, b),
    decreases b.len(),
{
    if b.len() == 0 {
        assert(a + b =~= a);
    } else {
        occurrences_add(c, a, b.drop_last());
        assert((a + b).drop_last() =~= a + b.drop_last());
        assert((a + b).last() == b.last());
    }
}

/// A character that no place of a text holds does not occur in it.
pub proof fn occurrences_none(c: char, s: Seq<char>)
    requires
        forall|i: int| 0 <= i < s.len() ==> s[i] != c,
    ensures
        occurrences(c, s) == 0,
    decreases s.len(),
{
    if s.len() > 0 {
        occurrences_none(c, s.drop_last());
    }
}

/// An ASCII letter in lower case; any other character as it is.
pub open spec fn lower_char(c: char) -> char {
    if 'A' <= c && c <= 'Z' {
        ((c as u8 + 32) as u8) as char
    } else {
        c
    }
}

/// A text with its ASCII letters in lower case.
pub open spec fn lower(s: Seq<char>) -> Seq<char> {
    Seq::new(s.len(), |i: int| lower_char(s[i]))
}

/// The text with its ASCII letters in lower case.
pub fn to_lower(s: &str) -> (r: String)
    ensures
        r@ == lower(s@),
{
    let v = chars_of(s);
    let mut r = String::new();
    let mut i: usize = 0;
    while i < v.len()
        invariant
            i <= v.len(),
            v@ == s@,
            r@ == lower(s@).take(i as int),
        decreases v.len() - i,
    {
        let c = v[i];
        if 'A' <= c && c <= 'Z' {
            r.push((c as u8 + 32) as char);
        } else {
            r.push(c);
        }
        i += 1;
        proof {
            assert(lower(s@).take(i as int) =~= lower(s@).take(i - 1).push(lower_char(s@[i - 1])));
        }
    }
    proof {
        assert(lower(s@).take(i as int) =~= lower(s@));
    }
    r
}

/// Whether `s` starts with `prefix`.
pub fn starts_with(s: &str, prefix: &str) -> (r: bool)
    ensures
        r == prefix@.is_prefix_of(s@),
{
    let n: usize = prefix.unicode_len();
    if s.unicode_len() < n {
        return false;
    }
    proof {
        assert(s@.subrange(0, n as int) == s@.subrange(0, prefix@.len() as int));
    }
    same(s.substring_char(0, n), prefix)
}

/// Whether a text is made of digits alone.
pub open spec fn all_digits(s: Seq<char>) -> bool {
    forall|i: int| 0 <= i < s.len() ==> is_digit(#[trigger] s[i])
}

/// More digits never make a number smaller.
proof fn longer_is_no_smaller(a: Seq<char>, b: Seq<char>)
    requires
        all_digits(b),
    ensures
        digits_number(a) <= digits_number(a + b),
    decreases b.len(),
{
    if b.len() == 0 {
        assert(a + b =~= a);
    } else {
        assert(all_digits(b.drop_last())) by {
            assert forall|i: int| 0 <= i < b.drop_last().len() implies is_digit(
                #[trigger] b.drop_last()[i],
            ) by {
                assert(is_digit(b[i]));
            }
        }
        longer_is_no_smaller(a, b.drop_last());
        assert((a + b).drop_last() =~= a + b.drop_last());
    }
}

/// Digits read after others give the number of them all, unless it is too large.
proof fn digits_are_read(read: Seq<char>, s: Seq<char>, max: nat, fault: IntFault)
    requires
        digits_number(read) <= max,
    ensures
        digits_value(s, digits_number(read), max, fault) is Ok <==> all_digits(s) && digits_number(
            read + s,
        ) <= max,
        digits_value(s, digits_number(read), max, fault) matches Ok(n) ==> n == digits_number(
            read + s,
        ),
        all_digits(s) && digits_number(read + s) > max ==> digits_value(
            s,
            digits_number(read),
            max,
            fault,
        ) == Err::<nat, IntFault>(fault),
    decreases s.len(),
{
    if s.len() == 0 {
        assert(read + s =~= read);
    } else if is_digit(s[0]) {
        let more = read.push(s[0]);
        let rest = s.skip(1);
        assert(more.drop_last() =~= read);
        assert(more + rest =~= read + s);
        assert(all_digits(s) <==> all_digits(rest)) by {
            if all_digits(rest) {
                assert forall|i: int| 0 <= i < s.len() implies is_digit(#[trigger] s[i]) by {
                    if i > 0 {
                        assert(s[i] == rest[i - 1]);
                    }
                }
            }
            if all_digits(s) {
                assert forall|i: int| 0 <= i < rest.len() implies is_digit(#[trigger] rest[i]) by {
                    assert(rest[i] == s[i + 1]);
                }
            }
        }
        if digits_number(more) <= max {
            digits_are_read(more, rest, max, fault);
        } else if all_digits(s) {
            longer_is_no_smaller(more, rest);
        }
    } else {
        assert(!all_digits(s));
    }
}

/// A text reads as a number if and only if it is made of digits, after at most one
/// plus sign, that denote a number which is not too large; and it then reads as that
/// number.
pub proof fn digits_read_as_their_number(s: Seq<char>, max: nat)
    ensures
        ({
            let digits = if s.len() > 0 && s[0] == '+' {
                s.skip(1)
            } else {
                s
            };
            let good = digits.len() > 0 && all_digits(digits);
            &&& unsigned_value(s, max) is Ok <==> good && digits_number(digits) <= max
            &&& unsigned_value(s, max) matches Ok(n) ==> n == digits_number(digits)
            &&& good && digits_number(digits) > max ==> unsigned_value(s, max) == Err::<
                nat,
                IntFault,
            >(IntFault::TooLarge)
            &&& unsigned_value(s, max) == Err::<nat, IntFault>(IntFault::Empty) <==> s.len() == 0
        }),
{
    let none = Seq::<char>::empty();
    let digits = if s.len() > 0 && s[0] == '+' {
        s.skip(1)
    } else {
        s
    };
    assert(digits_number(none) == 0);
    assert(none + digits =~= digits);
    digits_are_read(none, digits, max, IntFault::TooLarge);
    digits_never_are_empty(digits, 0, max, IntFault::TooLarge);
    if s.len() == 1 && s[0] == '-' {
        assert(!is_digit(s[0]));
    }
}

proof fn digits_never_are_empty(s: Seq<char>, acc: nat, max: nat, fault: IntFault)
    requires
        fault != IntFault::Empty,
    ensures
        digits_value(s, acc, max, fault) != Err::<nat, IntFault>(IntFault::Empty),
    decreases s.len(),
{
    if s.len() > 0 && is_digit(s[0]) {
        digits_never_are_empty(
            s.skip(1),
            (acc * 10 + (s[0] as u32 - '0' as u32)) as nat,
            max,
            fault,
        );
    }
}

/// A number is read back from its numeral, where it is not too large.
pub proof fn numerals_read_back(n: nat, max: nat)
    ensures
        n <= max ==> unsigned_value(numeral(n), max) == Ok::<nat, IntFault>(n),
        n > max ==> unsigned_value(numeral(n), max) == Err::<nat, IntFault>(IntFault::TooLarge),
{
    numeral_denotes(n);
    assert(is_digit(numeral(n)[0]));
    assert(all_digits(numeral(n)));
    digits_read_as_their_number(numeral(n), max);
}

/// A signed 64-bit integer is read back from its numeral.
pub proof fn signed_numerals_read_back(n: int)
    requires
        i64::MIN <= n <= i64::MAX,
    ensures
        signed_value(signed_numeral(n)) == Ok::<int, IntFault>(n),
{
    if n < 0 {
        reveal_strlit("-");
        let m = (-n) as nat;
        let s = signed_numeral(n);
        let none = Seq::<char>::empty();
        numeral_denotes(m);
        assert(s[0] == '-' && s.len() > 1);
        assert(s.skip(1) =~= numeral(m));
        assert(digits_number(none) == 0);
        assert(none + numeral(m) =~= numeral(m));
        assert(all_digits(numeral(m)));
        digits_are_read(none, numeral(m), 0x8000_0000_0000_0000, IntFault::TooSmall);
    } else {
        numeral_denotes(n as nat);
        assert(is_digit(numeral(n as nat)[0]));
        numerals_read_back(n as nat, 0x7fff_ffff_ffff_ffff);
    }
}

proof fn start_is_trimmed(s: Seq<char>) -> (k: int)
    ensures
        0 <= k <= s.len(),
        trimmed_start(s) == s.skip(k),
        forall|i: int| 0 <= i < k ==> is_space(#[trigger] s[i]),
        k < s.len() ==> !is_space(s[k]),
    decreases s.len(),
{
    if s.len() > 0 && is_space(s[0]) {
        let k = start_is_trimmed(s.skip(1)) + 1;
        assert(s.skip(1).skip(k - 1) =~= s.skip(k));
        assert forall|i: int| 0 <= i < k implies is_space(#[trigger] s[i]) by {
            if i > 0 {
                assert(s.skip(1)[i - 1] == s[i]);
            }
        }
        if k < s.len() {
            assert(s.skip(1)[k - 1] == s[k]);
        }
        k
    } else {
        assert(s.skip(0) =~= s);
        0
    }
}

proof fn end_is_trimmed(s: Seq<char>) -> (k: int)
    ensures
        0 <= k <= s.len(),
        trimmed_end(s) == s.take(k),
        forall|i: int| k <= i < s.len() ==> is_space(#[trigger] s[i]),
        k > 0 ==> !is_space(s[k - 1]),
    decreases s.len(),
{
    if s.len() > 0 && is_space(s.last()) {
        let k = end_is_trimmed(s.drop_last());
        assert(s.drop_last().take(k) =~= s.take(k));
        assert forall|i: int| k <= i < s.len() implies is_space(#[trigger] s[i]) by {
            if i < s.len() - 1 {
                assert(s.drop_last()[i] == s[i]);
            }
        }
        if k > 0 {
            assert(s.drop_last()[k - 1] == s[k - 1]);
        }
        k
    } else {
        assert(s.take(s.len() as int) =~= s);
        s.len() as int
    }
}

/// Whether a text lies in another from `from` to `to`, with nothing but white space
/// around it.
pub open spec fn is_core(core: Seq<char>, s: Seq<char>, from: int, to: int) -> bool {
    &&& 0 <= from <= to <= s.len()
    &&& core == s.subrange(from, to)
    &&& forall|i: int| 0 <= i < from || to <= i < s.len() ==> is_space(#[trigger] s[i])
}

/// Trimming takes away white space at both ends, all of it, and nothing else; a text
/// of white space alone becomes empty.
pub proof fn trimming_keeps_the_core(s: Seq<char>)
    ensures
        exists|from: int, to: int| #[trigger] is_core(trimmed(s), s, from, to),
        trimmed(s).len() > 0 ==> !is_space(trimmed(s)[0]) && !is_space(trimmed(s).last()),
        trimmed(s).len() == 0 <==> forall|i: int| 0 <= i < s.len() ==> is_space(#[trigger] s[i]),
{
    let from = start_is_trimmed(s);
    let t = s.skip(from);
    let k = end_is_trimmed(t);
    let to = from + k;
    assert(trimmed(s) =~= s.subrange(from, to));
    assert forall|i: int| 0 <= i < from || to <= i < s.len() implies is_space(#[trigger] s[i]) by {
        if i >= to {
            assert(t[i - from] == s[i]);
        }
    }
    assert(is_core(trimmed(s), s, from, to));
    if k > 0 {
        assert(trimmed(s).last() == t[k - 1]);
        assert(trimmed(s)[0] == s[from]);
        assert(!is_space(s[from]));
    }
}

/// In lower case a text has no capitals left and is as long as before; what is no capital
/// stays, and putting it in lower case again changes nothing.
pub proof fn lower_case_has_no_capitals(s: Seq<char>)
    ensures
        lower(s).len() == s.len(),
        forall|i: int|
            0 <= i < s.len() ==> !('A' <= #[trigger] lower(s)[i] && lower(s)[i] <= 'Z'),
        forall|i: int|
            0 <= i < s.len() && !('A' <= s[i] && s[i] <= 'Z') ==> #[trigger] lower(s)[i] == s[i],
        forall|i: int|
            0 <= i < s.len() && 'A' <= s[i] && s[i] <= 'Z' ==> (#[trigger] lower(s)[i]) as u32
                == s[i] as u32 + 32,
        lower(lower(s)) == lower(s),
{
    assert(lower(lower(s)) =~= lower(s));
}

/// A numeral starts with a zero only if it is that of zero.
pub proof fn numerals_have_no_leading_zero(n: nat)
    ensures
        numeral(n)[0] == '0' <==> n == 0,
        n < 10 <==> numeral(n).len() == 1,
    decreases n,
{
    if n >= 10 {
        numerals_have_no_leading_zero(n / 10);
        numeral_denotes(n / 10);
    }
}

} // verus!
