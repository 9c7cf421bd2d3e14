//! Kernel versions (`major.minor.patch`) and their textual form.

use vstd::prelude::*;
use crate::text::{
    decimal, digit_char, digit_value, is_digit, lemma_decimal_plain, lemma_digit_char,
    lemma_split_append_plain, lemma_split_append_sep, lemma_split_plain, push_decimal,
    split_chars, split_on, chars_of, concat_text,
};

verus! {

/// Why a piece of text is not a `u32` in decimal.
#[derive(Clone, Copy, Debug, PartialEq, Eq, Structural)]
pub enum ParseIntErrorKind {
    Empty,
    InvalidDigit,
    PosOverflow,
}

/// The message that describes each kind of failure.
pub open spec fn kind_message(k: ParseIntErrorKind) -> Seq<char> {
    match k {
        ParseIntErrorKind::Empty => "cannot parse integer from empty string"@,
        ParseIntErrorKind::InvalidDigit => "invalid digit found in string"@,
        ParseIntErrorKind::PosOverflow => "number too large to fit in target type"@,
    }
}

impl ParseIntErrorKind {
    /// The message that describes this failure.
    pub fn message(&self) -> (m: String)
        ensures
            m@ == kind_message(*self),
    {
        match self {
            ParseIntErrorKind::Empty => String::from_str("cannot parse integer from empty string"),
            ParseIntErrorKind::InvalidDigit => String::from_str("invalid digit found in string"),
            ParseIntErrorKind::PosOverflow => String::from_str("number too large to fit in target type"),
        }
    }
}

/// One step of reading decimal digits from the left: the value so far is
/// `acc`, the next character is `c`.
pub open spec fn digit_step(acc: nat, c: char) -> Result<nat, ParseIntErrorKind> {
    if !is_digit(c) {
        Err(ParseIntErrorKind::InvalidDigit)
    } else if acc * 10 + digit_value(c) > u32::MAX {
        Err(ParseIntErrorKind::PosOverflow)
    } else {
        Ok(acc * 10 + digit_value(c))
    }
}

/// Reads `digits` from the left, starting from the value `acc`; the first
/// character that is no digit, or that makes the value exceed `u32::MAX`,
/// decides the error.
pub open spec fn accumulate(digits: Seq<char>, acc: nat) -> Result<nat, ParseIntErrorKind>
    decreases digits.len(),
{
    if digits.len() == 0 {
        Ok(acc)
    } else {
        match digit_step(acc, digits[0]) {
            Ok(a) => accumulate(digits.drop_first(), a),
            Err(e) => Err(e),
        }
    }
}

/// Decimal text to `u32`: an optional leading `+`, then at least one digit,
/// the value at most `u32::MAX`.
pub open spec fn parse_u32_spec(s: Seq<char>) -> Result<u32, ParseIntErrorKind> {
    if s.len() == 0 {
        Err(ParseIntErrorKind::Empty)
    } else {
        let digits = if s[0] == '+' { s.drop_first() } else { s };
        if digits.len() == 0 {
            Err(ParseIntErrorKind::InvalidDigit)
        } else {
            match accumulate(digits, 0) {
                Ok(n) => Ok(n as u32),
                Err(e) => Err(e),
            }
        }
    }
}

/// Reads a `u32` in decimal from `s`.
pub fn parse_u32(s: &Vec<char>) -> (r: Result<u32, ParseIntErrorKind>)
    ensures
        r == parse_u32_spec(s@),
{
    let n = s.len();
    if n == 0 {
        return Err(ParseIntErrorKind::Empty);
    }
    let start: usize = if s[0] == '+' { 1 } else { 0 };
    if start == n {
        return Err(ParseIntErrorKind::InvalidDigit);
    }
    let ghost digits = if s@[0] == '+' { s@.drop_first() } else { s@ };
    assert(digits =~= s@.subrange(start as int, n as int));
    let mut acc: u32 = 0;
    let mut i: usize = start;
    while i < n
        invariant
            start <= i <= n,
            n == s@.len(),
            accumulate(digits, 0) == accumulate(s@.subrange(i as int, n as int), acc as nat),
            digits == s@.subrange(start as int, n as int),
            digits == (if s@[0] == '+' { s@.drop_first() } else { s@ }),
            0 < n,
            start < n,
        decreases n - i,
    {
        let c = s[i];
        let rest = Ghost(s@.subrange(i as int, n as int));
        assert(rest@[0] == c);
        assert(rest@.drop_first() =~= s@.subrange(i + 1, n as int));
        let cv = c as u32;
        if cv < 48 || cv > 57 {
            assert(digit_step(acc as nat, c) == Err::<nat, ParseIntErrorKind>(ParseIntErrorKind::InvalidDigit));
            assert(accumulate(rest@, acc as nat) == Err::<nat, ParseIntErrorKind>(ParseIntErrorKind::InvalidDigit));
            assert(digits.len() > 0);
            return Err(ParseIntErrorKind::InvalidDigit);
        }
        let d: u32 = cv - 48;
        assert(d as nat == digit_value(c));
        if acc > 429496729 || (acc == 429496729 && d > 5) {
            assert(acc * 10 + d > u32::MAX) by (nonlinear_arith)
                requires
                    acc > 429496729 || (acc == 429496729 && d > 5),
            ;
            assert(accumulate(rest@, acc as nat) == Err::<nat, ParseIntErrorKind>(ParseIntErrorKind::PosOverflow));
            assert(digits.len() > 0);
            return Err(ParseIntErrorKind::PosOverflow);
        }
        assert(acc * 10 + d <= u32::MAX) by (nonlinear_arith)
            requires
                acc <= 429496729,
                d <= 9,
                acc < 429496729 || d <= 5,
        ;
        acc = acc * 10 + d;
        i = i + 1;
    }
    assert(s@.subrange(n as int, n as int) =~= Seq::<char>::empty());
    Ok(acc)
}


proof fn lemma_accumulate_push(s: Seq<char>, c: char, acc: nat)
    ensures
        accumulate(s.push(c), acc) == (match accumulate(s, acc) {
            Ok(a) => digit_step(a, c),
            Err(e) => Err(e),
        }),
    decreases s.len(),
{
    if s.len() == 0 {
        assert(s.push(c).drop_first() =~= Seq::<char>::empty());
        assert(s.push(c)[0] == c);
        assert(accumulate(s, acc) == Ok::<nat, ParseIntErrorKind>(acc));
        match digit_step(acc, c) {
            Ok(a) => {
                assert(accumulate(Seq::<char>::empty(), a) == Ok::<nat, ParseIntErrorKind>(a));
            },
            Err(e) => {},
        }
    } else {
        assert(s.push(c)[0] == s[0]);
        assert(s.push(c).drop_first() =~= s.drop_first().push(c));
        match digit_step(acc, s[0]) {
            Ok(a) => {
                lemma_accumulate_push(s.drop_first(), c, a);
                assert(accumulate(s, acc) == accumulate(s.drop_first(), a));
                assert(accumulate(s.push(c), acc) == accumulate(s.drop_first().push(c), a));
            },
            Err(e) => {},
        }
    }
}

proof fn lemma_accumulate_decimal(n: nat)
    requires
        n <= u32::MAX,
    ensures
        accumulate(decimal(n), 0) == Ok::<nat, ParseIntErrorKind>(n),
    decreases n,
{
    lemma_digit_char(n % 10);
    if n < 10 {
        assert(decimal(n) == seq![digit_char(n)]);
        assert(decimal(n).drop_first() =~= Seq::<char>::empty());
        assert(digit_step(0, digit_char(n)) == Ok::<nat, ParseIntErrorKind>(n));
        assert(accumulate(Seq::<char>::empty(), n) == Ok::<nat, ParseIntErrorKind>(n));
    } else {
        lemma_accumulate_decimal(n / 10);
        lemma_accumulate_push(decimal(n / 10), digit_char(n % 10), 0);
        assert((n / 10) * 10 + n % 10 == n);
        assert(decimal(n) == decimal(n / 10).push(digit_char(n % 10)));
        assert(digit_step(n / 10, digit_char(n % 10)) == Ok::<nat, ParseIntErrorKind>(n));
    }
}

/// The decimal rendering of every `u32` reads back as that number.
pub proof fn lemma_parse_decimal(n: u32)
    ensures
        parse_u32_spec(decimal(n as nat)) == Ok::<u32, ParseIntErrorKind>(n),
{
    lemma_accumulate_decimal(n as nat);
    lemma_decimal_plain(n as nat);
    let d = decimal(n as nat);
    assert(is_digit(d[0]));
    assert(d[0] != '+');
}

/// A kernel version, `major.minor.patch`.
#[derive(Debug, Clone, Copy, PartialEq, Eq, Hash, Structural)]
pub struct KernelVersion {
    pub major: u32,
    pub minor: u32,
    pub patch: u32,
}

/// The text of a version: the three numbers in decimal, joined by dots.
pub open spec fn version_text(v: KernelVersion) -> Seq<char> {
    decimal(v.major as nat) + seq!['.'] + decimal(v.minor as nat) + seq!['.'] + decimal(
        v.patch as nat,
    )
}

/// What reading a version from `s` gives: the text must split at dots into
/// exactly three pieces, each a `u32` in decimal; the first failure, in the
/// order major, minor, patch, gives the message.
pub open spec fn version_from_text(s: Seq<char>) -> Result<KernelVersion, Seq<char>> {
    let parts = split_on(s, '.');
    if parts.len() != 3 {
        Err("Invalid version format: "@ + s)
    } else {
        match parse_u32_spec(parts[0]) {
            Err(e) => Err("Invalid major version: "@ + kind_message(e)),
            Ok(major) => match parse_u32_spec(parts[1]) {
                Err(e) => Err("Invalid minor version: "@ + kind_message(e)),
                Ok(minor) => match parse_u32_spec(parts[2]) {
                    Err(e) => Err("Invalid patch version: "@ + kind_message(e)),
                    Ok(patch) => Ok(KernelVersion { major, minor, patch }),
                },
            },
        }
    }
}

/// A result with its error message taken by its characters.
pub open spec fn text_result<T>(r: Result<T, String>) -> Result<T, Seq<char>> {
    match r {
        Ok(v) => Ok(v),
        Err(e) => Err(e@),
    }
}

impl KernelVersion {
    pub fn new(major: u32, minor: u32, patch: u32) -> (v: Self)
        ensures
            v == (KernelVersion { major, minor, patch }),
    {
        KernelVersion { major, minor, patch }
    }

    /// The version as `major.minor.patch`.
    pub fn to_string(&self) -> (s: String)
        ensures
            s@ == version_text(*self),
    {
        let mut s = String::new();
        push_decimal(&mut s, self.major);
        proof { reveal_strlit("."); }
        s.append(".");
        push_decimal(&mut s, self.minor);
        s.append(".");
        push_decimal(&mut s, self.patch);
        assert(s@ =~= version_text(*self));
        s
    }

    /// Reads a version written as `major.minor.patch`.
    pub fn from_string(version_str: &str) -> (r: Result<Self, String>)
        ensures
            text_result(r) == version_from_text(version_str@),
    {
        let chars = chars_of(version_str);
        let parts = split_chars(&chars, '.');
        if parts.len() != 3 {
            return Err(concat_text("Invalid version format: ", version_str));
        }
        let major = match parse_u32(&parts[0]) {
            Ok(n) => n,
            Err(e) => {
                let m = e.message();
                return Err(concat_text("Invalid major version: ", m.as_str()));
            },
        };
        let minor = match parse_u32(&parts[1]) {
            Ok(n) => n,
            Err(e) => {
                let m = e.message();
                return Err(concat_text("Invalid minor version: ", m.as_str()));
            },
        };
        let patch = match parse_u32(&parts[2]) {
            Ok(n) => n,
            Err(e) => {
                let m = e.message();
                return Err(concat_text("Invalid patch version: ", m.as_str()));
            },
        };
        Ok(KernelVersion { major, minor, patch })
    }
}

/// Reading back the text of a version gives the version.
pub proof fn law_version_text_roundtrip(v: KernelVersion)
    ensures
        version_from_text(version_text(v)) == Ok::<KernelVersion, Seq<char>>(v),
{
    let a = decimal(v.major as nat);
    let b = decimal(v.minor as nat);
    let c = decimal(v.patch as nat);
    lemma_decimal_plain(v.major as nat);
    lemma_decimal_plain(v.minor as nat);
    lemma_decimal_plain(v.patch as nat);
    lemma_split_plain(a, '.');
    lemma_split_append_sep(a, '.');
    assert(a.push('.') =~= a + seq!['.']);
    lemma_split_append_plain(a + seq!['.'], b, '.');
    assert(split_on(a + seq!['.'] + b, '.') =~= seq![a, b]);
    lemma_split_append_sep(a + seq!['.'] + b, '.');
    assert((a + seq!['.'] + b).push('.') =~= a + seq!['.'] + b + seq!['.']);
    lemma_split_append_plain(a + seq!['.'] + b + seq!['.'], c, '.');
    let parts = split_on(version_text(v), '.');
    assert(parts =~= seq![a, b, c]);
    lemma_parse_decimal(v.major);
    lemma_parse_decimal(v.minor);
    lemma_parse_decimal(v.patch);
}

} // verus!
