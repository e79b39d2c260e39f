//! Reading a number out of a file's text: whitespace is trimmed, then
//! the text is parsed as an unsigned decimal (an optional leading `+`,
//! then digits), with exact error reporting.
//!
//! The file itself is read by the caller; this module owns everything
//! after the read, and the error types that tell a read failure from a
//! parse failure apart.

use vstd::prelude::*;

verus! {

/// The whitespace the trimmer strips: the Unicode `White_Space`
/// characters, as Rust's `char::is_whitespace` has them.
pub open spec fn is_space_char(c: char) -> bool {
    let v = c as int;
    ||| 0x09 <= v <= 0x0D
    ||| v == 0x20
    ||| v == 0x85
    ||| v == 0xA0
    ||| v == 0x1680
    ||| 0x2000 <= v <= 0x200A
    ||| v == 0x2028
    ||| v == 0x2029
    ||| v == 0x202F
    ||| v == 0x205F
    ||| v == 0x3000
}

/// `s` without leading whitespace.
pub open spec fn trim_front(s: Seq<char>) -> Seq<char>
    decreases s.len(),
{
    if s.len() == 0 {
        s
    } else if is_space_char(s[0]) {
        trim_front(s.drop_first())
    } else {
        s
    }
}

/// `s` without trailing whitespace.
pub open spec fn trim_back(s: Seq<char>) -> Seq<char>
    decreases s.len(),
{
    if s.len() == 0 {
        s
    } else if is_space_char(s.last()) {
        trim_back(s.drop_last())
    } else {
        s
    }
}

/// `s` without leading and trailing whitespace.
pub open spec fn trim_spec(s: Seq<char>) -> Seq<char> {
    trim_back(trim_front(s))
}

/// A decimal digit.
pub open spec fn is_digit(c: char) -> bool {
    48 <= c as int <= 57
}

/// The numeric value of a digit.
pub open spec fn digit_val(c: char) -> int {
    c as int - 48
}

/// `s` without one optional leading plus sign.
pub open spec fn strip_sign(s: Seq<char>) -> Seq<char> {
    if s.len() > 0 && s[0] == '+' {
        s.drop_first()
    } else {
        s
    }
}

/// Why a parse failed.
#[derive(Debug, PartialEq, Eq, Structural, Clone, Copy)]
pub enum ParseNumError {
    /// The input was empty.
    Empty,
    /// A character was no decimal digit (or only a sign was given).
    InvalidDigit,
    /// The value does not fit in the target type.
    Overflow,
}

impl ParseNumError {
    /// The failure's description.
    pub open spec fn spec_message(&self) -> Seq<char> {
        match self {
            ParseNumError::Empty => "cannot parse integer from empty string"@,
            ParseNumError::InvalidDigit => "invalid digit found in string"@,
            ParseNumError::Overflow => "number too large to fit in target type"@,
        }
    }

    /// The human-readable form of the failure.
    pub fn message(&self) -> (r: String)
        ensures
            r@ == self.spec_message(),
    {
        match self {
            ParseNumError::Empty => String::from_str("cannot parse integer from empty string"),
            ParseNumError::InvalidDigit => String::from_str("invalid digit found in string"),
            ParseNumError::Overflow => String::from_str("number too large to fit in target type"),
        }
    }
}

/// Digit-by-digit decimal accumulation, left to right, starting from
/// `acc`: stops at the first non-digit or at the first step whose value
/// leaves the `u64` range, whichever comes first.
pub open spec fn parse_digits(d: Seq<char>, acc: int) -> Result<int, ParseNumError>
    decreases d.len(),
{
    if d.len() == 0 {
        Ok(acc)
    } else if !is_digit(d[0]) {
        Err(ParseNumError::InvalidDigit)
    } else if acc * 10 + digit_val(d[0]) > u64::MAX {
        Err(ParseNumError::Overflow)
    } else {
        parse_digits(d.drop_first(), acc * 10 + digit_val(d[0]))
    }
}

/// What parsing `s` as a `u64` yields: `Empty` for no input at all,
/// otherwise the digit run after an optional `+`.
pub open spec fn parse_u64_spec(s: Seq<char>) -> Result<int, ParseNumError> {
    if s.len() == 0 {
        Err(ParseNumError::Empty)
    } else {
        let d = strip_sign(s);
        if d.len() == 0 {
            Err(ParseNumError::InvalidDigit)
        } else {
            parse_digits(d, 0)
        }
    }
}

/// A run of decimal digits only.
pub open spec fn all_digits(d: Seq<char>) -> bool {
    forall|i: int| 0 <= i < d.len() ==> is_digit(#[trigger] d[i])
}

/// The decimal value of a digit run.
pub open spec fn digits_val(d: Seq<char>) -> int
    decreases d.len(),
{
    if d.len() == 0 {
        0
    } else {
        digits_val(d.drop_last()) * 10 + digit_val(d.last())
    }
}

/// A digit run's value is never negative.
proof fn lemma_digits_val_nonneg(d: Seq<char>)
    requires
        all_digits(d),
    ensures
        digits_val(d) >= 0,
    decreases d.len(),
{
    if d.len() > 0 {
        lemma_digits_val_nonneg(d.drop_last());
    }
}

/// Appending one character to the input runs the accumulation one step
/// further, or propagates the failure already reached.
proof fn lemma_parse_digits_snoc(d: Seq<char>, c: char, acc: int)
    ensures
        parse_digits(d.push(c), acc) == match parse_digits(d, acc) {
            Ok(v) => if !is_digit(c) {
                Err::<int, ParseNumError>(ParseNumError::InvalidDigit)
            } else if v * 10 + digit_val(c) > u64::MAX {
                Err::<int, ParseNumError>(ParseNumError::Overflow)
            } else {
                Ok::<int, ParseNumError>(v * 10 + digit_val(c))
            },
            Err(e) => Err::<int, ParseNumError>(e),
        },
    decreases d.len(),
{
    if d.len() == 0 {
        reveal_with_fuel(parse_digits, 2);
        assert(d.push(c)[0] == c);
        assert(d.push(c).drop_first() =~= Seq::<char>::empty());
    } else {
        assert(d.push(c)[0] == d[0]);
        assert(d.push(c).drop_first() =~= d.drop_first().push(c));
        lemma_parse_digits_snoc(d.drop_first(), c, acc * 10 + digit_val(d[0]));
    }
}

/// A run of digits whose value fits parses to exactly its decimal
/// value.
pub proof fn lemma_parse_digits_value(d: Seq<char>)
    requires
        all_digits(d),
        digits_val(d) <= u64::MAX,
    ensures
        parse_digits(d, 0) == Ok::<int, ParseNumError>(digits_val(d)),
    decreases d.len(),
{
    if d.len() > 0 {
        let head = d.drop_last();
        assert(d =~= head.push(d.last()));
        lemma_digits_val_nonneg(head);
        lemma_parse_digits_value(head);
        lemma_parse_digits_snoc(head, d.last(), 0);
    }
}

/// A run of digits whose value does not fit parses to an overflow
/// failure, never to a wrapped value.
pub proof fn lemma_parse_digits_overflow(d: Seq<char>)
    requires
        all_digits(d),
        digits_val(d) > u64::MAX,
    ensures
        parse_digits(d, 0) == Err::<int, ParseNumError>(ParseNumError::Overflow),
    decreases d.len(),
{
    if d.len() > 0 {
        let head = d.drop_last();
        assert(d =~= head.push(d.last()));
        lemma_digits_val_nonneg(head);
        lemma_parse_digits_snoc(head, d.last(), 0);
        if digits_val(head) <= u64::MAX {
            lemma_parse_digits_value(head);
        } else {
            lemma_parse_digits_overflow(head);
        }
    }
}

/// Whether `c` is whitespace to the trimmer.
fn is_space(c: char) -> (r: bool)
    ensures
        r == is_space_char(c),
{
    let v = c as u32;
    (0x09 <= v && v <= 0x0D) || v == 0x20 || v == 0x85 || v == 0xA0 || v == 0x1680 || (0x2000 <= v
        && v <= 0x200A) || v == 0x2028 || v == 0x2029 || v == 0x202F || v == 0x205F || v == 0x3000
}

/// The index of the first non-whitespace character, or `n` if all of
/// `s` is whitespace.
fn scan_front(s: &str, n: usize) -> (lo: usize)
    requires
        n as nat == s@.len(),
    ensures
        lo <= n,
        forall|t: int| 0 <= t < lo ==> is_space_char(s@[t]),
        lo < n ==> !is_space_char(s@[lo as int]),
{
    let mut lo: usize = 0;
    while lo < n
        invariant
            lo <= n,
            n as nat == s@.len(),
            forall|t: int| 0 <= t < lo ==> is_space_char(s@[t]),
        decreases n - lo,
    {
        if !is_space(s.get_char(lo)) {
            return lo;
        }
        lo = lo + 1;
    }
    lo
}

/// The index one past the last non-whitespace character at or after
/// `lo`, or `lo` if everything after it is whitespace.
fn scan_back(s: &str, n: usize, lo: usize) -> (hi: usize)
    requires
        n as nat == s@.len(),
        lo <= n,
    ensures
        lo <= hi <= n,
        forall|t: int| hi <= t < n ==> is_space_char(s@[t]),
        hi > lo ==> !is_space_char(s@[hi - 1]),
{
    let mut hi: usize = n;
    while hi > lo
        invariant
            lo <= hi <= n,
            n as nat == s@.len(),
            forall|t: int| hi <= t < n ==> is_space_char(s@[t]),
        decreases hi,
    {
        if !is_space(s.get_char(hi - 1)) {
            return hi;
        }
        hi = hi - 1;
    }
    hi
}

/// If everything before `lo` is whitespace and `lo` is none (or the
/// end), trimming the front takes the tail at `lo`.
proof fn lemma_trim_front_at(s: Seq<char>, lo: int)
    requires
        0 <= lo <= s.len(),
        forall|t: int| 0 <= t < lo ==> is_space_char(s[t]),
        lo < s.len() ==> !is_space_char(s[lo]),
    ensures
        trim_front(s) =~= s.skip(lo),
    decreases lo,
{
    if lo == 0 {
        assert(trim_front(s) =~= s.skip(0));
    } else {
        lemma_trim_front_at(s.drop_first(), lo - 1);
        assert(trim_front(s) =~= s.skip(lo));
    }
}

/// If everything at or after `hi` is whitespace and `hi - 1` is none
/// (or the start), trimming the back keeps the head before `hi`.
proof fn lemma_trim_back_at(u: Seq<char>, hi: int)
    requires
        0 <= hi <= u.len(),
        forall|t: int| hi <= t < u.len() ==> is_space_char(u[t]),
        hi > 0 ==> !is_space_char(u[hi - 1]),
    ensures
        trim_back(u) =~= u.take(hi),
    decreases u.len(),
{
    if hi == u.len() {
        assert(trim_back(u) =~= u.take(hi));
    } else {
        lemma_trim_back_at(u.drop_last(), hi);
        assert(trim_back(u) =~= u.take(hi));
    }
}

/// `s` without leading and trailing Unicode whitespace, as Rust's trim
/// gives it.
pub fn trim(s: &str) -> (r: &str)
    ensures
        r@ == trim_spec(s@),
{
    let n = s.unicode_len();
    let lo = scan_front(s, n);
    let hi = scan_back(s, n, lo);
    let r = s.substring_char(lo, hi);
    proof {
        lemma_trim_front_at(s@, lo as int);
        let u = s@.skip(lo as int);
        assert(forall|t: int| hi - lo <= t < u.len() ==> is_space_char(u[t]));
        lemma_trim_back_at(u, hi - lo);
        assert(u.take(hi - lo) =~= s@.subrange(lo as int, hi as int));
    }
    r
}

/// Parses `s` as an unsigned 64-bit decimal, exactly as
/// `parse_u64_spec` lays it out: an optional `+`, then digits, left to
/// right, failing on the first non-digit or the first overflow.
pub fn parse_u64(s: &str) -> (r: Result<u64, ParseNumError>)
    ensures
        match parse_u64_spec(s@) {
            Ok(v) => r == Ok::<u64, ParseNumError>(v as u64),
            Err(e) => r == Err::<u64, ParseNumError>(e),
        },
{
    let n = s.unicode_len();
    if n == 0 {
        return Err(ParseNumError::Empty);
    }
    let start: usize = if s.get_char(0) == '+' {
        1
    } else {
        0
    };
    if start == n {
        return Err(ParseNumError::InvalidDigit);
    }
    let ghost d = strip_sign(s@);
    proof {
        assert(d =~= s@.skip(start as int));
    }
    let mut acc: u64 = 0;
    let mut i: usize = start;
    while i < n
        invariant
            start <= i <= n,
            n as nat == s@.len(),
            n > 0,
            d == strip_sign(s@),
            d == s@.skip(start as int),
            d.len() > 0,
            parse_digits(d, 0) == parse_digits(s@.skip(i as int), acc as int),
        decreases n - i,
    {
        let ghost rest = s@.skip(i as int);
        let c = s.get_char(i);
        proof {
            assert(rest[0] == s@[i as int]);
            assert(rest.drop_first() =~= s@.skip(i as int + 1));
        }
        let cv = c as u32;
        if cv < 48 || cv > 57 {
            proof {
                assert(!is_digit(rest[0]));
                assert(parse_digits(rest, acc as int) == Err::<int, ParseNumError>(
                    ParseNumError::InvalidDigit,
                ));
            }
            return Err(ParseNumError::InvalidDigit);
        }
        proof {
            assert(is_digit(rest[0]));
            assert(digit_val(rest[0]) == cv - 48);
        }
        let dv = (cv - 48) as u64;
        match acc.checked_mul(10) {
            None => {
                proof {
                    assert(acc as int * 10 + digit_val(rest[0]) > u64::MAX);
                    assert(parse_digits(rest, acc as int) == Err::<int, ParseNumError>(
                        ParseNumError::Overflow,
                    ));
                }
                return Err(ParseNumError::Overflow);
            },
            Some(m0) => {
                match m0.checked_add(dv) {
                    None => {
                        proof {
                            assert(acc as int * 10 + digit_val(rest[0]) > u64::MAX);
                            assert(parse_digits(rest, acc as int) == Err::<int, ParseNumError>(
                                ParseNumError::Overflow,
                            ));
                        }
                        return Err(ParseNumError::Overflow);
                    },
                    Some(v) => {
                        proof {
                            assert(acc as int * 10 + digit_val(rest[0]) <= u64::MAX);
                            assert(parse_digits(rest, acc as int) == parse_digits(
                                rest.drop_first(),
                                v as int,
                            ));
                        }
                        acc = v;
                    },
                }
            },
        }
        i = i + 1;
    }
    proof {
        assert(s@.skip(n as int) =~= Seq::<char>::empty());
    }
    Ok(acc)
}

/// A read failure, tagged with the identifier of the reader that hit
/// it.
#[derive(Debug)]
pub struct ErrorWithId {
    pub id: i32,
    pub err: String,
}

impl From<(i32, String)> for ErrorWithId {
    fn from(value: (i32, String)) -> Self {
        ErrorWithId { id: value.0, err: value.1 }
    }
}

impl vstd::std_specs::convert::FromSpecImpl<(i32, String)> for ErrorWithId {
    open spec fn obeys_from_spec() -> bool {
        true
    }

    open spec fn from_spec(value: (i32, String)) -> Self {
        ErrorWithId { id: value.0, err: value.1 }
    }
}

/// Why no number came out of the file.
#[derive(Debug)]
pub enum NumberFromFileError {
    /// The file was read but held no valid number.
    ParseError(ParseNumError),
    /// The file could not be read; the payload describes the failure.
    IoError(String),
}

impl NumberFromFileError {
    /// The human-readable form of the error, the cause's own
    /// description appended.
    pub fn message(&self) -> (r: String)
        ensures
            match self {
                NumberFromFileError::ParseError(e) => r@ == "Error parsing number from File "@
                    + e.spec_message(),
                NumberFromFileError::IoError(err) => r@ == "Error reading number from File "@
                    + err@,
            },
    {
        match self {
            NumberFromFileError::ParseError(e) => {
                let detail = e.message();
                String::from_str("Error parsing number from File ").concat(detail.as_str())
            },
            NumberFromFileError::IoError(err) => String::from_str(
                "Error reading number from File ",
            ).concat(err.as_str()),
        }
    }
}

impl From<ParseNumError> for NumberFromFileError {
    fn from(val: ParseNumError) -> Self {
        NumberFromFileError::ParseError(val)
    }
}

impl vstd::std_specs::convert::FromSpecImpl<ParseNumError> for NumberFromFileError {
    open spec fn obeys_from_spec() -> bool {
        true
    }

    open spec fn from_spec(val: ParseNumError) -> Self {
        NumberFromFileError::ParseError(val)
    }
}

impl From<ErrorWithId> for NumberFromFileError {
    fn from(val: ErrorWithId) -> Self {
        NumberFromFileError::IoError(val.err)
    }
}

impl vstd::std_specs::convert::FromSpecImpl<ErrorWithId> for NumberFromFileError {
    open spec fn obeys_from_spec() -> bool {
        true
    }

    open spec fn from_spec(val: ErrorWithId) -> Self {
        NumberFromFileError::IoError(val.err)
    }
}

/// The number a file holds: its text trimmed, then parsed as a `u64`.
/// The caller passes the read's outcome; a read failure is surfaced as
/// `IoError`, a bad text as `ParseError`.
pub fn get_number_from_file(file: Result<String, ErrorWithId>) -> (r: Result<
    u64,
    NumberFromFileError,
>)
    ensures
        match file {
            Ok(buf) => match parse_u64_spec(trim_spec(buf@)) {
                Ok(v) => r == Ok::<u64, NumberFromFileError>(v as u64),
                Err(e) => r == Err::<u64, NumberFromFileError>(NumberFromFileError::ParseError(e)),
            },
            Err(e) => r == Err::<u64, NumberFromFileError>(NumberFromFileError::IoError(e.err)),
        },
{
    match file {
        Ok(buf) => {
            let trimmed = trim(buf.as_str());
            match parse_u64(trimmed) {
                Ok(num) => Ok(num),
                Err(pe) => Err(NumberFromFileError::from(pe)),
            }
        },
        Err(e) => Err(NumberFromFileError::from(e)),
    }
}

/// Accepts anything that can stand for an optional signed number; the
/// value itself is not used.
pub fn accepts_option<T: core::convert::Into<Option<i64>>>(_i: T) {
}

/// Accepts anything that can render itself as text.
pub fn accepts_string<T: core::fmt::Display>(_s: T) {
    let _s = _s.to_string();
}

} // verus!
