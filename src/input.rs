use vstd::prelude::*;

verus! {

/// Whether `c` is an ASCII decimal digit.
pub open spec fn is_digit(c: char) -> bool {
    '0' <= c && c <= '9'
}

/// The number that a string of decimal digits spells.
pub open spec fn digits_value(s: Seq<char>) -> int
    decreases s.len(),
{
    if s.len() == 0 {
        0
    } else {
        digits_value(s.drop_last()) * 10 + ((s.last() as u32) - ('0' as u32))
    }
}

/// A decimal `i64` as text: an optional `+` or `-`, then one or more digits
/// and nothing else, of a value in range.
pub open spec fn spec_parse_i64(s: Seq<char>) -> Option<i64> {
    let negative = s.len() > 0 && s[0] == '-';
    let digits = if s.len() > 0 && (s[0] == '-' || s[0] == '+') {
        s.drop_first()
    } else {
        s
    };
    let v = if negative {
        -digits_value(digits)
    } else {
        digits_value(digits)
    };
    if digits.len() > 0 && (forall|i: int| 0 <= i < digits.len() ==> is_digit(#[trigger] digits[i]))
        && i64::MIN <= v <= i64::MAX {
        Some(v as i64)
    } else {
        None
    }
}

/// The text after its leading sign, if it has one.
pub open spec fn unsigned_part(s: Seq<char>) -> Seq<char> {
    if s.len() > 0 && (s[0] == '-' || s[0] == '+') {
        s.drop_first()
    } else {
        s
    }
}

/// The overflow that a text of this sign reports.
pub open spec fn overflow_of(s: Seq<char>) -> InputError {
    if s.len() > 0 && s[0] == '-' {
        InputError::TooSmall
    } else {
        InputError::TooLarge
    }
}

/// The kinds of failure that a refused text may report: an empty text is
/// empty, a lone sign is an invalid digit, digits only are an overflow of
/// their sign; a text with another character is an invalid digit, or an
/// overflow where the digits before it are already out of range.
pub open spec fn failure_allowed(s: Seq<char>, e: InputError) -> bool {
    let d = unsigned_part(s);
    if s.len() == 0 {
        e == InputError::Empty
    } else if d.len() == 0 {
        e == InputError::InvalidDigit
    } else if forall|i: int| 0 <= i < d.len() ==> is_digit(#[trigger] d[i]) {
        e == overflow_of(s)
    } else {
        e == InputError::InvalidDigit || e == overflow_of(s)
    }
}

/// Relies on `str::parse::<i64>`, which is `i64::from_str_radix` in base 10:
/// it accepts an optional sign followed by digits only, in range. Its error's
/// `kind()` is `Empty` for an empty text, `InvalidDigit` for a lone sign or a
/// character that is no digit, and `PosOverflow` or `NegOverflow` for a
/// value out of range.
#[verifier::external_body]
fn parse_i64(text: &str) -> (r: Result<i64, InputError>)
    ensures
        r is Ok <==> spec_parse_i64(text@) is Some,
        r matches Ok(v) ==> spec_parse_i64(text@) == Some(v),
        r matches Err(e) ==> failure_allowed(text@, e),
{
    match text.parse::<i64>() {
        Ok(v) => Ok(v),
        Err(e) => Err(match e.kind() {
            std::num::IntErrorKind::Empty => InputError::Empty,
            std::num::IntErrorKind::InvalidDigit => InputError::InvalidDigit,
            std::num::IntErrorKind::PosOverflow => InputError::TooLarge,
            std::num::IntErrorKind::NegOverflow => InputError::TooSmall,
            _ => InputError::InvalidDigit,
        }),
    }
}

/// Why an input was refused.
#[derive(Clone, Copy, Debug, PartialEq, Eq)]
pub enum InputError {
    /// The text is empty.
    Empty,
    /// The text holds a character that is not a digit where one is needed.
    InvalidDigit,
    /// The number is above `i64::MAX`.
    TooLarge,
    /// The number is below `i64::MIN`.
    TooSmall,
}

impl InputError {
    /// The message shown for this failure.
    pub fn message(&self) -> (r: &'static str)
        ensures
            *self == InputError::Empty ==> r@ == "cannot parse integer from empty string"@,
            *self == InputError::InvalidDigit ==> r@ == "invalid digit found in string"@,
            *self == InputError::TooLarge ==> r@ == "number too large to fit in target type"@,
            *self == InputError::TooSmall ==> r@ == "number too small to fit in target type"@,
    {
        match self {
            InputError::Empty => "cannot parse integer from empty string",
            InputError::InvalidDigit => "invalid digit found in string",
            InputError::TooLarge => "number too large to fit in target type",
            InputError::TooSmall => "number too small to fit in target type",
        }
    }
}

/// A text field that takes a whole number. A refused input is reported, and
/// the last number accepted is kept.
pub struct NumberField {
    last_good: i64,
    error: Option<InputError>,
}

impl NumberField {
    /// A field holding zero.
    pub fn new() -> (r: Self)
        ensures
            r.last_good() == 0,
            r.error() == None::<InputError>,
    {
        NumberField { last_good: 0, error: None }
    }

    /// The last number accepted.
    pub closed spec fn last_good(&self) -> i64 {
        self.last_good
    }

    /// The failure of the latest input, if it was refused.
    pub closed spec fn error(&self) -> Option<InputError> {
        self.error
    }

    /// Takes a new input: a number replaces the kept one, anything else
    /// leaves it and records why it was refused.
    pub fn input(&mut self, text: &str) -> (r: Result<i64, InputError>)
        ensures
            r is Ok <==> spec_parse_i64(text@) is Some,
            r matches Ok(v) ==> spec_parse_i64(text@) == Some(v),
            r matches Err(e) ==> failure_allowed(text@, e),
            final(self).error() == (match r {
                Ok(_) => None::<InputError>,
                Err(e) => Some(e),
            }),
            final(self).last_good() == (match spec_parse_i64(text@) {
                Some(v) => v,
                None => old(self).last_good(),
            }),
    {
        let r = parse_i64(text);
        match r {
            Ok(v) => {
                self.last_good = v;
                self.error = None;
            },
            Err(e) => {
                self.error = Some(e);
            },
        }
        r
    }

    /// What the field shows: the number, or the failure of the latest input.
    pub fn value(&self) -> (r: Result<i64, InputError>)
        ensures
            r == (match self.error() {
                None => Ok::<i64, InputError>(self.last_good()),
                Some(e) => Err(e),
            }),
    {
        match self.error {
            None => Ok(self.last_good),
            Some(e) => Err(e),
        }
    }

    /// The last number accepted, kept through refused inputs.
    pub fn last_accepted(&self) -> (r: i64)
        ensures
            r == self.last_good(),
    {
        self.last_good
    }
}

} // verus!
