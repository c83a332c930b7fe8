//! Complex numbers as text: how one is written, and how one is read.
use crate::algebra::AdditiveGroup;
use crate::algebra::MultiplicativeGroup;
use crate::algebra::Real;
use crate::algebra::Text;
use crate::complex::Complex;
use std::ops::Neg;
use vstd::prelude::*;
use vstd::std_specs::ops::NegSpec;
use vstd::string::*;

verus! {

/// The one error of reading a complex number: the text is no complex
/// literal.
#[derive(Debug, Clone, Copy, PartialEq, Eq, Structural)]
pub struct ComplexParseError;

impl ComplexParseError {
    /// What the error says.
    pub fn to_string(&self) -> (s: String)
        ensures
            s@ == "malformed complex literal"@,
    {
        String::from_str("malformed complex literal")
    }
}

/// The grammar of a literal that has both parts or an imaginary part with
/// digits: an optional signed real part, then an imaginary coefficient that
/// begins with a sign unless it begins the text and may be the sign alone,
/// then `i`. Either part may carry an exponent.
pub const LITERAL_PATTERN: &'static str =
    "^([+-]?[0-9.]+(?:e[+-]?[0-9]+)?)?((?:^|[+-])[0-9.]*(?:e[+-]?[0-9]+)?)i$";

/// `regex::Error`, the reason a pattern did not compile. It is carried
/// from the search to the caller and never looked into.
#[verifier::external_type_specification]
#[verifier::external_body]
pub struct ExRegexError(regex::Error);

/// What the first two capture groups of the leftmost match of `pattern` in
/// `text` hold: `None` when the pattern does not compile, `Some(None)` when
/// it does not match, and else the text of each group, `None` for a group
/// that took no part in the match or that the pattern does not have.
pub uninterp spec fn regex_captures(pattern: Text, text: Text) -> Option<
    Option<(Option<Text>, Option<Text>)>,
>;

/// Compiles `pattern` with `regex::Regex::new` and searches `text` with
/// `Regex::captures`. What comes back is a function of the two texts alone,
/// named `regex_captures`: the error of the compilation, or whether there
/// was a match and what `Captures::get` holds for the groups 1 and 2.
#[verifier::external_body]
fn capture_two(pattern: &str, text: &str) -> (r: Result<
    Option<(Option<String>, Option<String>)>,
    regex::Error,
>)
    ensures
        match r {
            Ok(Some(groups)) => regex_captures(pattern@, text@) == Some(
                Some((option_text(groups.0), option_text(groups.1))),
            ),
            Ok(None) => regex_captures(pattern@, text@) == Some(
                None::<(Option<Text>, Option<Text>)>,
            ),
            Err(_) => regex_captures(pattern@, text@) is None,
        },
{
    let compiled = regex::Regex::new(pattern)?;
    Ok(
        match compiled.captures(text) {
            Some(found) => Some(
                (
                    found.get(1).map(|m| m.as_str().to_string()),
                    found.get(2).map(|m| m.as_str().to_string()),
                ),
            ),
            None => None,
        },
    )
}

/// What an optional string holds.
pub open spec fn option_text(s: Option<String>) -> Option<Text> {
    match s {
        Some(t) => Some(t@),
        None => None,
    }
}

/// Whether a text ends in `i`.
pub open spec fn ends_in_i(text: Text) -> bool {
    text.len() > 0 && text.last() == 'i'
}

/// The imaginary coefficient that a captured text denotes: a lone sign is
/// plus or minus one, anything else is read as a real number.
pub open spec fn coefficient_of<R: Real>(text: Text) -> Option<R> {
    if text == "+"@ {
        Some(R::one_spec())
    } else if text == "-"@ {
        Some(R::one_spec().neg_spec())
    } else {
        R::parse_spec(text)
    }
}

/// The complex number that the two captured parts of a literal denote. A
/// part that is absent is zero, and a part that is no number makes the
/// literal malformed.
pub open spec fn complex_of_parts<R: Real>(real_part: Option<Text>, imaginary_part: Option<Text>) -> Result<
    Complex<R>,
    ComplexParseError,
> {
    let x = match real_part {
        Some(text) => R::parse_spec(text),
        None => Some(R::zero_spec()),
    };
    let y = match imaginary_part {
        Some(text) => coefficient_of::<R>(text),
        None => Some(R::zero_spec()),
    };
    if x is Some && y is Some {
        Ok(Complex { x: x->0, y: y->0 })
    } else {
        Err(ComplexParseError)
    }
}

/// The complex number that a text denotes: `0`, `i` and `-i` are
/// themselves, a text that does not end in `i` is a real number, and any
/// other is taken apart by `LITERAL_PATTERN`.
pub open spec fn complex_of_text<R: Real>(text: Text) -> Result<Complex<R>, ComplexParseError> {
    if text == "0"@ {
        Ok(Complex { x: R::zero_spec(), y: R::zero_spec() })
    } else if text == "i"@ {
        Ok(Complex { x: R::zero_spec(), y: R::one_spec() })
    } else if text == "-i"@ {
        Ok(Complex { x: R::zero_spec(), y: R::one_spec().neg_spec() })
    } else if !ends_in_i(text) {
        match R::parse_spec(text) {
            Some(x) => Ok(Complex { x, y: R::zero_spec() }),
            None => Err(ComplexParseError),
        }
    } else {
        match regex_captures(LITERAL_PATTERN@, text) {
            Some(Some(parts)) => complex_of_parts::<R>(parts.0, parts.1),
            _ => Err(ComplexParseError),
        }
    }
}

/// Whether two strings hold the same text.
pub fn same_text(a: &str, b: &str) -> (same: bool)
    ensures
        same == (a@ == b@),
{
    let len = a.unicode_len();
    if len != b.unicode_len() {
        return false;
    }
    let mut i: usize = 0;
    while i < len
        invariant
            len == a@.len(),
            len == b@.len(),
            i <= len,
            forall|k: int| 0 <= k < i ==> a@[k] == b@[k],
        decreases len - i,
    {
        if a.get_char(i) != b.get_char(i) {
            return false;
        }
        i = i + 1;
    }
    assert(a@ =~= b@);
    true
}

/// Builds the complex number from the two captured parts of a literal.
pub fn complex_from_parts<R: Real>(real_part: &Option<String>, imaginary_part: &Option<String>) -> (r: Result<
    Complex<R>,
    ComplexParseError,
>)
    ensures
        r == complex_of_parts::<R>(option_text(*real_part), option_text(*imaginary_part)),
{
    proof {
        R::additive_closed();
    }
    let x = match real_part {
        Some(text) => match R::parse(text.as_str()) {
            Some(x) => x,
            None => {
                return Err(ComplexParseError);
            },
        },
        None => R::zero(),
    };
    let y = match imaginary_part {
        Some(text) => {
            if same_text(text.as_str(), "+") {
                R::one()
            } else if same_text(text.as_str(), "-") {
                R::one().neg()
            } else {
                match R::parse(text.as_str()) {
                    Some(y) => y,
                    None => {
                        return Err(ComplexParseError);
                    },
                }
            }
        },
        None => R::zero(),
    };
    Ok(Complex { x, y })
}

impl<R: Real> Complex<R> {
    /// Reads a complex number from its literal.
    pub fn from_str(s: &str) -> (r: Result<Complex<R>, ComplexParseError>)
        ensures
            r == complex_of_text::<R>(s@),
    {
        proof {
            R::additive_closed();
        }
        if same_text(s, "0") {
            return Ok(Complex { x: R::zero(), y: R::zero() });
        }
        if same_text(s, "i") {
            return Ok(Complex { x: R::zero(), y: R::one() });
        }
        if same_text(s, "-i") {
            return Ok(Complex { x: R::zero(), y: R::one().neg() });
        }
        let len = s.unicode_len();
        if len == 0 || s.get_char(len - 1) != 'i' {
            return match R::parse(s) {
                Some(x) => Ok(Complex { x, y: R::zero() }),
                None => Err(ComplexParseError),
            };
        }
        match capture_two(LITERAL_PATTERN, s) {
            Ok(Some(parts)) => complex_from_parts(&parts.0, &parts.1),
            Ok(None) => Err(ComplexParseError),
            Err(_) => Err(ComplexParseError),
        }
    }
}

impl<R: Real> Complex<R> {
    /// How a complex number is written: zero is `0`; a real number is its
    /// real part; an imaginary number is `i`, `-i`, or its coefficient
    /// before `i`; and a number with both parts is the real part, then the
    /// imaginary coefficient under its own sign, a `+` where it is not
    /// negative, then `i`.
    pub open spec fn text_spec(self) -> Text {
        let zero = R::zero_spec();
        let one = R::one_spec();
        if self.x == zero && self.y == zero {
            "0"@
        } else if self.x == zero {
            if self.y == one {
                "i"@
            } else if self.y == one.neg_spec() {
                "-i"@
            } else {
                self.y.text_spec() + "i"@
            }
        } else if self.y == zero {
            self.x.text_spec()
        } else if self.y.lt_spec(zero) {
            self.x.text_spec() + self.y.text_spec() + "i"@
        } else {
            self.x.text_spec() + "+"@ + self.y.text_spec() + "i"@
        }
    }

    /// Writes the number as a literal.
    pub fn to_string(&self) -> (s: String)
        ensures
            s@ == self.text_spec(),
    {
        proof {
            R::additive_closed();
        }
        let zero = R::zero();
        let one = R::one();
        if self.x.equals(&zero) && self.y.equals(&zero) {
            String::from_str("0")
        } else if self.x.equals(&zero) {
            if self.y.equals(&one) {
                String::from_str("i")
            } else if self.y.equals(&one.neg()) {
                String::from_str("-i")
            } else {
                let mut s = self.y.to_text();
                s.append("i");
                s
            }
        } else if self.y.equals(&zero) {
            self.x.to_text()
        } else if self.y.lt(&zero) {
            let mut s = self.x.to_text();
            s.append(self.y.to_text().as_str());
            s.append("i");
            s
        } else {
            let mut s = self.x.to_text();
            s.append("+");
            s.append(self.y.to_text().as_str());
            s.append("i");
            s
        }
    }
}

/// The decimal digit for a number below ten.
pub open spec fn digit(d: nat) -> Text {
    if d == 0 {
        "0"@
    } else if d == 1 {
        "1"@
    } else if d == 2 {
        "2"@
    } else if d == 3 {
        "3"@
    } else if d == 4 {
        "4"@
    } else if d == 5 {
        "5"@
    } else if d == 6 {
        "6"@
    } else if d == 7 {
        "7"@
    } else if d == 8 {
        "8"@
    } else {
        "9"@
    }
}

/// A natural number in decimal digits, without leading zeros.
pub open spec fn decimal(n: nat) -> Text
    decreases n,
{
    if n < 10 {
        digit(n)
    } else {
        decimal(n / 10) + digit(n % 10)
    }
}

fn digit_text(d: usize) -> (s: &'static str)
    requires
        d < 10,
    ensures
        s@ == digit(d as nat),
{
    if d == 0 {
        "0"
    } else if d == 1 {
        "1"
    } else if d == 2 {
        "2"
    } else if d == 3 {
        "3"
    } else if d == 4 {
        "4"
    } else if d == 5 {
        "5"
    } else if d == 6 {
        "6"
    } else if d == 7 {
        "7"
    } else if d == 8 {
        "8"
    } else {
        "9"
    }
}

/// Writes a number in decimal digits.
pub fn decimal_text(n: usize) -> (s: String)
    ensures
        s@ == decimal(n as nat),
    decreases n,
{
    if n < 10 {
        String::from_str(digit_text(n))
    } else {
        let mut s = decimal_text(n / 10);
        s.append(digit_text(n % 10));
        s
    }
}

} // verus!
