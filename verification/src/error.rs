//! The tokenizer's error types.

use vstd::prelude::*;

verus! {

/// An error met while tokenizing a BMS line.
///
/// Every variant carries the raw input text `value` that failed.
#[derive(Debug, Clone, PartialEq, Eq)]
pub enum BmsTokenizeError<C = String> {
    /// The measure number of a channel line is not valid.
    InvalidMeasure {
        /// The raw measure text.
        value: C,
    },
    /// The channel number of a channel line is not valid.
    InvalidChannel {
        /// The raw channel (address) text.
        value: C,
    },
    /// An integer field could not be parsed.
    InvalidInteger {
        /// The raw input.
        value: C,
    },
    /// A floating-point field could not be parsed.
    InvalidFloat {
        /// The raw input.
        value: C,
    },
    /// The input is not a recognized value in its context: well-formed but
    /// out of range, or none of the options of a literal enum.  `expected`
    /// is empty when no particular set of valid values applies.
    OutOfRange {
        /// The header command (for example `"#DIFFICULTY"`).
        context: &'static str,
        /// The raw input.
        value: C,
        /// A description of the valid values (for example `"1-5"`).
        expected: &'static str,
    },
}

impl View for BmsTokenizeError<String> {
    type V = BmsTokenizeError<Seq<char>>;

    open spec fn view(&self) -> BmsTokenizeError<Seq<char>> {
        match self {
            BmsTokenizeError::InvalidMeasure { value } => BmsTokenizeError::InvalidMeasure {
                value: value@,
            },
            BmsTokenizeError::InvalidChannel { value } => BmsTokenizeError::InvalidChannel {
                value: value@,
            },
            BmsTokenizeError::InvalidInteger { value } => BmsTokenizeError::InvalidInteger {
                value: value@,
            },
            BmsTokenizeError::InvalidFloat { value } => BmsTokenizeError::InvalidFloat {
                value: value@,
            },
            BmsTokenizeError::OutOfRange { context, value, expected } => BmsTokenizeError::OutOfRange {
                context: *context,
                value: value@,
                expected: *expected,
            },
        }
    }
}

/// The message of a tokenizing error.
pub open spec fn tokenize_error_text(e: BmsTokenizeError<Seq<char>>) -> Seq<char> {
    match e {
        BmsTokenizeError::InvalidMeasure { value } => seq!['i', 'n', 'v', 'a', 'l', 'i', 'd', ' ', 'm', 'e', 'a', 's', 'u', 'r', 'e', ' ', 'n', 'u', 'm', 'b', 'e', 'r', ':', ' ', '"'] + value + seq!['"'],
        BmsTokenizeError::InvalidChannel { value } => seq!['i', 'n', 'v', 'a', 'l', 'i', 'd', ' ', 'c', 'h', 'a', 'n', 'n', 'e', 'l', ' ', 'n', 'u', 'm', 'b', 'e', 'r', ':', ' ', '"'] + value + seq!['"'],
        BmsTokenizeError::InvalidInteger { value } => seq!['i', 'n', 'v', 'a', 'l', 'i', 'd', ' ', 'i', 'n', 't', 'e', 'g', 'e', 'r', ':', ' ', '"'] + value + seq!['"'],
        BmsTokenizeError::InvalidFloat { value } => seq!['i', 'n', 'v', 'a', 'l', 'i', 'd', ' ', 'f', 'l', 'o', 'a', 't', ':', ' ', '"'] + value + seq!['"'],
        BmsTokenizeError::OutOfRange { context, value, expected } => seq!['v', 'a', 'l', 'u', 'e', ' ', 'o', 'u', 't', ' ', 'o', 'f', ' ', 'r', 'a', 'n', 'g', 'e', ':', ' ', '"'] + value
            + seq!['"', ' ', 'f', 'o', 'r', ' '] + context@ + seq![' ', '(', 'e', 'x', 'p', 'e', 'c', 't', 'e', 'd', ' '] + expected@ + seq![')'],
    }
}

impl BmsTokenizeError<String> {
    /// The message of this error.
    pub fn to_string(&self) -> (r: String)
        ensures
            r@ == tokenize_error_text(self@),
    {
        let mut out: Vec<char> = Vec::new();
        match self {
            BmsTokenizeError::InvalidMeasure { value } => {
                crate::text::extend_chars(&mut out, &['i', 'n', 'v', 'a', 'l', 'i', 'd', ' ', 'm', 'e', 'a', 's', 'u', 'r', 'e', ' ', 'n', 'u', 'm', 'b', 'e', 'r', ':', ' ', '"']);
                let vc = crate::text::chars_of(value.as_str());
                crate::text::extend_chars(&mut out, &vc);
                out.push('"');
            },
            BmsTokenizeError::InvalidChannel { value } => {
                crate::text::extend_chars(&mut out, &['i', 'n', 'v', 'a', 'l', 'i', 'd', ' ', 'c', 'h', 'a', 'n', 'n', 'e', 'l', ' ', 'n', 'u', 'm', 'b', 'e', 'r', ':', ' ', '"']);
                let vc = crate::text::chars_of(value.as_str());
                crate::text::extend_chars(&mut out, &vc);
                out.push('"');
            },
            BmsTokenizeError::InvalidInteger { value } => {
                crate::text::extend_chars(&mut out, &['i', 'n', 'v', 'a', 'l', 'i', 'd', ' ', 'i', 'n', 't', 'e', 'g', 'e', 'r', ':', ' ', '"']);
                let vc = crate::text::chars_of(value.as_str());
                crate::text::extend_chars(&mut out, &vc);
                out.push('"');
            },
            BmsTokenizeError::InvalidFloat { value } => {
                crate::text::extend_chars(&mut out, &['i', 'n', 'v', 'a', 'l', 'i', 'd', ' ', 'f', 'l', 'o', 'a', 't', ':', ' ', '"']);
                let vc = crate::text::chars_of(value.as_str());
                crate::text::extend_chars(&mut out, &vc);
                out.push('"');
            },
            BmsTokenizeError::OutOfRange { context, value, expected } => {
                crate::text::extend_chars(&mut out, &['v', 'a', 'l', 'u', 'e', ' ', 'o', 'u', 't', ' ', 'o', 'f', ' ', 'r', 'a', 'n', 'g', 'e', ':', ' ', '"']);
                let vc = crate::text::chars_of(value.as_str());
                crate::text::extend_chars(&mut out, &vc);
                crate::text::extend_chars(&mut out, &['"', ' ', 'f', 'o', 'r', ' ']);
                let cc = crate::text::chars_of(context);
                crate::text::extend_chars(&mut out, &cc);
                crate::text::extend_chars(&mut out, &[' ', '(', 'e', 'x', 'p', 'e', 'c', 't', 'e', 'd', ' ']);
                let ec = crate::text::chars_of(expected);
                crate::text::extend_chars(&mut out, &ec);
                out.push(')');
            },
        }
        assert(out@ =~= tokenize_error_text(self@));
        crate::text::string_from(&out)
    }
}

/// The outcome of reading a header line with one group of header patterns,
/// taken by its view: an error, no match, or the header read.
pub open spec fn outcome_view<T: View>(r: Result<Option<T>, BmsTokenizeError<String>>) -> Result<
    Option<T::V>,
    BmsTokenizeError<Seq<char>>,
> {
    match r {
        Ok(Some(t)) => Ok(Some(t@)),
        Ok(None) => Ok(None),
        Err(e) => Err(e@),
    }
}

/// Returned when a text is not one of a header's literal options.
///
/// When not empty, the text says what was expected (for example
/// `"1 or 2"`).
#[derive(Debug, Clone, PartialEq, Eq)]
pub struct ParseBmsValueError(pub &'static str);

/// The message of a value error: `invalid BMS value` without an
/// expectation, otherwise `expected ` and the expectation.
pub open spec fn value_error_text(expected: Seq<char>) -> Seq<char> {
    if expected.len() == 0 {
        seq!['i', 'n', 'v', 'a', 'l', 'i', 'd', ' ', 'B', 'M', 'S', ' ', 'v', 'a', 'l', 'u', 'e']
    } else {
        seq!['e', 'x', 'p', 'e', 'c', 't', 'e', 'd', ' '] + expected
    }
}

impl ParseBmsValueError {
    /// The message of this error (see [`value_error_text`]).
    pub fn to_string(&self) -> (r: String)
        ensures
            r@ == value_error_text(self.0@),
    {
        let mut out: Vec<char> = Vec::new();
        let ec = crate::text::chars_of(self.0);
        if ec.len() == 0 {
            crate::text::extend_chars(&mut out, &['i', 'n', 'v', 'a', 'l', 'i', 'd', ' ', 'B', 'M', 'S', ' ', 'v', 'a', 'l', 'u', 'e']);
        } else {
            crate::text::extend_chars(&mut out, &['e', 'x', 'p', 'e', 'c', 't', 'e', 'd', ' ']);
            crate::text::extend_chars(&mut out, &ec);
        }
        assert(out@ =~= value_error_text(self.0@));
        crate::text::string_from(&out)
    }
}

/// Conversion of a value parser's error into a [`BmsTokenizeError`].
pub trait IntoTokensError {
    /// Converts this error, given the header command (`context`) and the
    /// raw input (`value`).
    fn into_error(self, context: &'static str, value: String) -> (r: BmsTokenizeError<String>);
}

impl IntoTokensError for ParseBmsValueError {
    /// Becomes `OutOfRange` with this error's expectation.
    fn into_error(self, context: &'static str, value: String) -> (r: BmsTokenizeError<String>)
        ensures
            r == (BmsTokenizeError::OutOfRange { context, value, expected: self.0 }),
    {
        BmsTokenizeError::OutOfRange { context, value, expected: self.0 }
    }
}

impl IntoTokensError for BmsTokenizeError<String> {
    /// An `OutOfRange` error without a context takes the given context and
    /// value; any other error is kept as it is.
    fn into_error(self, context: &'static str, value: String) -> (r: BmsTokenizeError<String>)
        ensures
            (match self {
                BmsTokenizeError::OutOfRange { context: c, value: _, expected } => if c@.len()
                    == 0 {
                    r == (BmsTokenizeError::OutOfRange { context, value, expected })
                } else {
                    r == self
                },
                _ => r == self,
            }),
    {
        match self {
            BmsTokenizeError::OutOfRange { context: c, value: v, expected } => {
                if c.is_empty() {
                    BmsTokenizeError::OutOfRange { context, value, expected }
                } else {
                    BmsTokenizeError::OutOfRange { context: c, value: v, expected }
                }
            },
            other => other,
        }
    }
}

/// The error of a conversion between token types.
#[derive(Debug, Clone, PartialEq, Eq)]
pub enum BmsTryFromError<C = String> {
    /// The source line held a tokenizing error.
    TokenizationError {
        /// The 1-based line number.
        line: usize,
        /// The error.
        error: BmsTokenizeError<C>,
    },
    /// The token is a channel message, not a header.
    NotAHeader,
    /// The token is a header, not a channel message.
    NotAMessage,
}

} // verus!
