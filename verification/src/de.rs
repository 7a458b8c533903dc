//! The reading pipeline's checks before a bmson document is deserialised,
//! and its errors.

use vstd::prelude::*;
use crate::bmson::{version_of, BmsonError, DetectedVersion};
use crate::bmson::v0::TryFromV0Error;
use crate::json::{errors_of, parse_json, parse_spec, JsonDiagnostic, JsonError, JsonErrorReason};

verus! {

/// The message of a diagnostic.
pub open spec fn diagnostic_text(d: JsonDiagnostic) -> Seq<char> {
    match d {
        JsonDiagnostic::LeadingZero => seq!['l', 'e', 'a', 'd', 'i', 'n', 'g', ' ', 'z', 'e', 'r', 'o', 's', ' ', 'a', 'r', 'e', ' ', 'n', 'o', 't', ' ', 'a', 'l', 'l', 'o', 'w', 'e', 'd', ' ', 'i', 'n', ' ', 'J', 'S', 'O', 'N', ' ', 'n', 'u', 'm', 'b', 'e', 'r', 's'],
        JsonDiagnostic::InvalidUnicode => seq!['i', 'n', 'v', 'a', 'l', 'i', 'd', ' ', 'u', 'n', 'i', 'c', 'o', 'd', 'e', ' ', 'c', 'h', 'a', 'r', 'a', 'c', 't', 'e', 'r'],
        JsonDiagnostic::ControlCharacter => seq!['u', 'n', 'e', 's', 'c', 'a', 'p', 'e', 'd', ' ', 'c', 'o', 'n', 't', 'r', 'o', 'l', ' ', 'c', 'h', 'a', 'r', 'a', 'c', 't', 'e', 'r', ' ', 'i', 'n', ' ', 's', 't', 'r', 'i', 'n', 'g'],
        JsonDiagnostic::MissingComma => seq!['e', 'x', 'p', 'e', 'c', 't', 'e', 'd', ' ', '\'', ',', '\'', ' ', 'b', 'e', 't', 'w', 'e', 'e', 'n', ' ', 'o', 'b', 'j', 'e', 'c', 't', ' ', 'm', 'e', 'm', 'b', 'e', 'r', 's'],
        JsonDiagnostic::LeadingComma => seq!['l', 'e', 'a', 'd', 'i', 'n', 'g', ' ', 'c', 'o', 'm', 'm', 'a', ' ', 'i', 'n', ' ', 'o', 'b', 'j', 'e', 'c', 't'],
    }
}

/// The message of a JSON error: a diagnostic's message, or what was found
/// where the grammar expected something else.
pub open spec fn error_text(e: JsonError) -> Seq<char> {
    match e.reason {
        JsonErrorReason::Custom(d) => diagnostic_text(d),
        JsonErrorReason::ExpectedFound(Some(c)) => seq!['f', 'o', 'u', 'n', 'd', ' ', '\''] + seq![c, '\''],
        JsonErrorReason::ExpectedFound(None) => seq!['f', 'o', 'u', 'n', 'd', ' ', 'e', 'n', 'd', ' ', 'o', 'f', ' ', 'i', 'n', 'p', 'u', 't'],
    }
}

/// The messages of `errs`, separated by `sep`.
pub open spec fn joined_text(errs: Seq<JsonError>, sep: Seq<char>) -> Seq<char>
    decreases errs.len(),
{
    if errs.len() == 0 {
        Seq::empty()
    } else if errs.len() == 1 {
        error_text(errs[0])
    } else {
        joined_text(errs.drop_last(), sep) + sep + error_text(errs.last())
    }
}

impl JsonDiagnostic {
    /// The message of this diagnostic.
    pub fn message(&self) -> (r: String)
        ensures
            r@ == diagnostic_text(*self),
    {
        match self {
            JsonDiagnostic::LeadingZero => crate::text::string_from(&['l', 'e', 'a', 'd', 'i', 'n', 'g', ' ', 'z', 'e', 'r', 'o', 's', ' ', 'a', 'r', 'e', ' ', 'n', 'o', 't', ' ', 'a', 'l', 'l', 'o', 'w', 'e', 'd', ' ', 'i', 'n', ' ', 'J', 'S', 'O', 'N', ' ', 'n', 'u', 'm', 'b', 'e', 'r', 's']),
            JsonDiagnostic::InvalidUnicode => crate::text::string_from(&['i', 'n', 'v', 'a', 'l', 'i', 'd', ' ', 'u', 'n', 'i', 'c', 'o', 'd', 'e', ' ', 'c', 'h', 'a', 'r', 'a', 'c', 't', 'e', 'r']),
            JsonDiagnostic::ControlCharacter => crate::text::string_from(&['u', 'n', 'e', 's', 'c', 'a', 'p', 'e', 'd', ' ', 'c', 'o', 'n', 't', 'r', 'o', 'l', ' ', 'c', 'h', 'a', 'r', 'a', 'c', 't', 'e', 'r', ' ', 'i', 'n', ' ', 's', 't', 'r', 'i', 'n', 'g']),
            JsonDiagnostic::MissingComma => crate::text::string_from(&['e', 'x', 'p', 'e', 'c', 't', 'e', 'd', ' ', '\'', ',', '\'', ' ', 'b', 'e', 't', 'w', 'e', 'e', 'n', ' ', 'o', 'b', 'j', 'e', 'c', 't', ' ', 'm', 'e', 'm', 'b', 'e', 'r', 's']),
            JsonDiagnostic::LeadingComma => crate::text::string_from(&['l', 'e', 'a', 'd', 'i', 'n', 'g', ' ', 'c', 'o', 'm', 'm', 'a', ' ', 'i', 'n', ' ', 'o', 'b', 'j', 'e', 'c', 't']),
        }
    }
}

impl JsonError {
    /// The message of this error.
    pub fn message(&self) -> (r: String)
        ensures
            r@ == error_text(*self),
    {
        let mut out: Vec<char> = Vec::new();
        match self.reason {
            JsonErrorReason::Custom(d) => {
                return d.message();
            },
            JsonErrorReason::ExpectedFound(Some(c)) => {
                crate::text::extend_chars(&mut out, &['f', 'o', 'u', 'n', 'd', ' ', '\'']);
                out.push(c);
                out.push('\'');
            },
            JsonErrorReason::ExpectedFound(None) => {
                crate::text::extend_chars(&mut out, &['f', 'o', 'u', 'n', 'd', ' ', 'e', 'n', 'd', ' ', 'o', 'f', ' ', 'i', 'n', 'p', 'u', 't']);
            },
        }
        assert(out@ =~= error_text(*self));
        crate::text::string_from(&out)
    }
}

/// The messages of `errs`, separated by `sep`.
pub fn join_errors(errs: &Vec<JsonError>, sep: &str) -> (r: String)
    ensures
        r@ == joined_text(errs@, sep@),
{
    let sc = crate::text::chars_of(sep);
    let mut out: Vec<char> = Vec::new();
    let mut i: usize = 0;
    while i < errs.len()
        invariant
            i <= errs@.len(),
            sc@ == sep@,
            out@ == joined_text(errs@.take(i as int), sep@),
        decreases errs.len() - i,
    {
        if i > 0 {
            crate::text::extend_chars(&mut out, &sc);
        }
        let m = crate::text::chars_of(errs[i].message().as_str());
        crate::text::extend_chars(&mut out, &m);
        proof {
            assert(errs@.take(i + 1).drop_last() =~= errs@.take(i as int));
        }
        i = i + 1;
    }
    assert(errs@.take(i as int) =~= errs@);
    crate::text::string_from(&out)
}

/// An error of reading a bmson document.
#[derive(Debug, Clone, PartialEq, Eq)]
pub enum BmsonDeError {
    /// No JSON value could be read; the messages of the fatal errors, one
    /// per line.
    JsonParse(String),
    /// The version is missing its value or unknown.
    UnknownVersion(String),
    /// The JSON does not hold a document of the detected version.
    Deserialize {
        /// The version, as `v2.0.0`, `v1.0.0` or `v0.2.1`.
        version: String,
        /// What went wrong.
        message: String,
    },
    /// A version-0 document could not be converted.
    V0Conversion(String),
}

impl From<BmsonError> for BmsonDeError {
    fn from(e: BmsonError) -> (r: Self) {
        match e {
            BmsonError::UnknownVersion(v) => BmsonDeError::UnknownVersion(v),
            BmsonError::V0Conversion(v) => BmsonDeError::V0Conversion(v),
        }
    }
}

impl vstd::std_specs::convert::FromSpecImpl<BmsonError> for BmsonDeError {
    open spec fn obeys_from_spec() -> bool {
        true
    }

    open spec fn from_spec(e: BmsonError) -> Self {
        match e {
            BmsonError::UnknownVersion(v) => BmsonDeError::UnknownVersion(v),
            BmsonError::V0Conversion(v) => BmsonDeError::V0Conversion(v),
        }
    }
}

impl From<TryFromV0Error> for BmsonDeError {
    fn from(e: TryFromV0Error) -> (r: Self) {
        BmsonDeError::V0Conversion(e.message)
    }
}

impl vstd::std_specs::convert::FromSpecImpl<TryFromV0Error> for BmsonDeError {
    open spec fn obeys_from_spec() -> bool {
        true
    }

    open spec fn from_spec(e: TryFromV0Error) -> Self {
        BmsonDeError::V0Conversion(e.message)
    }
}

/// The message of a failed deserialisation with the JSON reader's errors
/// quoted: the message, a line break, and `  (parser diagnostics: ` with the
/// errors joined by `; ` and a closing `)`.
pub open spec fn diagnostics_text(message: Seq<char>, errs: Seq<JsonError>) -> Seq<char> {
    message + seq![
        '\n',
        ' ',
        ' ',
        '(',
        'p',
        'a',
        'r',
        's',
        'e',
        'r',
        ' ',
        'd',
        'i',
        'a',
        'g',
        'n',
        'o',
        's',
        't',
        'i',
        'c',
        's',
        ':',
        ' ',
    ] + joined_text(errs, seq![';', ' ']) + seq![')']
}

/// The entry point of bmson reading.
pub struct BmsonParser;

impl BmsonParser {
    /// The checks that come before deserialising `json`: a JSON value must
    /// be read from it (else `JsonParse`, with the messages of the fatal
    /// errors, one per line), and its version must be known (else
    /// `UnknownVersion`). Gives the version and all errors that the JSON
    /// reader reported, which a failed deserialisation then quotes.
    pub fn check(json: &str) -> (r: Result<(DetectedVersion, Vec<JsonError>), BmsonDeError>)
        ensures
            parse_spec(json@).0 is None ==> (r matches Err(BmsonDeError::JsonParse(m)) && m@
                == joined_text(errors_of(parse_spec(json@).1, false), seq!['\n'])),
            parse_spec(json@).0 is Some ==> match version_of(json@) {
                Ok(v) => (r matches Ok((w, errs)) && w == v && errs@ == parse_spec(json@).1),
                Err(m) => (r matches Err(BmsonDeError::UnknownVersion(s)) && s@ == m),
            },
    {
        let (value, errors) = parse_json(json);
        if value.is_none() {
            let (_warnings, _recovered, fatal) = crate::json::classify_errors(errors, false);
            let sep = "\n";
            proof {
                reveal_strlit("\n");
                assert(sep@ =~= seq!['\n']);
            }
            let msg = join_errors(&fatal, sep);
            return Err(BmsonDeError::JsonParse(msg));
        }
        match crate::bmson::detect_version(json) {
            Ok(v) => Ok((v, errors)),
            Err(e) => Err(BmsonDeError::from(e)),
        }
    }

    /// The error of a failed deserialisation, given the errors that the
    /// JSON reader reported: when there are some, a `Deserialize` error
    /// quotes them after its message (see [`diagnostics_text`]); any other
    /// error, or any error when there are none, is kept.
    pub fn with_diagnostics(err: BmsonDeError, errors: &Vec<JsonError>) -> (r: BmsonDeError)
        ensures
            match err {
                BmsonDeError::Deserialize { version, message } => if errors@.len() > 0 {
                    r matches BmsonDeError::Deserialize { version: v2, message: m2 } && v2@ == version@
                        && m2@ == diagnostics_text(message@, errors@)
                } else {
                    r == err
                },
                _ => r == err,
            },
    {
        if errors.len() == 0 {
            return err;
        }
        match err {
            BmsonDeError::Deserialize { version, message } => {
                let sep = "; ";
                proof {
                    reveal_strlit("; ");
                    assert(sep@ =~= seq![';', ' ']);
                }
                let diag = join_errors(errors, sep);
                let mut out = crate::text::chars_of(message.as_str());
                crate::text::extend_chars(
                    &mut out,
                    &[
                        '\n',
                        ' ',
                        ' ',
                        '(',
                        'p',
                        'a',
                        'r',
                        's',
                        'e',
                        'r',
                        ' ',
                        'd',
                        'i',
                        'a',
                        'g',
                        'n',
                        'o',
                        's',
                        't',
                        'i',
                        'c',
                        's',
                        ':',
                        ' ',
                    ],
                );
                let dc = crate::text::chars_of(diag.as_str());
                crate::text::extend_chars(&mut out, &dc);
                out.push(')');
                assert(out@ =~= diagnostics_text(message@, errors@));
                BmsonDeError::Deserialize { version, message: crate::text::string_from(&out) }
            },
            other => other,
        }
    }
}

} // verus!
