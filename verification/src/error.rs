//! The error taxonomy: every failure the engine can report, each with a
//! stable numeric code and a human-readable message.

use vstd::prelude::*;
use vstd::string::StringExecFns;

verus! {

/// One failure kind: a settings-access or config-ingestion error, a policy
/// violation found by the checker, or a generator failure.
#[derive(Clone, Copy, Debug, PartialEq, Eq, Structural)]
pub enum ErrorKind {
    /// Unexpected internal failure.
    FatalFailure,
    /// A value could not be read as an integer.
    Integer,
    /// The configuration file could not be opened.
    CfgFileOpen,
    /// A configuration line does not follow the `name = value` format or
    /// names an unrecognized option.
    CfgFileMalformed,
    /// The option name is not recognized.
    UnknownSetting,
    /// The named option does not hold an integer.
    NonIntSetting,
    /// The named option does not hold a string.
    NonStrSetting,
    /// Memory allocation failure.
    MemAlloc,
    /// Too few characters of the new password are absent from the old one.
    TooSimilar,
    /// Fewer digits than the policy requires.
    MinDigits,
    /// Fewer uppercase letters than the policy requires.
    MinUppers,
    /// Fewer lowercase letters than the policy requires.
    MinLowers,
    /// Fewer non-alphanumeric characters than the policy requires.
    MinOthers,
    /// The password's credit-adjusted length is below the minimum.
    MinLength,
    /// The password reads the same backwards, ignoring letter case.
    Palindrome,
    /// The password differs from the old one by letter case only.
    CaseChangesOnly,
    /// The password is a cyclic rotation of the old one.
    Rotated,
    /// Fewer distinct character classes than the policy requires.
    MinClasses,
    /// A run of identical characters is longer than allowed.
    MaxConsecutive,
    /// The password is empty.
    EmptyPassword,
    /// The password equals the old one.
    SamePassword,
    /// The dictionary collaborator matched the password to a known word.
    CracklibCheck,
    /// The random source failed.
    Rng,
    /// The generator's attempt budget ran out without a passing candidate.
    GenerationFailed,
    /// The password contains the user name in some form.
    UserCheck,
    /// The password contains a word from the GECOS field of the user.
    GecosCheck,
    /// A run of characters of one class is longer than allowed.
    MaxClassRepeat,
    /// The password contains a forbidden word.
    BadWords,
    /// A monotonic character sequence is longer than allowed.
    MaxSequence,
}

/// The stable numeric code of each error kind.
pub open spec fn spec_code(kind: ErrorKind) -> int {
    match kind {
        ErrorKind::FatalFailure => -1,
        ErrorKind::Integer => -2,
        ErrorKind::CfgFileOpen => -3,
        ErrorKind::CfgFileMalformed => -4,
        ErrorKind::UnknownSetting => -5,
        ErrorKind::NonIntSetting => -6,
        ErrorKind::NonStrSetting => -7,
        ErrorKind::MemAlloc => -8,
        ErrorKind::TooSimilar => -9,
        ErrorKind::MinDigits => -10,
        ErrorKind::MinUppers => -11,
        ErrorKind::MinLowers => -12,
        ErrorKind::MinOthers => -13,
        ErrorKind::MinLength => -14,
        ErrorKind::Palindrome => -15,
        ErrorKind::CaseChangesOnly => -16,
        ErrorKind::Rotated => -17,
        ErrorKind::MinClasses => -18,
        ErrorKind::MaxConsecutive => -19,
        ErrorKind::EmptyPassword => -20,
        ErrorKind::SamePassword => -21,
        ErrorKind::CracklibCheck => -22,
        ErrorKind::Rng => -23,
        ErrorKind::GenerationFailed => -24,
        ErrorKind::UserCheck => -25,
        ErrorKind::GecosCheck => -26,
        ErrorKind::MaxClassRepeat => -27,
        ErrorKind::BadWords => -28,
        ErrorKind::MaxSequence => -29,
    }
}

/// The fixed message text of each error kind, before any auxiliary payload.
pub open spec fn spec_base_message(kind: ErrorKind) -> Seq<char> {
    match kind {
        ErrorKind::FatalFailure => "Fatal failure"@,
        ErrorKind::Integer => "Bad integer value"@,
        ErrorKind::CfgFileOpen => "Cannot open the configuration file"@,
        ErrorKind::CfgFileMalformed => "The configuration file is malformed"@,
        ErrorKind::UnknownSetting => "Unknown setting"@,
        ErrorKind::NonIntSetting => "Setting is not of integer type"@,
        ErrorKind::NonStrSetting => "Setting is not of string type"@,
        ErrorKind::MemAlloc => "Memory allocation error"@,
        ErrorKind::TooSimilar => "The password is too similar to the old one"@,
        ErrorKind::MinDigits => "The password contains less than the required number of digits"@,
        ErrorKind::MinUppers => "The password contains less than the required number of uppercase letters"@,
        ErrorKind::MinLowers => "The password contains less than the required number of lowercase letters"@,
        ErrorKind::MinOthers => "The password contains less than the required number of non-alphanumeric characters"@,
        ErrorKind::MinLength => "The password is shorter than the required number of characters"@,
        ErrorKind::Palindrome => "The password is a palindrome"@,
        ErrorKind::CaseChangesOnly => "The password differs with case changes only"@,
        ErrorKind::Rotated => "The password is rotated"@,
        ErrorKind::MinClasses => "The password contains less than the required number of character classes"@,
        ErrorKind::MaxConsecutive => "The password contains more than the allowed number of same consecutive characters"@,
        ErrorKind::EmptyPassword => "The password is empty"@,
        ErrorKind::SamePassword => "The password is the same as the old one"@,
        ErrorKind::CracklibCheck => "The password fails the dictionary check"@,
        ErrorKind::Rng => "Cannot obtain random numbers from the RNG device"@,
        ErrorKind::GenerationFailed => "Password generation failed - required entropy too low for settings"@,
        ErrorKind::UserCheck => "The password contains the user name in some form"@,
        ErrorKind::GecosCheck => "The password contains words from the real name of the user in some form"@,
        ErrorKind::MaxClassRepeat => "The password contains more than the allowed number of consecutive characters of the same class"@,
        ErrorKind::BadWords => "The password contains forbidden words in some form"@,
        ErrorKind::MaxSequence => "The password contains monotonic sequences longer than allowed"@,
    }
}

/// An error reported by the engine: a kind plus an optional auxiliary
/// payload (the matched dictionary word, the malformed config line, or the
/// unrecognized option name).
#[derive(Debug)]
pub struct PWQError {
    pub kind: ErrorKind,
    pub aux: Option<String>,
}

/// The full message text of an error: the kind's fixed text, followed by
/// the auxiliary payload when one is present.
pub open spec fn spec_message(kind: ErrorKind, aux: Option<String>) -> Seq<char> {
    match aux {
        Option::None => spec_base_message(kind),
        Option::Some(a) => spec_base_message(kind) + " - "@ + a@,
    }
}

impl PWQError {
    /// An error with no auxiliary payload.
    pub fn new(kind: ErrorKind) -> (r: Self)
        ensures
            r.kind == kind,
            r.aux is None,
    {
        PWQError { kind, aux: None }
    }

    /// An error carrying an auxiliary payload.
    pub fn with_aux(kind: ErrorKind, aux: String) -> (r: Self)
        ensures
            r.kind == kind,
            r.aux == Some(aux),
    {
        PWQError { kind, aux: Some(aux) }
    }

    /// The kind of this error.
    pub fn kind(&self) -> (r: ErrorKind)
        ensures
            r == self.kind,
    {
        self.kind
    }

    /// The stable numeric code of this error.
    pub fn code(&self) -> (r: i32)
        ensures
            r as int == spec_code(self.kind),
    {
        match self.kind {
            ErrorKind::FatalFailure => -1,
            ErrorKind::Integer => -2,
            ErrorKind::CfgFileOpen => -3,
            ErrorKind::CfgFileMalformed => -4,
            ErrorKind::UnknownSetting => -5,
            ErrorKind::NonIntSetting => -6,
            ErrorKind::NonStrSetting => -7,
            ErrorKind::MemAlloc => -8,
            ErrorKind::TooSimilar => -9,
            ErrorKind::MinDigits => -10,
            ErrorKind::MinUppers => -11,
            ErrorKind::MinLowers => -12,
            ErrorKind::MinOthers => -13,
            ErrorKind::MinLength => -14,
            ErrorKind::Palindrome => -15,
            ErrorKind::CaseChangesOnly => -16,
            ErrorKind::Rotated => -17,
            ErrorKind::MinClasses => -18,
            ErrorKind::MaxConsecutive => -19,
            ErrorKind::EmptyPassword => -20,
            ErrorKind::SamePassword => -21,
            ErrorKind::CracklibCheck => -22,
            ErrorKind::Rng => -23,
            ErrorKind::GenerationFailed => -24,
            ErrorKind::UserCheck => -25,
            ErrorKind::GecosCheck => -26,
            ErrorKind::MaxClassRepeat => -27,
            ErrorKind::BadWords => -28,
            ErrorKind::MaxSequence => -29,
        }
    }

    /// The human-readable message of this error, with the auxiliary payload
    /// appended when one is present.
    pub fn message(&self) -> (r: String)
        ensures
            r@ == spec_message(self.kind, self.aux),
    {
        let mut s = match self.kind {
            ErrorKind::FatalFailure => String::from_str("Fatal failure"),
            ErrorKind::Integer => String::from_str("Bad integer value"),
            ErrorKind::CfgFileOpen => String::from_str("Cannot open the configuration file"),
            ErrorKind::CfgFileMalformed => String::from_str("The configuration file is malformed"),
            ErrorKind::UnknownSetting => String::from_str("Unknown setting"),
            ErrorKind::NonIntSetting => String::from_str("Setting is not of integer type"),
            ErrorKind::NonStrSetting => String::from_str("Setting is not of string type"),
            ErrorKind::MemAlloc => String::from_str("Memory allocation error"),
            ErrorKind::TooSimilar => String::from_str("The password is too similar to the old one"),
            ErrorKind::MinDigits => String::from_str("The password contains less than the required number of digits"),
            ErrorKind::MinUppers => String::from_str("The password contains less than the required number of uppercase letters"),
            ErrorKind::MinLowers => String::from_str("The password contains less than the required number of lowercase letters"),
            ErrorKind::MinOthers => String::from_str("The password contains less than the required number of non-alphanumeric characters"),
            ErrorKind::MinLength => String::from_str("The password is shorter than the required number of characters"),
            ErrorKind::Palindrome => String::from_str("The password is a palindrome"),
            ErrorKind::CaseChangesOnly => String::from_str("The password differs with case changes only"),
            ErrorKind::Rotated => String::from_str("The password is rotated"),
            ErrorKind::MinClasses => String::from_str("The password contains less than the required number of character classes"),
            ErrorKind::MaxConsecutive => String::from_str("The password contains more than the allowed number of same consecutive characters"),
            ErrorKind::EmptyPassword => String::from_str("The password is empty"),
            ErrorKind::SamePassword => String::from_str("The password is the same as the old one"),
            ErrorKind::CracklibCheck => String::from_str("The password fails the dictionary check"),
            ErrorKind::Rng => String::from_str("Cannot obtain random numbers from the RNG device"),
            ErrorKind::GenerationFailed => String::from_str("Password generation failed - required entropy too low for settings"),
            ErrorKind::UserCheck => String::from_str("The password contains the user name in some form"),
            ErrorKind::GecosCheck => String::from_str("The password contains words from the real name of the user in some form"),
            ErrorKind::MaxClassRepeat => String::from_str("The password contains more than the allowed number of consecutive characters of the same class"),
            ErrorKind::BadWords => String::from_str("The password contains forbidden words in some form"),
            ErrorKind::MaxSequence => String::from_str("The password contains monotonic sequences longer than allowed"),
        };

        match &self.aux {
            Option::None => {},
            Option::Some(a) => {
                s.append(" - ");
                s.append(a.as_str());
            },
        }

        s
    }
}

} // verus!
