use vstd::prelude::*;

verus! {

/// The reasons a piece of input text can be rejected when it is parsed as an
/// identifier, a type expression or a generic argument list.
#[derive(Clone, Copy, Debug, PartialEq, Eq, Structural)]
pub enum ParseError {
    /// The input was empty where a non-empty identifier was required.
    EmptyInput,
    /// The input contains a space character.
    ContainsSpace,
    /// The input contains an underscore where none is allowed.
    ContainsUnderscore,
    /// The input starts with a lowercase letter where an uppercase start is required.
    StartsLowercase,
    /// The input contains an uppercase letter where none is allowed.
    ContainsUppercase,
    /// The input contains a lowercase letter where none is allowed.
    ContainsLowercase,
    /// The input contains two adjacent underscores.
    ContainsDoubleSeparator,
    /// A generic argument list is not wrapped in matching angle brackets.
    MalformedBrackets,
    /// A bracketed generic argument list holds no arguments at all.
    EmptyArgumentList,
    /// One of the arguments of a generic argument list could not be parsed.
    UnparsableArgument,
}

/// The text of the human-readable reason attached to each error.
pub open spec fn message_text(e: ParseError) -> Seq<char> {
    match e {
        ParseError::EmptyInput => "input must not be empty"@,
        ParseError::ContainsSpace => "input must not contain spaces"@,
        ParseError::ContainsUnderscore => "input must not contain underscores"@,
        ParseError::StartsLowercase => "input must not start with a lowercase letter"@,
        ParseError::ContainsUppercase => "input must not contain uppercase letters"@,
        ParseError::ContainsLowercase => "input must not contain lowercase letters"@,
        ParseError::ContainsDoubleSeparator => "input must not contain double underscores"@,
        ParseError::MalformedBrackets => "generic arguments must be wrapped by '<>'"@,
        ParseError::EmptyArgumentList => "generic argument list must not be empty"@,
        ParseError::UnparsableArgument => "argument is neither a type nor a lifetime"@,
    }
}

impl ParseError {
    /// A short human-readable reason for the failure.
    pub fn message(&self) -> (r: &'static str)
        ensures
            r@ == message_text(*self),
    {
        match self {
            ParseError::EmptyInput => "input must not be empty",
            ParseError::ContainsSpace => "input must not contain spaces",
            ParseError::ContainsUnderscore => "input must not contain underscores",
            ParseError::StartsLowercase => "input must not start with a lowercase letter",
            ParseError::ContainsUppercase => "input must not contain uppercase letters",
            ParseError::ContainsLowercase => "input must not contain lowercase letters",
            ParseError::ContainsDoubleSeparator => "input must not contain double underscores",
            ParseError::MalformedBrackets => "generic arguments must be wrapped by '<>'",
            ParseError::EmptyArgumentList => "generic argument list must not be empty",
            ParseError::UnparsableArgument => "argument is neither a type nor a lifetime",
        }
    }
}

} // verus!
