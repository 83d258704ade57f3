use vstd::prelude::*;

verus! {

/// A 1-based line and column position inside a master file, carried by
/// format errors so a caller can point at the offending input.
#[derive(Debug, Clone, Copy, PartialEq, Eq, Structural)]
pub struct LineCharPos {
    pub line: usize,
    pub column: usize,
}

/// The ways a master file can break the textual format.
#[derive(Debug, Clone, Copy, PartialEq, Eq, Structural)]
pub enum FormatIssue {
    /// A control directive name holds a character that is not a letter.
    ControlNameNotLetters,
    /// A control directive name is not one the format knows.
    UnknownControlDirective,
    /// A continuation line carries a record although no owner name is known.
    NoOwnerName,
    /// A record gives no class and no class is pinned for the file yet.
    NoClass,
    /// A record's class differs from the class pinned for the file.
    MultipleClasses,
    /// The record TYPE is recognised but not supported.
    UnknownRRType,
    /// No record TYPE was given.
    MissingRRType,
    /// An opening parenthesis inside an already open multi-line block.
    NestedMultiline,
    /// A closing parenthesis outside a multi-line block.
    NotInMultiline,
    /// A decimal number was required and is missing or out of range.
    InvalidNumber,
    /// A part of an IPv4 address is missing or out of range.
    InvalidIpPart,
    /// A character that can stand in no IPv4 address.
    InvalidIpFormat,
    /// No whitespace between a directive and its file name.
    MissingFileNameSeparator,
    /// An owner or rdata name would exceed the 255 byte limit.
    NameTooLong,
    /// A label of an owner or rdata name exceeds the 63 byte limit.
    NameLabelTooLong,
    /// A label of an owner or rdata name holds an invalid character.
    NameLabelInvalid,
    /// An owner or rdata name is empty.
    NameInvalid,
}

/// The text that describes a format issue.
pub open spec fn spec_issue_message(i: FormatIssue) -> Seq<char> {
    match i {
        FormatIssue::ControlNameNotLetters => "a control directive should only contain letters"@,
        FormatIssue::UnknownControlDirective => "unknown control directive"@,
        FormatIssue::NoOwnerName => "record has no owner name"@,
        FormatIssue::NoClass => "No class"@,
        FormatIssue::MultipleClasses => "File must only contain one class"@,
        FormatIssue::UnknownRRType => "unknown resource record type"@,
        FormatIssue::MissingRRType => "missing resource record type"@,
        FormatIssue::NestedMultiline => "Cannot nest multi-line blocks"@,
        FormatIssue::NotInMultiline => "Not in a multi-line block"@,
        FormatIssue::InvalidNumber => "Invalid number"@,
        FormatIssue::InvalidIpPart => "Invalid part of IP address"@,
        FormatIssue::InvalidIpFormat => "Invalid IP address format"@,
        FormatIssue::MissingFileNameSeparator => "expected whitespace separating the file name"@,
        FormatIssue::NameTooLong => "name exceeds the 255 byte limit"@,
        FormatIssue::NameLabelTooLong => "name label exceeds the 63 byte limit"@,
        FormatIssue::NameLabelInvalid => "name label is invalid"@,
        FormatIssue::NameInvalid => "the name is invalid"@,
    }
}

impl FormatIssue {
    /// A short human-readable description of the issue.
    pub fn message(&self) -> (r: &'static str)
        ensures
            r@ == spec_issue_message(*self),
    {
        match self {
            FormatIssue::ControlNameNotLetters => "a control directive should only contain letters",
            FormatIssue::UnknownControlDirective => "unknown control directive",
            FormatIssue::NoOwnerName => "record has no owner name",
            FormatIssue::NoClass => "No class",
            FormatIssue::MultipleClasses => "File must only contain one class",
            FormatIssue::UnknownRRType => "unknown resource record type",
            FormatIssue::MissingRRType => "missing resource record type",
            FormatIssue::NestedMultiline => "Cannot nest multi-line blocks",
            FormatIssue::NotInMultiline => "Not in a multi-line block",
            FormatIssue::InvalidNumber => "Invalid number",
            FormatIssue::InvalidIpPart => "Invalid part of IP address",
            FormatIssue::InvalidIpFormat => "Invalid IP address format",
            FormatIssue::MissingFileNameSeparator => "expected whitespace separating the file name",
            FormatIssue::NameTooLong => "name exceeds the 255 byte limit",
            FormatIssue::NameLabelTooLong => "name label exceeds the 63 byte limit",
            FormatIssue::NameLabelInvalid => "name label is invalid",
            FormatIssue::NameInvalid => "the name is invalid",
        }
    }
}

/// Every failure the library reports.
///
/// Offsets in the name errors count bytes from the start of the name being
/// parsed; lengths are in bytes.
#[derive(Debug, Clone, PartialEq, Eq, Structural)]
pub enum RDNSError {
    /// The encoded name would exceed the 255 byte limit; carries the
    /// offending length.
    NameTooLong(usize),
    /// A single label exceeds the 63 byte limit; carries the label length.
    NameLabelTooLong(usize),
    /// A label breaks the letter / letter-digit-hyphen rules; carries the
    /// offset of the offending byte.
    NameLabelInvalid(usize),
    /// The name is empty.
    NameInvalid,
    /// The resource record is invalid.
    ResourceRecordInvalid,
    /// The master file breaks the textual format at the given position.
    MasterFileFormatError(FormatIssue, LineCharPos),
}

/// The text that describes an error.
pub open spec fn spec_error_message(e: RDNSError) -> Seq<char> {
    match e {
        RDNSError::NameTooLong(_) => "name exceeds the 255 byte limit"@,
        RDNSError::NameLabelTooLong(_) => "name label exceeds the 63 byte limit"@,
        RDNSError::NameLabelInvalid(_) => "name label is invalid"@,
        RDNSError::NameInvalid => "the name is invalid"@,
        RDNSError::ResourceRecordInvalid => "the resource record is invalid"@,
        RDNSError::MasterFileFormatError(issue, _) => spec_issue_message(issue),
    }
}

impl RDNSError {
    /// A short human-readable description of the error.
    pub fn message(&self) -> (r: &'static str)
        ensures
            r@ == spec_error_message(*self),
    {
        match self {
            RDNSError::NameTooLong(_) => "name exceeds the 255 byte limit",
            RDNSError::NameLabelTooLong(_) => "name label exceeds the 63 byte limit",
            RDNSError::NameLabelInvalid(_) => "name label is invalid",
            RDNSError::NameInvalid => "the name is invalid",
            RDNSError::ResourceRecordInvalid => "the resource record is invalid",
            RDNSError::MasterFileFormatError(issue, _) => issue.message(),
        }
    }
}

/// The format issue that stands for a name error, used when a name fails to
/// parse in the middle of a master file.
pub open spec fn spec_name_issue(e: RDNSError) -> FormatIssue {
    match e {
        RDNSError::NameTooLong(_) => FormatIssue::NameTooLong,
        RDNSError::NameLabelTooLong(_) => FormatIssue::NameLabelTooLong,
        RDNSError::NameLabelInvalid(_) => FormatIssue::NameLabelInvalid,
        _ => FormatIssue::NameInvalid,
    }
}

/// Map a name error to the format issue that stands for it.
pub fn name_issue(e: &RDNSError) -> (r: FormatIssue)
    ensures
        r == spec_name_issue(*e),
{
    match e {
        RDNSError::NameTooLong(_) => FormatIssue::NameTooLong,
        RDNSError::NameLabelTooLong(_) => FormatIssue::NameLabelTooLong,
        RDNSError::NameLabelInvalid(_) => FormatIssue::NameLabelInvalid,
        _ => FormatIssue::NameInvalid,
    }
}

} // verus!
