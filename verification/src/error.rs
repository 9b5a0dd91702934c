//! The error taxonomy: what the paste parser rejects, and what the byte and
//! text transforms reject.
use vstd::prelude::*;



verus! {

/// The mathematical shape of a parse error: the variant plus the offending
/// text it carries.
pub ghost enum ParseErrorView {
    EmptyInput,
    EmptyBlock,
    MissingName { block: Seq<char> },
    MalformedTvString { line: Seq<char> },
    MalformedLine { line: Seq<char> },
}

/// Why a paste could not be parsed.
#[derive(Debug, Clone)]
pub enum ParseError {
    /// The whole input was blank.
    EmptyInput,
    /// A block held no content lines.
    EmptyBlock,
    /// A block's header was malformed, or its name stayed empty.
    MissingName { block: String },
    /// An EV or IV token was not in "value abbreviation" form.
    MalformedTvString { line: String },
    /// A move line was a bare dash.
    MalformedLine { line: String },
}

impl View for ParseError {
    type V = ParseErrorView;

    open spec fn view(&self) -> ParseErrorView {
        match self {
            ParseError::EmptyInput => ParseErrorView::EmptyInput,
            ParseError::EmptyBlock => ParseErrorView::EmptyBlock,
            ParseError::MissingName { block } => (ParseErrorView::MissingName { block: block@ }),
            ParseError::MalformedTvString { line } => (ParseErrorView::MalformedTvString {
                line: line@,
            }),
            ParseError::MalformedLine { line } => (ParseErrorView::MalformedLine { line: line@ }),
        }
    }
}

/// The human-readable account of a parse error.
pub open spec fn parse_error_message(e: ParseErrorView) -> Seq<char> {
    match e {
        ParseErrorView::EmptyInput => "Input paste was empty."@,
        ParseErrorView::EmptyBlock => "Found an empty block."@,
        ParseErrorView::MissingName { block } => "Could not find a name in this block: \n"@ + block
            + "\n"@,
        ParseErrorView::MalformedTvString { line } => "Malformed EV/IV string "@ + line,
        ParseErrorView::MalformedLine { line } => "Unrecognized or malformed line: '"@ + line
            + "'"@,
    }
}

impl ParseError {
    /// The human-readable account of the error.
    pub fn message(&self) -> (r: String)
        ensures
            r@ == parse_error_message(self@),
    {
        match self {
            ParseError::EmptyInput => {
                let mut s = String::new();
                s.append("Input paste was empty.");
                proof {
                    assert(s@ =~= parse_error_message(self@));
                }
                s
            },
            ParseError::EmptyBlock => {
                let mut s = String::new();
                s.append("Found an empty block.");
                proof {
                    assert(s@ =~= parse_error_message(self@));
                }
                s
            },
            ParseError::MissingName { block } => {
                let mut s = String::new();
                s.append("Could not find a name in this block: \n");
                s.append(block.as_str());
                s.append("\n");
                proof {
                    assert(s@ =~= parse_error_message(self@));
                }
                s
            },
            ParseError::MalformedTvString { line } => {
                let mut s = String::new();
                s.append("Malformed EV/IV string ");
                s.append(line.as_str());
                proof {
                    assert(s@ =~= parse_error_message(self@));
                }
                s
            },
            ParseError::MalformedLine { line } => {
                let mut s = String::new();
                s.append("Unrecognized or malformed line: '");
                s.append(line.as_str());
                s.append("'");
                proof {
                    assert(s@ =~= parse_error_message(self@));
                }
                s
            },
        }
    }
}

/// Why a packed byte or text payload could not be turned back into paste
/// text.
#[derive(Debug, Clone, Copy, PartialEq, Eq, Structural)]
pub enum ConvertError {
    /// The byte payload is not a whole number of packed records.
    InvalidLength,
    /// An unpacked field indexes past the end of its vocabulary table.
    CodeOutOfRange,
    /// A line is not valid hexadecimal text.
    HexDecode,
    /// A line is not valid base64 text.
    Base64Decode,
}

/// The human-readable account of a conversion error.
pub open spec fn convert_error_message(e: ConvertError) -> Seq<char> {
    match e {
        ConvertError::InvalidLength => "Invalid input length."@,
        ConvertError::CodeOutOfRange => "A packed code lies outside its table."@,
        ConvertError::HexDecode => "Hex decode error."@,
        ConvertError::Base64Decode => "Base64 decode error."@,
    }
}

impl ConvertError {
    /// The human-readable account of the error.
    pub fn message(&self) -> (r: String)
        ensures
            r@ == convert_error_message(*self),
    {
        let mut s = String::new();
        match self {
            ConvertError::InvalidLength => {
                s.append("Invalid input length.");
            },
            ConvertError::CodeOutOfRange => {
                s.append("A packed code lies outside its table.");
            },
            ConvertError::HexDecode => {
                s.append("Hex decode error.");
            },
            ConvertError::Base64Decode => {
                s.append("Base64 decode error.");
            },
        }
        s
    }
}

} // verus!
