//! Reading a description from text: which format a file's extension stands
//! for, which parsers are asked and in which order, and which error their
//! refusals become. The parsers are run by the program around the library,
//! which hands in what each of them made of the text.

use crate::document::Document;
use crate::text::{lowercase, str_eq, str_to_lowercase};
use vstd::prelude::*;

verus! {

/// The serialisation a description is read as.
#[derive(Debug, Clone, Copy, PartialEq, Eq, Structural)]
pub enum Format {
    Json,
    Yaml,
    /// Not known from the file's name: JSON is tried, then YAML.
    Unknown,
}

/// Why a text could not be read as a description.
#[derive(Debug, Clone)]
pub enum ParseError {
    /// The text is no JSON description; with the parser's message.
    Json(String),
    /// The text is no YAML description; with the parser's message.
    Yaml(String),
    /// The text is a description in neither serialisation; with both
    /// parsers' messages.
    Unrecognized { json: String, yaml: String },
}

impl ParseError {
    /// The line that says at which stage reading failed.
    pub open spec fn headline(self) -> Seq<char> {
        match self {
            ParseError::Json(_) => "Failed to parse JSON"@,
            ParseError::Yaml(_) => "Failed to parse YAML"@,
            ParseError::Unrecognized { .. } => "Failed to parse file as JSON or YAML"@,
        }
    }

    /// The failing stage and the parsers' messages in one line.
    pub fn to_string(&self) -> (s: String)
        ensures
            s@ == match *self {
                ParseError::Json(cause) => self.headline() + ": "@ + cause@,
                ParseError::Yaml(cause) => self.headline() + ": "@ + cause@,
                ParseError::Unrecognized { json, yaml } => self.headline() + ": "@ + json@ + "; "@
                    + yaml@,
            },
    {
        match self {
            ParseError::Json(cause) => {
                let mut s = "Failed to parse JSON".to_owned();
                s.append(": ");
                s.append(cause.as_str());
                s
            },
            ParseError::Yaml(cause) => {
                let mut s = "Failed to parse YAML".to_owned();
                s.append(": ");
                s.append(cause.as_str());
                s
            },
            ParseError::Unrecognized { json, yaml } => {
                let mut s = "Failed to parse file as JSON or YAML".to_owned();
                s.append(": ");
                s.append(json.as_str());
                s.append("; ");
                s.append(yaml.as_str());
                s
            },
        }
    }
}

/// The format that a file extension in lower case stands for.
pub open spec fn format_for(extension: Seq<char>) -> Format {
    if extension == "json"@ {
        Format::Json
    } else if extension == "yaml"@ || extension == "yml"@ {
        Format::Yaml
    } else {
        Format::Unknown
    }
}

/// Chooses the format by a file's extension that is already in lower
/// case.
pub fn format_of_lowered(lower: &str) -> (format: Format)
    ensures
        format == format_for(lower@),
{
    if str_eq(lower, "json") {
        Format::Json
    } else if str_eq(lower, "yaml") || str_eq(lower, "yml") {
        Format::Yaml
    } else {
        Format::Unknown
    }
}

/// Chooses the format by a file's extension, whatever its case.
pub fn format_of_extension(extension: &str) -> (format: Format)
    ensures
        format == format_for(lowercase(extension@)),
{
    let lower = str_to_lowercase(extension);
    format_of_lowered(lower.as_str())
}

/// The parsers that a text can be handed to.
#[derive(Debug, Clone, Copy, PartialEq, Eq, Structural)]
pub enum Parser {
    Json,
    Yaml,
}

/// The parsers that are asked for a format, in the order in which they are
/// asked: the format's own, or, for an unknown format, JSON and then YAML.
pub open spec fn parser_order(format: Format) -> Seq<Parser> {
    match format {
        Format::Json => seq![Parser::Json],
        Format::Yaml => seq![Parser::Yaml],
        Format::Unknown => seq![Parser::Json, Parser::Yaml],
    }
}

/// Lists the parsers that are asked for a format, in the order in which
/// they are asked.
pub fn parsers_for(format: Format) -> (order: Vec<Parser>)
    ensures
        order@ == parser_order(format),
{
    let mut order: Vec<Parser> = Vec::new();
    match format {
        Format::Json => {
            order.push(Parser::Json);
        },
        Format::Yaml => {
            order.push(Parser::Yaml);
        },
        Format::Unknown => {
            order.push(Parser::Json);
            order.push(Parser::Yaml);
        },
    }
    assert(order@ =~= parser_order(format));
    order
}

/// The error that the refusals of all parsers of a format become; the
/// messages are those of the parsers in the order in which they were asked.
pub open spec fn refusal_error(format: Format, refusals: Seq<String>) -> ParseError
    recommends
        refusals.len() >= parser_order(format).len(),
{
    match format {
        Format::Json => ParseError::Json(refusals[0]),
        Format::Yaml => ParseError::Yaml(refusals[0]),
        Format::Unknown => ParseError::Unrecognized { json: refusals[0], yaml: refusals[1] },
    }
}

/// How far the reading of a text has come.
#[derive(Debug)]
pub enum Reading {
    /// A parser is to be asked; `refusals` holds the messages of the parsers
    /// that have refused the text so far, in the order in which they were
    /// asked.
    Ask { parser: Parser, refusals: Vec<String> },
    /// A parser has accepted the text as this description.
    Read(Document),
    /// Every parser has refused the text.
    Failed(ParseError),
}

/// What a [`Reading`] holds.
pub enum ReadingView {
    Ask { parser: Parser, refusals: Seq<String> },
    Read(Document),
    Failed(ParseError),
}

impl View for Reading {
    type V = ReadingView;

    open spec fn view(&self) -> ReadingView {
        match *self {
            Reading::Ask { parser, refusals } => ReadingView::Ask { parser, refusals: refusals@ },
            Reading::Read(document) => ReadingView::Read(document),
            Reading::Failed(error) => ReadingView::Failed(error),
        }
    }
}

/// Where a reading stands after the parsers asked so far have refused with
/// the messages `refusals`: the next parser in the order is to be asked, or,
/// when none is left, the reading has failed with the error that carries the
/// messages.
pub open spec fn after_refusals(format: Format, refusals: Seq<String>) -> ReadingView {
    if refusals.len() < parser_order(format).len() {
        ReadingView::Ask { parser: parser_order(format)[refusals.len() as int], refusals }
    } else {
        ReadingView::Failed(refusal_error(format, refusals))
    }
}

/// Where a reading stands after the parser that was asked has answered: a
/// description ends the reading, a refusal is added to the refusals.
pub open spec fn after_outcome(
    format: Format,
    refusals: Seq<String>,
    outcome: Result<Document, String>,
) -> ReadingView {
    match outcome {
        Ok(document) => ReadingView::Read(document),
        Err(message) => after_refusals(format, refusals.push(message)),
    }
}

/// Starts the reading of a text in a format: the first parser of the
/// format's order is to be asked.
pub fn begin(format: Format) -> (reading: Reading)
    ensures
        reading@ == after_refusals(format, Seq::empty()),
{
    let order = parsers_for(format);
    Reading::Ask { parser: order[0], refusals: Vec::new() }
}

/// Carries a reading on with the answer of the parser that was asked last,
/// after those asked before it had refused with `refusals`. The parser's
/// description ends the reading. After its refusal the next parser of the
/// order is to be asked; when none is left the reading has failed, with the
/// format's error and the messages of all refusals.
pub fn proceed(format: Format, refusals: Vec<String>, outcome: Result<Document, String>) -> (reading:
    Reading)
    ensures
        reading@ == after_outcome(format, refusals@, outcome),
{
    match outcome {
        Ok(document) => Reading::Read(document),
        Err(message) => {
            let mut refusals = refusals;
            refusals.push(message);
            let ghost all = refusals@;
            let order = parsers_for(format);
            if refusals.len() < order.len() {
                Reading::Ask { parser: order[refusals.len()], refusals }
            } else {
                let first = refusals.remove(0);
                match format {
                    Format::Json => Reading::Failed(ParseError::Json(first)),
                    Format::Yaml => Reading::Failed(ParseError::Yaml(first)),
                    Format::Unknown => {
                        let second = refusals.remove(0);
                        assert(second == all[1]);
                        Reading::Failed(ParseError::Unrecognized { json: first, yaml: second })
                    },
                }
            }
        },
    }
}

/// In a known format only the format's parser is asked: its description is
/// what is read, and its refusal is the format's error with its message.
pub proof fn lemma_known_format(format: Format, outcome: Result<Document, String>)
    requires
        format != Format::Unknown,
    ensures
        after_refusals(format, Seq::empty()) == (ReadingView::Ask {
            parser: if format == Format::Json {
                Parser::Json
            } else {
                Parser::Yaml
            },
            refusals: Seq::empty(),
        }),
        after_outcome(format, Seq::empty(), outcome) == match outcome {
            Ok(document) => ReadingView::Read(document),
            Err(message) => ReadingView::Failed(
                if format == Format::Json {
                    ParseError::Json(message)
                } else {
                    ParseError::Yaml(message)
                },
            ),
        },
{
    match outcome {
        Ok(_) => {},
        Err(message) => {
            assert(Seq::<String>::empty().push(message)[0] == message);
        },
    }
}

/// In an unknown format JSON is asked first and YAML only after JSON has
/// refused: what is read is JSON's description where JSON accepts the text,
/// else YAML's where YAML does, and else the reading fails with the error
/// that carries both messages.
pub proof fn lemma_unknown_format(
    json: Result<Document, String>,
    yaml: Result<Document, String>,
)
    ensures
        after_refusals(Format::Unknown, Seq::empty()) == (ReadingView::Ask {
            parser: Parser::Json,
            refusals: Seq::empty(),
        }),
        after_outcome(Format::Unknown, Seq::empty(), json) == match json {
            Ok(document) => ReadingView::Read(document),
            Err(message) => ReadingView::Ask { parser: Parser::Yaml, refusals: seq![message] },
        },
        json matches Err(first) ==> after_outcome(Format::Unknown, seq![first], yaml)
            == match yaml {
            Ok(document) => ReadingView::Read(document),
            Err(second) => ReadingView::Failed(
                ParseError::Unrecognized { json: first, yaml: second },
            ),
        },
{
    match json {
        Ok(_) => {},
        Err(first) => {
            assert(Seq::<String>::empty().push(first) =~= seq![first]);
            match yaml {
                Ok(_) => {},
                Err(second) => {
                    let all = seq![first].push(second);
                    assert(all[0] == first && all[1] == second);
                },
            }
        },
    }
}

} // verus!
