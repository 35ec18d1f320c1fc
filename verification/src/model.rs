//! Data model of the pipeline: input records, the domain-search response
//! (`LookupResult` with its `EmailEntry` and `Source` children, plus the
//! `Meta` block), the flattened output rows, and the error taxonomy.

use vstd::prelude::*;

verus! {

/// One row of the input table: an organization name and its domain.
#[derive(Debug, Clone, PartialEq, Eq)]
pub struct InputRecord {
    pub name: String,
    pub domain: String,
}

/// Provenance record for where an email address was found. Present in the
/// upstream response, deliberately dropped by the flattening transform.
#[derive(Debug, Clone, PartialEq, Eq)]
pub struct Source {
    pub domain: String,
    pub uri: String,
    pub extracted_on: String,
    pub last_seen_on: String,
    pub still_on_page: bool,
}

/// One discovered email address together with its metadata.
#[derive(Debug, Clone, PartialEq, Eq)]
pub struct EmailEntry {
    pub value: String,
    pub kind: String,
    pub confidence: usize,
    pub sources: Vec<Source>,
    pub first_name: Option<String>,
    pub last_name: Option<String>,
    pub position: Option<String>,
    pub seniority: Option<String>,
    pub department: Option<String>,
    pub linkedin: Option<String>,
    pub twitter: Option<String>,
    pub phone_number: Option<String>,
}

/// The domain-level payload of one domain-search response.
#[derive(Debug, Clone, PartialEq, Eq)]
pub struct LookupResult {
    pub domain: String,
    pub disposable: bool,
    pub webmail: bool,
    pub accept_all: bool,
    pub pattern: Option<String>,
    pub organization: Option<String>,
    pub country: Option<String>,
    pub state: Option<String>,
    pub emails: Vec<EmailEntry>,
}

/// The metadata block of one response, used only for progress reporting.
#[derive(Debug, Clone, PartialEq, Eq)]
pub struct Meta {
    pub results: usize,
    pub limit: usize,
    pub offset: usize,
}

/// One output record: the domain-level fields of a `LookupResult` joined
/// with the fields of one of its `EmailEntry` values. `Source` data does
/// not appear here.
#[derive(Debug, Clone, PartialEq, Eq)]
pub struct FlatRow {
    pub domain: String,
    pub disposable: bool,
    pub webmail: bool,
    pub accept_all: bool,
    pub pattern: Option<String>,
    pub organization: Option<String>,
    pub country: Option<String>,
    pub state: Option<String>,
    pub value: String,
    pub kind: String,
    pub confidence: usize,
    pub first_name: Option<String>,
    pub last_name: Option<String>,
    pub position: Option<String>,
    pub seniority: Option<String>,
    pub department: Option<String>,
    pub linkedin: Option<String>,
    pub twitter: Option<String>,
    pub phone_number: Option<String>,
}

/// The mathematical value of a `Source`.
pub struct SourceView {
    pub domain: Seq<char>,
    pub uri: Seq<char>,
    pub extracted_on: Seq<char>,
    pub last_seen_on: Seq<char>,
    pub still_on_page: bool,
}

impl View for Source {
    type V = SourceView;

    open spec fn view(&self) -> SourceView {
        SourceView {
            domain: self.domain@,
            uri: self.uri@,
            extracted_on: self.extracted_on@,
            last_seen_on: self.last_seen_on@,
            still_on_page: self.still_on_page,
        }
    }
}

/// The mathematical value of an `EmailEntry`.
pub struct EmailEntryView {
    pub value: Seq<char>,
    pub kind: Seq<char>,
    pub confidence: int,
    pub sources: Seq<SourceView>,
    pub first_name: Option<Seq<char>>,
    pub last_name: Option<Seq<char>>,
    pub position: Option<Seq<char>>,
    pub seniority: Option<Seq<char>>,
    pub department: Option<Seq<char>>,
    pub linkedin: Option<Seq<char>>,
    pub twitter: Option<Seq<char>>,
    pub phone_number: Option<Seq<char>>,
}

impl View for EmailEntry {
    type V = EmailEntryView;

    open spec fn view(&self) -> EmailEntryView {
        EmailEntryView {
            value: self.value@,
            kind: self.kind@,
            confidence: self.confidence as int,
            sources: Seq::new(self.sources@.len(), |i: int| self.sources@[i]@),
            first_name: opt_chars(self.first_name),
            last_name: opt_chars(self.last_name),
            position: opt_chars(self.position),
            seniority: opt_chars(self.seniority),
            department: opt_chars(self.department),
            linkedin: opt_chars(self.linkedin),
            twitter: opt_chars(self.twitter),
            phone_number: opt_chars(self.phone_number),
        }
    }
}

/// The mathematical value of a `LookupResult`.
pub struct LookupResultView {
    pub domain: Seq<char>,
    pub disposable: bool,
    pub webmail: bool,
    pub accept_all: bool,
    pub pattern: Option<Seq<char>>,
    pub organization: Option<Seq<char>>,
    pub country: Option<Seq<char>>,
    pub state: Option<Seq<char>>,
    pub emails: Seq<EmailEntryView>,
}

impl View for LookupResult {
    type V = LookupResultView;

    open spec fn view(&self) -> LookupResultView {
        LookupResultView {
            domain: self.domain@,
            disposable: self.disposable,
            webmail: self.webmail,
            accept_all: self.accept_all,
            pattern: opt_chars(self.pattern),
            organization: opt_chars(self.organization),
            country: opt_chars(self.country),
            state: opt_chars(self.state),
            emails: Seq::new(self.emails@.len(), |i: int| self.emails@[i]@),
        }
    }
}

/// The mathematical value of a `Meta`.
pub struct MetaView {
    pub results: int,
    pub limit: int,
    pub offset: int,
}

impl View for Meta {
    type V = MetaView;

    open spec fn view(&self) -> MetaView {
        MetaView {
            results: self.results as int,
            limit: self.limit as int,
            offset: self.offset as int,
        }
    }
}

/// The view of an optional text field: the character sequence when present.
pub open spec fn opt_chars(o: Option<String>) -> Option<Seq<char>> {
    match o {
        Option::Some(s) => Option::Some(s@),
        Option::None => Option::None,
    }
}

/// Every fatal condition the pipeline distinguishes. Each aborts the run.
#[derive(Debug, Clone, PartialEq, Eq)]
pub enum PipelineError {
    /// The credential was not supplied to the process.
    CredentialMissing,
    /// The input path could not be opened; carries the system's text.
    InputPath(String),
    /// The output path could not be opened; carries the system's text.
    OutputPath(String),
    /// An input row did not match the expected columns; carries the
    /// one-based index of the offending data row.
    MalformedInput(usize),
    /// The network call itself failed; carries the transport's text.
    Transport(String),
    /// The response body did not decode into a `LookupResult`.
    Schema,
}

/// The operator-facing text of each error.
pub open spec fn error_text(e: PipelineError) -> Seq<char> {
    match e {
        PipelineError::CredentialMissing => "Please set KEY (your hunter.io api key)."@,
        PipelineError::InputPath(m) => "cannot open input: "@ + m@,
        PipelineError::OutputPath(m) => "cannot open output: "@ + m@,
        PipelineError::MalformedInput(row) => "malformed input row "@ + crate::numfmt::dec_rep(
            row as int,
        ),
        PipelineError::Transport(m) => "transport error: "@ + m@,
        PipelineError::Schema => "response did not match the expected schema"@,
    }
}

impl PipelineError {
    /// Renders this error for the operator.
    pub fn message(&self) -> (s: String)
        ensures
            s@ == error_text(*self),
    {
        match self {
            PipelineError::CredentialMissing => String::from_str(
                "Please set KEY (your hunter.io api key).",
            ),
            PipelineError::InputPath(m) => {
                let mut s = String::from_str("cannot open input: ");
                s.append(m.as_str());
                s
            },
            PipelineError::OutputPath(m) => {
                let mut s = String::from_str("cannot open output: ");
                s.append(m.as_str());
                s
            },
            PipelineError::MalformedInput(row) => {
                let mut s = String::from_str("malformed input row ");
                let d = crate::numfmt::dec_string(*row);
                s.append(d.as_str());
                s
            },
            PipelineError::Transport(m) => {
                let mut s = String::from_str("transport error: ");
                s.append(m.as_str());
                s
            },
            PipelineError::Schema => String::from_str(
                "response did not match the expected schema",
            ),
        }
    }
}

/// The operator-facing text of the metadata block.
pub open spec fn meta_text(m: Meta) -> Seq<char> {
    "results: "@ + crate::numfmt::dec_rep(m.results as int) + ", limit: "@
        + crate::numfmt::dec_rep(m.limit as int) + ", offset: "@ + crate::numfmt::dec_rep(
        m.offset as int,
    )
}

impl Meta {
    /// Renders this block for the progress report.
    pub fn describe(&self) -> (s: String)
        ensures
            s@ == meta_text(*self),
    {
        let mut s = String::from_str("results: ");
        let d1 = crate::numfmt::dec_string(self.results);
        s.append(d1.as_str());
        s.append(", limit: ");
        let d2 = crate::numfmt::dec_string(self.limit);
        s.append(d2.as_str());
        s.append(", offset: ");
        let d3 = crate::numfmt::dec_string(self.offset);
        s.append(d3.as_str());
        proof {
            assert(s@ =~= meta_text(*self));
        }
        s
    }
}

/// Clones an optional string, keeping the value exactly.
pub fn clone_opt(o: &Option<String>) -> (r: Option<String>)
    ensures
        r == *o,
{
    match o {
        Option::Some(s) => Option::Some(s.clone()),
        Option::None => Option::None,
    }
}

} // verus!
