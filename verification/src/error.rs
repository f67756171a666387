use vstd::prelude::*;
use vstd::string::StringExecFns;

verus! {

/// The mathematical shape of an [`OperationError`]: each variant together with
/// the text it carries.
pub enum ErrorView {
    Unknown(Seq<char>),
    CsvNoHeaders,
    CsvNoDataRows,
    CsvSyntax(Seq<char>),
}

/// A typed failure raised while parsing an operation name or executing an
/// operation. Every recoverable failure of the library is one of these; the
/// pipeline reports it and goes on.
#[derive(Debug, PartialEq, Eq)]
pub enum OperationError {
    /// The given token names no operation; carries the offending token verbatim.
    UnknownOperation(String),
    /// CSV input whose header row has no fields.
    CsvNoHeaders,
    /// CSV input with a header row but no data rows.
    CsvNoDataRows,
    /// The CSV parser rejected the input; carries its message verbatim.
    CsvSyntax(String),
}

impl View for OperationError {
    type V = ErrorView;

    open spec fn view(&self) -> ErrorView {
        match self {
            OperationError::UnknownOperation(s) => ErrorView::Unknown(s@),
            OperationError::CsvNoHeaders => ErrorView::CsvNoHeaders,
            OperationError::CsvNoDataRows => ErrorView::CsvNoDataRows,
            OperationError::CsvSyntax(s) => ErrorView::CsvSyntax(s@),
        }
    }
}

/// The message text of an error, exactly as [`OperationError::message`] builds it.
pub open spec fn spec_message(e: ErrorView) -> Seq<char> {
    match e {
        ErrorView::Unknown(name) => "Invalid operation: "@ + name,
        ErrorView::CsvNoHeaders => "CSV has no headers"@,
        ErrorView::CsvNoDataRows => "CSV has no data rows"@,
        ErrorView::CsvSyntax(m) => m,
    }
}

/// The message of an unknown-operation error carries the offending name
/// verbatim: it is exactly the message's tail.
pub proof fn lemma_unknown_message_contains_name(name: Seq<char>)
    ensures
        spec_message(ErrorView::Unknown(name)).len() >= name.len(),
        spec_message(ErrorView::Unknown(name)).subrange(
            spec_message(ErrorView::Unknown(name)).len() - name.len(),
            spec_message(ErrorView::Unknown(name)).len() as int,
        ) == name,
{
    let m = spec_message(ErrorView::Unknown(name));
    assert(m.subrange(m.len() - name.len(), m.len() as int) =~= name);
}

impl OperationError {
    /// The human-readable message of this error. For an unknown operation the
    /// offending token stands in the message verbatim.
    pub fn message(&self) -> (r: String)
        ensures
            r@ == spec_message(self@),
    {
        match self {
            OperationError::UnknownOperation(name) => {
                let mut m = String::from_str("Invalid operation: ");
                m.append(name.as_str());
                m
            },
            OperationError::CsvNoHeaders => String::from_str("CSV has no headers"),
            OperationError::CsvNoDataRows => String::from_str("CSV has no data rows"),
            OperationError::CsvSyntax(m) => m.clone(),
        }
    }
}

} // verus!
