//! The error taxonomy and the messages shown for each error.
use vstd::prelude::*;
use vstd::string::StringExecFns;

verus! {

/// The kind of a failed filesystem operation, as far as messages need it.
#[derive(Clone, Copy, Debug, PartialEq, Eq, Structural)]
pub enum IoErrorKind {
    PermissionDenied,
    Other,
}

/// Any failure of the library.
pub enum FinkError {
    Prompt(PromptError),
    Storage(StorageError),
    External(ExternalError),
    Validation(ValidationError),
}

/// Failures about prompts as named things.
pub enum PromptError {
    NotFound(String),
    AlreadyExists(String),
    InvalidFormat(String),
}

/// Failures of the prompt store.
pub enum StorageError {
    Io(IoErrorKind, String),
    ParseError(String),
    InvalidPath(String),
}

/// Failures of the clipboard and of the editor.
pub enum ExternalError {
    ClipboardError(String),
    EditorError(String),
}

/// Input that a dialog or command refuses.
pub enum ValidationError {
    InvalidInput(String, String),
    MissingRequired(String),
}

/// `a` followed by `b`.
fn join(a: &str, b: &str) -> (r: String)
    ensures
        r@ == a@ + b@,
{
    String::from_str(a).concat(b)
}

pub open spec fn prompt_message(e: PromptError) -> Seq<char> {
    match e {
        PromptError::NotFound(n) => "Prompt not found: "@ + n@,
        PromptError::AlreadyExists(n) => "Prompt already exists: "@ + n@,
        PromptError::InvalidFormat(m) => "Invalid prompt format: "@ + m@,
    }
}

pub open spec fn storage_message(e: StorageError) -> Seq<char> {
    match e {
        StorageError::Io(_, m) => "IO error: "@ + m@,
        StorageError::ParseError(m) => "Parse error: "@ + m@,
        StorageError::InvalidPath(p) => "Invalid path: "@ + p@,
    }
}

pub open spec fn external_message(e: ExternalError) -> Seq<char> {
    match e {
        ExternalError::ClipboardError(m) => "Clipboard error: "@ + m@,
        ExternalError::EditorError(m) => "Editor error: "@ + m@,
    }
}

pub open spec fn validation_message(e: ValidationError) -> Seq<char> {
    match e {
        ValidationError::InvalidInput(f, m) => "Invalid input for '"@ + f@ + "': "@ + m@,
        ValidationError::MissingRequired(f) => "Missing required field: "@ + f@,
    }
}

/// The plain text of an error.
pub open spec fn error_message(e: FinkError) -> Seq<char> {
    match e {
        FinkError::Prompt(p) => prompt_message(p),
        FinkError::Storage(s) => storage_message(s),
        FinkError::External(x) => external_message(x),
        FinkError::Validation(v) => validation_message(v),
    }
}

/// The text shown to a user: advice for a missing or duplicate prompt and
/// for a permission failure, the plain text otherwise.
pub open spec fn user_text(e: FinkError) -> Seq<char> {
    match e {
        FinkError::Prompt(PromptError::NotFound(n)) => "Could not find prompt '"@ + n@
            + "'. Try:\n  - Check the prompt name\n  - Run 'jkms list' to see available prompts\n  - Create it with 'jkms create "@
            + n@ + "'"@,
        FinkError::Prompt(PromptError::AlreadyExists(n)) => "Prompt '"@ + n@
            + "' already exists. Try:\n  - Use a different name\n  - Edit the existing prompt with 'jkms edit "@
            + n@ + "'"@,
        FinkError::Storage(StorageError::Io(IoErrorKind::PermissionDenied, _)) =>
            "Permission denied. Check file permissions or run with appropriate privileges."@,
        _ => error_message(e),
    }
}

impl PromptError {
    pub fn message(&self) -> (r: String)
        ensures
            r@ == prompt_message(*self),
    {
        match self {
            PromptError::NotFound(n) => join("Prompt not found: ", n.as_str()),
            PromptError::AlreadyExists(n) => join("Prompt already exists: ", n.as_str()),
            PromptError::InvalidFormat(m) => join("Invalid prompt format: ", m.as_str()),
        }
    }
}

impl StorageError {
    pub fn message(&self) -> (r: String)
        ensures
            r@ == storage_message(*self),
    {
        match self {
            StorageError::Io(_, m) => join("IO error: ", m.as_str()),
            StorageError::ParseError(m) => join("Parse error: ", m.as_str()),
            StorageError::InvalidPath(p) => join("Invalid path: ", p.as_str()),
        }
    }
}

impl ExternalError {
    pub fn message(&self) -> (r: String)
        ensures
            r@ == external_message(*self),
    {
        match self {
            ExternalError::ClipboardError(m) => join("Clipboard error: ", m.as_str()),
            ExternalError::EditorError(m) => join("Editor error: ", m.as_str()),
        }
    }
}

impl ValidationError {
    pub fn message(&self) -> (r: String)
        ensures
            r@ == validation_message(*self),
    {
        match self {
            ValidationError::InvalidInput(f, m) => {
                let a = join("Invalid input for '", f.as_str());
                let b = join(a.as_str(), "': ");
                join(b.as_str(), m.as_str())
            },
            ValidationError::MissingRequired(f) => join("Missing required field: ", f.as_str()),
        }
    }
}

impl FinkError {
    /// The plain text of the error.
    pub fn message(&self) -> (r: String)
        ensures
            r@ == error_message(*self),
    {
        match self {
            FinkError::Prompt(p) => p.message(),
            FinkError::Storage(s) => s.message(),
            FinkError::External(x) => x.message(),
            FinkError::Validation(v) => v.message(),
        }
    }

    /// The text to show a user, with advice where there is some.
    pub fn user_message(&self) -> (r: String)
        ensures
            r@ == user_text(*self),
    {
        match self {
            FinkError::Prompt(PromptError::NotFound(n)) => {
                let a = join("Could not find prompt '", n.as_str());
                let b = join(
                    a.as_str(),
                    "'. Try:\n  - Check the prompt name\n  - Run 'jkms list' to see available prompts\n  - Create it with 'jkms create ",
                );
                let c = join(b.as_str(), n.as_str());
                join(c.as_str(), "'")
            },
            FinkError::Prompt(PromptError::AlreadyExists(n)) => {
                let a = join("Prompt '", n.as_str());
                let b = join(
                    a.as_str(),
                    "' already exists. Try:\n  - Use a different name\n  - Edit the existing prompt with 'jkms edit ",
                );
                let c = join(b.as_str(), n.as_str());
                join(c.as_str(), "'")
            },
            FinkError::Storage(StorageError::Io(IoErrorKind::PermissionDenied, _)) => String::from_str(
                "Permission denied. Check file permissions or run with appropriate privileges.",
            ),
            _ => self.message(),
        }
    }

    /// A missing or duplicate prompt, or refused input.
    pub open spec fn is_recoverable_spec(&self) -> bool {
        self matches FinkError::Prompt(PromptError::NotFound(_)) || self matches FinkError::Prompt(
            PromptError::AlreadyExists(_),
        ) || self matches FinkError::Validation(_)
    }

    /// Whether the user can carry on after this error: a missing or
    /// duplicate prompt, or refused input.
    pub fn is_recoverable(&self) -> (r: bool)
        ensures
            r == self.is_recoverable_spec(),
    {
        match self {
            FinkError::Prompt(PromptError::NotFound(_)) => true,
            FinkError::Prompt(PromptError::AlreadyExists(_)) => true,
            FinkError::Validation(_) => true,
            _ => false,
        }
    }
}

} // verus!
