use vstd::prelude::*;
use vstd::string::StringExecFns;

verus! {

/// The errors of the command-not-found handler.
#[derive(Debug, Clone, PartialEq, Eq)]
pub enum ErrorKind {
    /// No installable package provides the command.
    CommandNotFound(String),
    /// A file pattern could not be compiled (the pattern error's text).
    PatternError(String),
    /// A path matched by a pattern could not be read (the error's text).
    GlobError(String),
    /// An input/output error (its text).
    IOError(String),
    /// A value that must not be NULL was NULL, or could not be passed on
    /// as a C string.
    IsNULL(String),
    /// As `IsNULL`, for a named object.
    IsNULLNamed(String, String),
    /// A solv file could not be added to the pool.
    RepoAddSolv(String),
    /// Any other error, by its text.
    String(String),
}

/// The text of an error; `not_found` is the (translated) phrase
/// "command not found".
pub open spec fn message_of(e: ErrorKind, not_found: Seq<char>) -> Seq<char> {
    match e {
        ErrorKind::CommandNotFound(term) => " "@ + term@ + ": "@ + not_found,
        ErrorKind::PatternError(msg) => msg@,
        ErrorKind::GlobError(msg) => msg@,
        ErrorKind::IOError(msg) => msg@,
        ErrorKind::IsNULL(label) => label@ + " is NULL"@,
        ErrorKind::IsNULLNamed(label, name) => label@ + " "@ + name@ + " is NULL"@,
        ErrorKind::RepoAddSolv(file) => "repo_add_solv failed on "@ + file@,
        ErrorKind::String(msg) => msg@,
    }
}

impl ErrorKind {
    /// The text shown for this error; `not_found` is the phrase "command
    /// not found" in the user's language.
    pub fn message(&self, not_found: &str) -> (text: String)
        ensures
            text@ == message_of(*self, not_found@),
    {
        match self {
            ErrorKind::CommandNotFound(term) => {
                let mut t = " ".to_owned();
                t.append(term.as_str());
                t.append(": ");
                t.append(not_found);
                t
            },
            ErrorKind::PatternError(msg) => msg.clone(),
            ErrorKind::GlobError(msg) => msg.clone(),
            ErrorKind::IOError(msg) => msg.clone(),
            ErrorKind::IsNULL(label) => {
                let mut t = label.clone();
                t.append(" is NULL");
                t
            },
            ErrorKind::IsNULLNamed(label, name) => {
                let mut t = label.clone();
                t.append(" ");
                t.append(name.as_str());
                t.append(" is NULL");
                t
            },
            ErrorKind::RepoAddSolv(file) => {
                let mut t = "repo_add_solv failed on ".to_owned();
                t.append(file.as_str());
                t
            },
            ErrorKind::String(msg) => msg.clone(),
        }
    }
}

} // verus!
