use vstd::prelude::*;
use vstd::string::StringExecFns;

verus! {

/// `regex::Error`: why a pattern does not compile. It is carried through
/// and never looked into.
#[verifier::external_type_specification]
#[verifier::external_body]
pub struct ExRegexError(regex::Error);

/// What a command on the configuration can fail with. Each variant holds the
/// name that it is about.
#[derive(Debug)]
pub enum CliError {
    /// No server of that name where one was looked for.
    ServerNotFound(String),
    /// No scope of that name.
    ScopeNotFound(String),
    /// A server of that name is there already.
    ServerExists(String),
    /// A scope of that name is there already.
    ScopeExists(String),
}

/// Why the parameters of a connection could not be made out.
#[derive(Debug)]
pub enum ConnectionError {
    /// Neither the input, nor the configuration, nor the environment names a
    /// user.
    UserRequired,
    /// A configured name is not a regular expression.
    Regex(regex::Error),
    /// A configured path is neither absolute nor under the home directory.
    RelativePath(String),
}

/// Any failure of the library.
#[derive(Debug)]
pub enum Failure {
    Cli(CliError),
    Connection(ConnectionError),
}

/// What a [`CliError`] holds, as mathematical values.
pub enum CliErrorView {
    ServerNotFound(Seq<char>),
    ScopeNotFound(Seq<char>),
    ServerExists(Seq<char>),
    ScopeExists(Seq<char>),
}

impl View for CliError {
    type V = CliErrorView;

    open spec fn view(&self) -> CliErrorView {
        match self {
            CliError::ServerNotFound(name) => CliErrorView::ServerNotFound(name@),
            CliError::ScopeNotFound(name) => CliErrorView::ScopeNotFound(name@),
            CliError::ServerExists(name) => CliErrorView::ServerExists(name@),
            CliError::ScopeExists(name) => CliErrorView::ScopeExists(name@),
        }
    }
}

impl CliError {
    /// The name that the error is about.
    pub fn name(&self) -> (name: &str)
        ensures
            name@ == self.spec_name(),
    {
        match self {
            CliError::ServerNotFound(name) => name.as_str(),
            CliError::ScopeNotFound(name) => name.as_str(),
            CliError::ServerExists(name) => name.as_str(),
            CliError::ScopeExists(name) => name.as_str(),
        }
    }

    /// The name that the error is about.
    pub open spec fn spec_name(&self) -> Seq<char> {
        match self {
            CliError::ServerNotFound(name) => name@,
            CliError::ScopeNotFound(name) => name@,
            CliError::ServerExists(name) => name@,
            CliError::ScopeExists(name) => name@,
        }
    }
}

impl CliErrorView {
    /// The line that tells the user of the error.
    pub open spec fn message(self) -> Seq<char> {
        match self {
            CliErrorView::ServerNotFound(name) => "Server '"@ + name + "' not found"@,
            CliErrorView::ScopeNotFound(name) => "Scope '"@ + name + "' not found"@,
            CliErrorView::ServerExists(name) => "Server '"@ + name + "' already exists"@,
            CliErrorView::ScopeExists(name) => "Scope '"@ + name + "' already exists"@,
        }
    }
}

impl CliError {
    /// The line that tells the user of the error.
    pub fn message(&self) -> (text: String)
        ensures
            text@ == self@.message(),
    {
        let (head, name, tail) = match self {
            CliError::ServerNotFound(name) => ("Server '", name, "' not found"),
            CliError::ScopeNotFound(name) => ("Scope '", name, "' not found"),
            CliError::ServerExists(name) => ("Server '", name, "' already exists"),
            CliError::ScopeExists(name) => ("Scope '", name, "' already exists"),
        };
        let mut text = head.to_owned();
        text.append(name.as_str());
        text.append(tail);
        text
    }
}

} // verus!
