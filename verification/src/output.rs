use crate::config::{Scope, ScopedServer, ServerEntry};
use indexmap::IndexMap;
use vstd::prelude::*;
use vstd::string::StringExecFns;

verus! {

/// What a listing shows.
#[derive(Debug)]
pub enum LsResult {
    /// Scopes with their servers, and the global servers.
    All(IndexMap<String, ServerEntry>),
    /// The scopes alone, after the global defaults where there are any.
    AllScopes(Option<Scope>, IndexMap<String, Scope>),
    /// One scope, by its name, with its servers.
    Scope(String, IndexMap<String, ScopedServer>),
}

/// What came of testing the configuration file: its path where it could be
/// read, else the reason why it could not.
#[derive(Debug)]
pub struct TestResult(pub Result<String, String>);

impl From<Result<String, String>> for TestResult {
    fn from(outcome: Result<String, String>) -> (result: TestResult) {
        TestResult(outcome)
    }
}

impl vstd::std_specs::convert::FromSpecImpl<Result<String, String>> for TestResult {
    open spec fn obeys_from_spec() -> bool {
        true
    }

    open spec fn from_spec(outcome: Result<String, String>) -> TestResult {
        TestResult(outcome)
    }
}

impl TestResult {
    /// What is printed where the file at `path` is in order.
    pub open spec fn ok_message(path: Seq<char>) -> Seq<char> {
        "The configuration file "@ + path + " syntax is ok"@
    }

    /// The line that tells the user what came of the test.
    pub fn message(&self) -> (text: String)
        ensures
            text@ == (match self.0 {
                Ok(path) => TestResult::ok_message(path@),
                Err(reason) => reason@,
            }),
    {
        match &self.0 {
            Ok(path) => {
                let mut text = "The configuration file ".to_owned();
                text.append(path.as_str());
                text.append(" syntax is ok");
                text
            },
            Err(reason) => reason.clone(),
        }
    }
}

/// What a command has to show.
#[derive(Debug)]
pub enum OutputData {
    /// A listing.
    LsCmd(LsResult),
    /// The outcome of a test of the configuration file.
    TestCmd(TestResult),
    /// Nothing.
    Nothing,
}

} // verus!
