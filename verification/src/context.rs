use vstd::prelude::*;

verus! {

/// The scope that the user last selected, kept from one run to the next.
/// The empty name stands for the global context, in which no scope is
/// selected.
#[derive(Debug)]
pub struct Context {
    /// The name of the active scope.
    pub current_scope: String,
}

impl View for Context {
    type V = Seq<char>;

    open spec fn view(&self) -> Seq<char> {
        self.current_scope@
    }
}

impl Default for Context {
    fn default() -> (context: Context)
        ensures
            context@ == Seq::<char>::empty(),
    {
        Context { current_scope: String::new() }
    }
}

impl Context {
    /// The name of the active scope.
    pub fn scope(&self) -> (name: &str)
        ensures
            name@ == self@,
    {
        self.current_scope.as_str()
    }

    /// The name of the active scope, by value.
    pub fn into_scope(self) -> (name: String)
        ensures
            name@ == self@,
    {
        self.current_scope
    }

    /// Selects `scope`, or the global context where `scope` is `None`.
    pub fn change_scope(self, scope: Option<String>) -> (context: Context)
        ensures
            context@ == match scope {
                Some(name) => name@,
                None => Seq::<char>::empty(),
            },
    {
        match scope {
            Some(name) => Context { current_scope: name },
            None => Context { current_scope: String::new() },
        }
    }

    /// Whether no scope is selected.
    pub fn is_global(&self) -> (global: bool)
        ensures
            global == (self@.len() == 0),
    {
        self.current_scope.as_str().is_empty()
    }
}

} // verus!
