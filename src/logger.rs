use vstd::prelude::*;

verus! {

/// A named source of log lines.
#[derive(Debug, Clone)]
pub struct Logger {
    name: String,
}

impl Logger {
    pub closed spec fn spec_name(&self) -> Seq<char> {
        self.name@
    }

    pub fn new(name: &str) -> (r: Logger)
        ensures
            r.spec_name() == name@,
    {
        Logger { name: name.to_string() }
    }

    pub fn name(&self) -> (r: &str)
        ensures
            r@ == self.spec_name(),
    {
        self.name.as_str()
    }
}

} // verus!
