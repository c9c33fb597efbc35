//! A template: a local directory holding the definition file and the tree
//! to instantiate.  Obtaining that directory from elsewhere (say, by
//! cloning a repository) is the caller's business; the engine only needs
//! to know where it lies.

use vstd::prelude::*;

verus! {

/// A template rooted at a local directory.
#[derive(Debug)]
pub struct Template {
    /// Local path to the template folder.
    path: String,
}

impl Template {
    /// Where the template lies.
    pub closed spec fn location(&self) -> Seq<char> {
        self.path@
    }

    /// A template rooted at the given local path.
    pub fn from_local(path: &String) -> (t: Template)
        ensures
            t.location() == path@,
    {
        Template { path: path.clone() }
    }

    /// The root directory of the template tree.
    pub fn root(&self) -> (r: &String)
        ensures
            r@ == self.location(),
    {
        &self.path
    }
}

impl PartialEq for Template {
    fn eq(&self, other: &Template) -> (r: bool) {
        self.path == other.path
    }
}

impl vstd::std_specs::cmp::PartialEqSpecImpl for Template {
    open spec fn obeys_eq_spec() -> bool {
        true
    }

    open spec fn eq_spec(&self, other: &Template) -> bool {
        self.location() == other.location()
    }
}

} // verus!
