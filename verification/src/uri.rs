use vstd::prelude::*;

verus! {

/// An immutable wrapper around the textual representation of a URI.
#[derive(Debug)]
pub struct Uri {
    uri: String,
}

impl View for Uri {
    type V = Seq<char>;

    closed spec fn view(&self) -> Seq<char> {
        self.uri@
    }
}

impl Uri {
    /// Wraps the provided string as a URI.
    pub fn new(uri: String) -> (r: Uri)
        ensures
            r@ == uri@,
    {
        Uri { uri }
    }

    /// Returns the string representation of the URI.
    pub fn to_string(&self) -> (r: &String)
        ensures
            r@ == self@,
    {
        &self.uri
    }

    /// Appends a resource path to the URI.
    pub fn append_resource_path(&mut self, path: &str)
        ensures
            final(self)@ == old(self)@ + path@,
    {
        self.uri.append(path);
    }
}

impl Clone for Uri {
    fn clone(&self) -> (r: Self)
        ensures
            r@ == self@,
    {
        Uri { uri: self.uri.clone() }
    }
}

impl PartialEq for Uri {
    fn eq(&self, other: &Uri) -> (r: bool)
    {
        self.uri == other.uri
    }
}

impl Eq for Uri {
}

impl vstd::std_specs::cmp::PartialEqSpecImpl for Uri {
    open spec fn obeys_eq_spec() -> bool {
        true
    }

    open spec fn eq_spec(&self, other: &Uri) -> bool {
        self@ == other@
    }
}

} // verus!
