use vstd::prelude::*;

verus! {

/// A titled list of options shown to the user. Displaying it and
/// reading the chosen option are I/O and live with the caller.
pub struct Menu {
    pub title: String,
    pub options: Vec<String>,
}

impl Menu {
    pub fn new(title: String, options: Vec<String>) -> (m: Menu)
        ensures
            m.title == title,
            m.options == options,
    {
        Menu { title, options }
    }
}

} // verus!
