//! A block of preformatted text, as used for the two output panes.

use vstd::prelude::*;

verus! {

/// Preformatted text.
pub struct Pre {
    content: String,
}

impl View for Pre {
    type V = Seq<char>;

    closed spec fn view(&self) -> Seq<char> {
        self.content@
    }
}

impl Pre {
    /// A block that shows `content`.
    pub fn new(content: &str) -> (pre: Pre)
        ensures
            pre@ == content@,
    {
        Pre { content: content.to_owned() }
    }

    /// The text of the block's single text child.
    pub fn content(&self) -> (content: &str)
        ensures
            content@ == self@,
    {
        self.content.as_str()
    }
}

} // verus!
