//! An anchor around another element, as used for the permalink.

use vstd::prelude::*;

verus! {

#[verifier::external_type_specification]
#[verifier::external_body]
#[verifier::reject_recursive_types(M)]
pub struct ExElement<'a, M>(iced_web::Element<'a, M>);

/// An anchor: the element it wraps and the address it points to.
#[verifier::reject_recursive_types(Message)]
pub struct Link<'a, Message> {
    content: iced_web::Element<'a, Message>,
    href: String,
}

impl<'a, Message> Link<'a, Message> {
    /// The wrapped element.
    pub closed spec fn inner(&self) -> iced_web::Element<'a, Message> {
        self.content
    }

    /// The value of the anchor's `href` attribute.
    pub closed spec fn target(&self) -> Seq<char> {
        self.href@
    }

    /// An anchor around `content` that points to `href`.
    pub fn new(content: iced_web::Element<'a, Message>, href: &str) -> (link: Self)
        ensures
            link.inner() == content,
            link.target() == href@,
    {
        Link { content, href: href.to_owned() }
    }

    /// The wrapped element, the anchor's only child.
    pub fn content(&self) -> (content: &iced_web::Element<'a, Message>)
        ensures
            *content == self.inner(),
    {
        &self.content
    }

    /// The value of the anchor's `href` attribute.
    pub fn href(&self) -> (href: &str)
        ensures
            href@ == self.target(),
    {
        self.href.as_str()
    }
}

} // verus!
