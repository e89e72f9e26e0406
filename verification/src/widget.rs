//! The playground's own widgets, as plain data: what each one shows and which
//! message each input event publishes. Turning them into nodes of the page is
//! left to the embedding program.

pub mod link;
pub mod pre;
pub mod text_area;
