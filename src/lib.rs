//! Restyles an HTML page on its way through an edge service: font links are
//! inserted after each named `meta` element, the content of each `style`
//! element is replaced, and each word of an `h1` heading is wrapped in a
//! `span`. The HTML itself is rewritten by the streaming `lol_html` engine;
//! this crate holds the rules around it, with their contracts.

pub mod words;
pub mod gate;
pub mod page;
