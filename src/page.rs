//! The page rewrite: three handlers run by the `lol_html` engine.
use crate::words::heading_fragment_replacement;
use lol_html::html_content::{ContentType, Element, TextChunk};
use lol_html::{rewrite_str, ElementContentHandlers, RewriteStrSettings};
use std::borrow::Cow;
use vstd::prelude::*;

verus! {

/// The elements after which the font links are inserted: each `meta`
/// element that has a `name` attribute.
pub const FONT_LINK_ANCHOR: &'static str = "meta[name]";

/// The elements whose content is replaced by the style sheet.
pub const STYLE_TARGET: &'static str = "style";

/// The elements whose text has its words wrapped in `span` elements.
pub const HEADING_TARGET: &'static str = "h1";

/// The links inserted after the page's named `meta` elements: the fonts
/// that the style sheet uses.
pub const FONT_LINKS: &'static str = "<link rel=\"preconnect\" href=\"https://fonts.googleapis.com\"><link rel=\"stylesheet\" href=\"https://fonts.googleapis.com/css2?family=Roboto+Slab&family=Open+Sans\">";

/// The style sheet that takes the place of the page's own.
pub const STYLE_SHEET: &'static str = "body { font-family: 'Open Sans', sans-serif; margin: 4em auto; max-width: 40em; } h1 { font-family: 'Roboto Slab', serif; } h1 span { display: inline-block; margin-right: 0.3em; }";

/// What `lol_html::rewrite_str` makes of `html` with these handlers, in this
/// order: after each element that `anchor` selects, `links` is inserted as
/// HTML; the content of each element that `target` selects is set to `sheet`
/// as text; each fragment of text inside an element that `heading` selects,
/// but the last of its text node, is replaced as HTML by its words, each
/// wrapped in a `span`. `None` where a selector does not parse or the engine
/// reports an error: with its default settings, markup that it cannot parse
/// without ambiguity.
pub uninterp spec fn engine_rewrite(
    html: Seq<char>,
    anchor: Seq<char>,
    links: Seq<char>,
    target: Seq<char>,
    sheet: Seq<char>,
    heading: Seq<char>,
) -> Option<Seq<char>>;

/// Relies on `lol_html::rewrite_str`, run with the handlers that
/// `engine_rewrite` describes, and on `Selector::from_str` for the three
/// selectors: the outcome, success or failure, is a function of the arguments.
#[verifier::external_body]
fn run_engine(html: &str, anchor: &str, links: &str, target: &str, sheet: &str, heading: &str)
    -> (r: Option<String>)
    ensures
        r is None <==> engine_rewrite(html@, anchor@, links@, target@, sheet@, heading@) is None,
        r matches Some(out) ==> engine_rewrite(html@, anchor@, links@, target@, sheet@, heading@) == Some(out@),
{
    let settings = RewriteStrSettings::new().append_element_content_handler((
        Cow::Owned(anchor.parse().ok()?),
        ElementContentHandlers::default().element(|e: &mut Element| Ok(e.after(links, ContentType::Html))),
    )).append_element_content_handler((
        Cow::Owned(target.parse().ok()?),
        ElementContentHandlers::default().element(|e: &mut Element| Ok(e.set_inner_content(sheet, ContentType::Text))),
    )).append_element_content_handler((
        Cow::Owned(heading.parse().ok()?),
        ElementContentHandlers::default().text(|t: &mut TextChunk| Ok(
            if let Some(s) = heading_fragment_replacement(t.as_str(), t.last_in_text_node()) { t.replace(&s, ContentType::Html) })),
    ));
    rewrite_str(html, settings).ok()
}

/// The restyled page: `html` with `font_links` inserted as HTML after each
/// `meta` element that has a `name`, the content of each `style` element set
/// to `style_sheet` as text, and the words of each `h1` heading wrapped in
/// `span` elements; `None` where the engine fails on the page.
pub open spec fn restyled(html: Seq<char>, font_links: Seq<char>, style_sheet: Seq<char>) -> Option<Seq<char>> {
    engine_rewrite(html, FONT_LINK_ANCHOR@, font_links, STYLE_TARGET@, style_sheet, HEADING_TARGET@)
}

/// Restyles `html`; `None` where the engine fails, which the caller may
/// answer by serving the page unchanged.
pub fn restyle_page(html: &str, font_links: &str, style_sheet: &str) -> (r: Option<String>)
    ensures
        r is None <==> restyled(html@, font_links@, style_sheet@) is None,
        r matches Some(out) ==> restyled(html@, font_links@, style_sheet@) == Some(out@),
{
    run_engine(html, FONT_LINK_ANCHOR, font_links, STYLE_TARGET, style_sheet, HEADING_TARGET)
}

/// Restyling is deterministic: two passes over the same page with the same
/// links and style sheet have the same outcome, both failing or both giving
/// the same output.
pub proof fn restyle_is_deterministic(
    html: Seq<char>,
    font_links: Seq<char>,
    style_sheet: Seq<char>,
    first: Option<Seq<char>>,
    second: Option<Seq<char>>,
)
    requires
        first == restyled(html, font_links, style_sheet),
        second == restyled(html, font_links, style_sheet),
    ensures
        first == second,
{
}

} // verus!
