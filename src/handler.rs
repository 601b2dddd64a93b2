//! What the two routes answer: the root redirect, and the page built from an
//! asset file through the root-tag rewrite and the page template.

use vstd::prelude::*;
use crate::markup::{MarkupError, markup_message, svg_size_full_width, root_tag_at, first_at, occurs_from, svg_open, with_tag_rewritten};
use handlebars::{Handlebars, RenderError};

verus! {

#[verifier::external_type_specification]
#[verifier::external_body]
pub struct ExHandlebars<'reg>(Handlebars<'reg>);

#[verifier::external_type_specification]
#[verifier::external_body]
pub struct ExRenderError(RenderError);

/// Where the root route sends the client.
pub struct Redirect {
    pub location: String,
}

/// The root route: a redirect to the configured target, with no body.
pub fn home_redirect(target: &str) -> (r: Redirect)
    ensures
        r.location@ == target@,
{
    Redirect { location: String::from_str(target) }
}

/// Why a page could not be served.
pub enum PageError {
    /// The asset file holds no root `<svg ...>` tag.
    MalformedSvg(MarkupError),
    /// The asset file is missing, unreadable or not text; the detail says why.
    AssetNotFound(String),
    /// The template engine failed; the detail is its message.
    RenderFailure(String),
}

impl PageError {
    /// The full description of the failure, for the operator's log.
    pub fn detail(&self) -> (r: String)
        ensures
            match self {
                PageError::MalformedSvg(e) => r@ == markup_message(*e),
                PageError::AssetNotFound(d) => r@ == d@,
                PageError::RenderFailure(d) => r@ == d@,
            },
    {
        match self {
            PageError::MalformedSvg(e) => e.message(),
            PageError::AssetNotFound(d) => d.clone(),
            PageError::RenderFailure(d) => d.clone(),
        }
    }
}

/// The data handed to the page template: the page's title and the rewritten
/// SVG document.
pub struct RenderContext {
    pub title: String,
    pub svg_content: String,
}

pub open spec fn title_key() -> Seq<char> {
    seq!['t', 'i', 't', 'l', 'e']
}

pub open spec fn svg_content_key() -> Seq<char> {
    seq!['s', 'v', 'g', '_', 'c', 'o', 'n', 't', 'e', 'n', 't']
}

impl RenderContext {
    pub fn new(title: &str, svg_content: &str) -> (r: RenderContext)
        ensures
            r.title@ == title@,
            r.svg_content@ == svg_content@,
    {
        RenderContext { title: String::from_str(title), svg_content: String::from_str(svg_content) }
    }

    /// The context as the template sees it: exactly the fields `title` and
    /// `svg_content`, in that order.
    pub fn fields(&self) -> (r: Vec<(String, String)>)
        ensures
            r@.len() == 2,
            r@[0].0@ == title_key(),
            r@[0].1@ == self.title@,
            r@[1].0@ == svg_content_key(),
            r@[1].1@ == self.svg_content@,
    {
        let title = "title";
        let svg_content = "svg_content";
        proof {
            reveal_strlit("title");
            reveal_strlit("svg_content");
            assert(title@ =~= title_key());
            assert(svg_content@ =~= svg_content_key());
        }
        let mut r: Vec<(String, String)> = Vec::new();
        r.push((String::from_str(title), self.title.clone()));
        r.push((String::from_str(svg_content), self.svg_content.clone()));
        r
    }
}

/// Relies on Handlebars::render: renders the registered template `name`
/// with a JSON object whose fields are `data`. What comes back depends on the
/// templates that the engine holds, so nothing is stated of it.
#[verifier::external_body]
fn render_template(engine: &Handlebars<'_>, name: &str, data: &Vec<(String, String)>) -> (r: Result<
    String,
    RenderError,
>) {
    let object: serde_json::Map<String, serde_json::Value> = data.iter().map(
        |(k, v)| (k.clone(), serde_json::Value::String(v.clone())),
    ).collect();
    engine.render(name, &serde_json::Value::Object(object))
}

/// Relies on the Display impl of handlebars::RenderError: its message.
#[verifier::external_body]
fn render_error_message(e: &RenderError) -> (r: String) {
    format!("{}", e)
}

pub open spec fn layout_name() -> Seq<char> {
    seq!['l', 'a', 'y', 'o', 'u', 't']
}

/// Renders the `layout` template with the page's title and rewritten SVG.
/// A failure of the engine is a `RenderFailure`.
pub fn bind_template(engine: &Handlebars<'_>, title: &str, svg_content: &str) -> (r: Result<
    String,
    PageError,
>)
    ensures
        r is Err ==> r->Err_0 is RenderFailure,
{
    let context = RenderContext::new(title, svg_content);
    let data = context.fields();
    match render_template(engine, "layout", &data) {
        Ok(html) => Ok(html),
        Err(e) => Err(PageError::RenderFailure(render_error_message(&e))),
    }
}

/// The part of the page pipeline that needs no template engine: the asset
/// file's contents, or why they could not be read, become the rewritten SVG
/// document, or the error that ends the request.
pub fn prepare_svg(loaded: Result<String, String>) -> (r: Result<String, PageError>)
    ensures
        match loaded {
            Err(d) => r matches Err(PageError::AssetNotFound(e)) && e@ == d@,
            Ok(content) => match r {
                Ok(svg) => exists|start: int, end: int|
                    root_tag_at(content@, start, end) && svg@ == #[trigger] with_tag_rewritten(
                        content@,
                        start,
                        end,
                    ),
                Err(PageError::MalformedSvg(MarkupError::NoStart)) => !occurs_from(
                    content@,
                    svg_open(),
                    0,
                ),
                Err(PageError::MalformedSvg(MarkupError::NoEnd)) => exists|start: int|
                    first_at(content@, svg_open(), 0, start) && !#[trigger] occurs_from(
                        content@,
                        seq!['>'],
                        start,
                    ),
                Err(_) => false,
            },
        },
{
    match loaded {
        Err(d) => Err(PageError::AssetNotFound(d)),
        Ok(content) => match svg_size_full_width(content.as_str()) {
            Ok(svg) => Ok(svg),
            Err(e) => Err(PageError::MalformedSvg(e)),
        },
    }
}

/// The page route after the asset file was read: the document is rewritten
/// and bound into the page template. A failure to read comes back as
/// `AssetNotFound`, a document without a root tag as `MalformedSvg`, and the
/// rest is the template engine's outcome.
pub fn render_page(engine: &Handlebars<'_>, title: &str, loaded: Result<String, String>) -> (r:
    Result<String, PageError>)
    ensures
        match loaded {
            Err(d) => r matches Err(PageError::AssetNotFound(e)) && e@ == d@,
            Ok(content) => match r {
                Ok(_) => exists|start: int, end: int| root_tag_at(content@, start, end),
                Err(PageError::MalformedSvg(MarkupError::NoStart)) => !occurs_from(
                    content@,
                    svg_open(),
                    0,
                ),
                Err(PageError::MalformedSvg(MarkupError::NoEnd)) => exists|start: int|
                    first_at(content@, svg_open(), 0, start) && !#[trigger] occurs_from(
                        content@,
                        seq!['>'],
                        start,
                    ),
                Err(PageError::RenderFailure(_)) => exists|start: int, end: int|
                    root_tag_at(content@, start, end),
                Err(PageError::AssetNotFound(_)) => false,
            },
        },
{
    match prepare_svg(loaded) {
        Ok(svg) => bind_template(engine, title, svg.as_str()),
        Err(e) => Err(e),
    }
}

/// An HTTP answer of the page route.
pub struct PageResponse {
    pub status: u16,
    pub content_type: String,
    pub body: String,
}

pub open spec fn html_content_type() -> Seq<char> {
    "text/html; charset=utf-8"@
}

pub open spec fn text_content_type() -> Seq<char> {
    "text/plain; charset=utf-8"@
}

pub open spec fn failure_body() -> Seq<char> {
    "Failed to render page"@
}

/// The answer to the client: the rendered page with status 200, or on any
/// failure status 500 with one fixed plain-text body that tells nothing of
/// the cause.
pub fn page_response(outcome: &Result<String, PageError>) -> (r: PageResponse)
    ensures
        match outcome {
            Ok(html) => r.status == 200 && r.content_type@ == html_content_type() && r.body@
                == html@,
            Err(_) => r.status == 500 && r.content_type@ == text_content_type() && r.body@
                == failure_body(),
        },
{
    match outcome {
        Ok(html) => PageResponse {
            status: 200,
            content_type: String::from_str("text/html; charset=utf-8"),
            body: html.clone(),
        },
        Err(_) => PageResponse {
            status: 500,
            content_type: String::from_str("text/plain; charset=utf-8"),
            body: String::from_str("Failed to render page"),
        },
    }
}

} // verus!
