use handlebars::Handlebars;
use svg_pages::handler::{
    bind_template, home_redirect, page_response, prepare_svg, render_page, PageError,
    RenderContext,
};
use svg_pages::markup::MarkupError;

const LAYOUT: &str =
    "<html><head><title>{{title}}</title></head><body>{{{svg_content}}}</body></html>";

fn engine() -> Handlebars<'static> {
    let mut hb = Handlebars::new();
    hb.register_template_string("layout", LAYOUT).unwrap();
    hb
}

#[test]
fn root_redirects_to_configured_target() {
    let r = home_redirect("/home");
    assert_eq!(r.location, "/home");
}

#[test]
fn existing_page_renders_full_width() {
    let hb = engine();
    let svg = "<svg height=\"30\" width=\"40\"><circle r=\"3\"/></svg>".to_string();
    let outcome = render_page(&hb, "home", Ok(svg));
    let resp = page_response(&outcome);
    assert_eq!(resp.status, 200);
    assert_eq!(resp.content_type, "text/html; charset=utf-8");
    assert!(resp.body.contains("width=\"100%\""));
    let tag_start = resp.body.find("<svg").unwrap();
    let tag_end = tag_start + resp.body[tag_start..].find('>').unwrap();
    assert!(!resp.body[tag_start..tag_end].contains("height=\""));
    assert_eq!(
        resp.body,
        "<html><head><title>home</title></head><body><svg  width=\"100%\"><circle r=\"3\"/></svg></body></html>"
    );
}

#[test]
fn missing_asset_gives_generic_failure() {
    let hb = engine();
    let detail = "/srv/svg/home.svg: No such file or directory (os error 2)".to_string();
    let outcome = render_page(&hb, "home", Err(detail.clone()));
    match &outcome {
        Err(PageError::AssetNotFound(d)) => assert_eq!(d, &detail),
        _ => panic!("expected AssetNotFound"),
    }
    assert_eq!(outcome.as_ref().err().unwrap().detail(), detail);
    let resp = page_response(&outcome);
    assert_eq!(resp.status, 500);
    assert_eq!(resp.content_type, "text/plain; charset=utf-8");
    assert_eq!(resp.body, "Failed to render page");
    assert!(!resp.body.contains("home.svg"));
    assert!(!resp.body.contains("/srv"));
}

#[test]
fn template_failure_gives_same_generic_failure() {
    let mut hb = Handlebars::new();
    hb.set_strict_mode(true);
    hb.register_template_string("layout", "<p>{{missing_field}}</p>{{{svg_content}}}")
        .unwrap();
    let outcome = render_page(&hb, "home", Ok("<svg width=\"1\"></svg>".to_string()));
    let cause = match &outcome {
        Err(PageError::RenderFailure(d)) => d.clone(),
        _ => panic!("expected RenderFailure"),
    };
    assert!(!cause.is_empty());
    let resp = page_response(&outcome);
    let missing = page_response(&Err(PageError::AssetNotFound("home.svg".to_string())));
    assert_eq!(resp.status, 500);
    assert_eq!(resp.status, missing.status);
    assert_eq!(resp.content_type, missing.content_type);
    assert_eq!(resp.body, missing.body);
}

#[test]
fn unregistered_layout_is_a_render_failure() {
    let hb = Handlebars::new();
    let r = bind_template(&hb, "home", "<svg></svg>");
    assert!(matches!(r, Err(PageError::RenderFailure(_))));
}

#[test]
fn malformed_asset_is_reported_as_such() {
    let hb = engine();
    let outcome = render_page(&hb, "home", Ok("plain text".to_string()));
    assert!(matches!(outcome, Err(PageError::MalformedSvg(MarkupError::NoStart))));
    assert_eq!(outcome.as_ref().err().unwrap().detail(), "No SVG start found");
    assert_eq!(page_response(&outcome).status, 500);
    let unclosed = prepare_svg(Ok("<svg".to_string()));
    assert!(matches!(unclosed, Err(PageError::MalformedSvg(MarkupError::NoEnd))));
}

#[test]
fn prepared_svg_is_the_rewritten_document() {
    let r = prepare_svg(Ok("<svg width=\"9\" height=\"9\"/>".to_string()));
    assert_eq!(r.ok().unwrap(), "<svg width=\"100%\" />");
}

#[test]
fn context_holds_title_and_content() {
    let ctx = RenderContext::new("icons/arrow", "<svg/>");
    let fields = ctx.fields();
    assert_eq!(fields.len(), 2);
    assert_eq!(fields[0], ("title".to_string(), "icons/arrow".to_string()));
    assert_eq!(fields[1], ("svg_content".to_string(), "<svg/>".to_string()));
}

#[test]
fn title_is_escaped_by_the_template() {
    let hb = engine();
    let html = bind_template(&hb, "a<b", "<svg/>").ok().unwrap();
    assert!(html.contains("<title>a&lt;b</title>"));
    assert!(html.contains("<body><svg/></body>"));
}
