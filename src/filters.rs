//! Template filters: icons by name, and Markdown as HTML.
use vstd::prelude::*;
use crate::text::{opt_view, trim, trimmed};

verus! {

/// The SVG of the solid Font Awesome icon `name` with the given class and
/// fill attributes, if there is such an icon.
pub uninterp spec fn solid_icon_svg(name: Seq<char>, class: Seq<char>, fill: Seq<char>) -> Option<Seq<char>>;

/// The HTML of a Markdown document.
pub uninterp spec fn markdown_html(text: Seq<char>) -> Seq<char>;

/// Relies on `free_icons::font_awesome` with the solid set and the class and
/// fill attributes: the icon's SVG, or `None` for a name it does not know; a
/// function of the arguments alone.
#[verifier::external_body]
fn solid_icon(name: &str, class: &str, fill: &str) -> (r: Option<String>)
    ensures
        opt_view(r) == solid_icon_svg(name@, class@, fill@),
{
    let attrs = free_icons::IconAttrs::default().class(class).fill(fill);
    free_icons::font_awesome(name, free_icons::FontAwesome::Solid, attrs)
}

/// Relies on `minijinja::Error::new`: the error that a filter reports for an
/// icon name that no icon has.
#[verifier::external_body]
fn unknown_icon_error(name: &str) -> (r: minijinja::Error) {
    minijinja::Error::new(minijinja::ErrorKind::InvalidOperation, format!("unknown icon {name}"))
}

/// Relies on `comrak::markdown_to_html_with_plugins` with the default
/// options and code fences highlighted by syntect in the "Solarized (dark)"
/// theme: the HTML of the document, a function of its text alone.
#[verifier::external_body]
fn markdown_to_html(text: &str) -> (r: String)
    ensures
        r@ == markdown_html(text@),
{
    let adapter = comrak::plugins::syntect::SyntectAdapter::new(Some("Solarized (dark)"));
    let options = comrak::Options::default();
    let mut plugins = comrak::options::Plugins::default();
    plugins.render.codefence_syntax_highlighter = Some(&adapter);
    comrak::markdown_to_html_with_plugins(text, &options, &plugins)
}

/// The fill of an icon when the template names none.
pub open spec fn default_fill() -> Seq<char> {
    "currentColor"@
}

/// The SVG of the solid icon `s`; the class defaults to empty and the fill
/// to `currentColor`. A name that no icon has is an error.
pub fn icon(s: &str, class: Option<&str>, fill: Option<&str>) -> (r: Result<String, minijinja::Error>)
    ensures
        ({
            let svg = solid_icon_svg(
                s@,
                match class {
                    Some(c) => c@,
                    None => Seq::<char>::empty(),
                },
                match fill {
                    Some(f) => f@,
                    None => default_fill(),
                },
            );
            match r {
                Ok(out) => svg == Some(out@),
                Err(_) => svg is None,
            }
        }),
{
    proof {
        reveal_strlit("");
        assert(""@ =~= Seq::<char>::empty());
    }
    let class = match class {
        Some(c) => c,
        None => "",
    };
    let fill = match fill {
        Some(f) => f,
        None => "currentColor",
    };
    match solid_icon(s, class, fill) {
        Some(svg) => Ok(svg),
        None => Err(unknown_icon_error(s)),
    }
}

/// The HTML of the Markdown document `s`, without its surrounding whitespace.
pub fn markdown(s: &str) -> (r: Result<String, minijinja::Error>)
    ensures
        r is Ok,
        r->Ok_0@ == markdown_html(trimmed(s@)),
{
    Ok(markdown_to_html(trim(s)))
}

} // verus!
