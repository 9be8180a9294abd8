//! MIME inference and the generator of the render-context capability.
use vstd::prelude::*;
use crate::options::TemplateOptions;
use crate::text::{append_str_literal, ends_with, opt_view, str_literal};

verus! {

/// The MIME type of templates whose name ends in `html.j2`.
pub open spec fn html_mime() -> Seq<char> {
    "text/html; charset=utf-8"@
}

/// The MIME type of templates whose name ends in `json.j2`.
pub open spec fn json_mime() -> Seq<char> {
    "application/json; charset=utf-8"@
}

/// The MIME type of every other template.
pub open spec fn plain_mime() -> Seq<char> {
    "text/plain; charset=utf-8"@
}

/// The MIME type that a template's name implies.
pub open spec fn spec_infer_mime(name: Seq<char>) -> Seq<char> {
    if "html.j2"@.is_suffix_of(name) {
        html_mime()
    } else if "json.j2"@.is_suffix_of(name) {
        json_mime()
    } else {
        plain_mime()
    }
}

/// The MIME type of a template: the explicit one where there is one, else
/// the one that its name implies.
pub open spec fn spec_resolve_mime(name: Seq<char>, mime: Option<Seq<char>>) -> Seq<char> {
    match mime {
        Some(m) => m,
        None => spec_infer_mime(name),
    }
}

/// The MIME type that a template's name implies.
pub fn infer_mime(name: &str) -> (r: String)
    ensures
        r@ == spec_infer_mime(name@),
{
    if ends_with(name, "html.j2") {
        String::from_str("text/html; charset=utf-8")
    } else if ends_with(name, "json.j2") {
        String::from_str("application/json; charset=utf-8")
    } else {
        String::from_str("text/plain; charset=utf-8")
    }
}

/// The MIME type of a template, explicit or inferred.
pub fn resolve_mime(name: &str, mime: &Option<String>) -> (r: String)
    ensures
        r@ == spec_resolve_mime(name@, opt_view(*mime)),
{
    match mime {
        Some(m) => m.clone(),
        None => infer_mime(name),
    }
}

/// The source of the render-context implementation for a type.
pub open spec fn render_context_source(o: TemplateOptions) -> Seq<char> {
    let name = str_literal(o.name@);
    "impl"@ + o.generics@ + " jinja_renderer::RenderContext for "@ + o.ident@ + o.generics@
        + " {\n    const TEMPLATE_NAME: &'static str = "@ + name
        + ";\n    const MIME_TYPE: &'static str = "@
        + str_literal(spec_resolve_mime(o.name@, opt_view(o.mime)))
        + ";\n\n    fn render(&self, renderer: &jinja_renderer::Renderer) -> Result<String, jinja_renderer::Error> {\n        renderer.render_template("@
        + name + ", &self)\n    }\n}\n"@
}

/// Generates the render-context implementation for a type: its template's
/// name, its MIME type, and a render operation that hands the value to the
/// renderer under that name.
pub fn generate_render_context_trait(options: &TemplateOptions) -> (r: String)
    ensures
        r@ == render_context_source(*options),
{
    let mime = resolve_mime(options.name.as_str(), &options.mime);
    let mut out = String::from_str("impl");
    out.append(options.generics.as_str());
    out.append(" jinja_renderer::RenderContext for ");
    out.append(options.ident.as_str());
    out.append(options.generics.as_str());
    out.append(" {\n    const TEMPLATE_NAME: &'static str = ");
    append_str_literal(&mut out, options.name.as_str());
    out.append(";\n    const MIME_TYPE: &'static str = ");
    append_str_literal(&mut out, mime.as_str());
    out.append(
        ";\n\n    fn render(&self, renderer: &jinja_renderer::Renderer) -> Result<String, jinja_renderer::Error> {\n        renderer.render_template(",
    );
    append_str_literal(&mut out, options.name.as_str());
    out.append(", &self)\n    }\n}\n");
    out
}

/// Whatever a template is named, its MIME type is one of the three inferred
/// ones, and it is the HTML one exactly when the name ends in `html.j2`;
/// an explicit MIME type always wins.
pub proof fn lemma_mime_inference(name: Seq<char>, mime: Option<Seq<char>>)
    ensures
        spec_infer_mime(name) == html_mime() || spec_infer_mime(name) == json_mime()
            || spec_infer_mime(name) == plain_mime(),
        "html.j2"@.is_suffix_of(name) ==> spec_infer_mime(name) == html_mime(),
        !"html.j2"@.is_suffix_of(name) && "json.j2"@.is_suffix_of(name) ==> spec_infer_mime(name)
            == json_mime(),
        !"html.j2"@.is_suffix_of(name) && !"json.j2"@.is_suffix_of(name) ==> spec_infer_mime(name)
            == plain_mime(),
        mime is Some ==> spec_resolve_mime(name, mime) == mime.unwrap(),
        mime is None ==> spec_resolve_mime(name, mime) == spec_infer_mime(name),
{
}

} // verus!
