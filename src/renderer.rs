//! The runtime renderer: a registry of compiled templates, rendering by
//! template name, and optional minification of HTML output.
use vstd::prelude::*;
use crate::context::{html_mime, json_mime, plain_mime, spec_infer_mime};
use crate::text::{ends_with, opt_view};

verus! {

/// minijinja's environment: the compiled templates with their filters and
/// globals, opaque here.
#[verifier::external_type_specification]
#[verifier::external_body]
pub struct ExEnvironment<'source>(minijinja::Environment<'source>);

/// A template looked up in a minijinja environment, opaque here.
#[verifier::external_type_specification]
#[verifier::external_body]
pub struct ExTemplate<'env: 'source, 'source>(minijinja::Template<'env, 'source>);

/// A minijinja value, the context that a template renders against.
#[verifier::external_type_specification]
#[verifier::external_body]
pub struct ExValue(minijinja::Value);

/// minijinja's error: a missing template, a syntax or a render error.
#[verifier::external_type_specification]
#[verifier::external_body]
pub struct ExError(minijinja::Error);

/// The names of the templates that were added to an environment (and not
/// removed); templates that a loader supplies on lookup are not among them.
pub uninterp spec fn template_names(env: minijinja::Environment<'static>) -> Set<Seq<char>>;

/// Whether an environment has a loader, which may supply templates for names
/// that were never added.
pub uninterp spec fn has_loader(env: minijinja::Environment<'static>) -> bool;

/// Whether minijinja compiles a template source; with the syntax fixed in
/// this build (no custom syntax), that depends on the text alone.
pub uninterp spec fn template_compiles(source: Seq<char>) -> bool;

/// What the HTML minifier makes of a document.
pub uninterp spec fn minified_html(html: Seq<char>) -> Seq<char>;

/// Relies on `minijinja::Environment::new`: a new environment holds no
/// templates and has no loader.
#[verifier::external_body]
fn new_environment() -> (r: minijinja::Environment<'static>)
    ensures
        template_names(r) == Set::<Seq<char>>::empty(),
        !has_loader(r),
{
    minijinja::Environment::new()
}

/// Relies on `minijinja::Environment::add_template_owned`: it succeeds
/// exactly when the source compiles, and then the template is held under its
/// name; on failure the other templates stay as they were.
#[verifier::external_body]
fn add_template_owned(env: &mut minijinja::Environment<'static>, name: String, source: String) -> (r:
    Result<(), minijinja::Error>)
    ensures
        r is Ok <==> template_compiles(source@),
        has_loader(*final(env)) == has_loader(*old(env)),
        r is Ok ==> template_names(*final(env)) == template_names(*old(env)).insert(name@),
        r is Err ==> template_names(*final(env)).remove(name@) == template_names(*old(env)).remove(
            name@,
        ),
{
    env.add_template_owned(name, source)
}

/// Relies on `minijinja::Environment::get_template`: an added template is
/// found; without a loader, nothing else is.
#[verifier::external_body]
fn get_template<'e>(env: &'e minijinja::Environment<'static>, name: &str) -> (r: Result<
    minijinja::Template<'e, 'e>,
    minijinja::Error,
>)
    ensures
        template_names(*env).contains(name@) ==> r is Ok,
        !has_loader(*env) && r is Ok ==> template_names(*env).contains(name@),
{
    env.get_template(name)
}

/// Relies on `minijinja::Template::render`, which renders the template
/// against a context value or reports why it cannot.
#[verifier::external_body]
fn render_with(tpl: &minijinja::Template, context: &minijinja::Value) -> (r: Result<
    String,
    minijinja::Error,
>) {
    tpl.render(context)
}

/// Relies on `minify_html::minify` with the settings that keep template
/// syntax, closing tags and the document's structure; its output depends on
/// the document alone.
#[verifier::external_body]
fn minify_markup(html: &str) -> (r: String)
    ensures
        r@ == minified_html(html@),
{
    let mut cfg = minify_html::Cfg::new();
    cfg.do_not_minify_doctype = true;
    cfg.ensure_spec_compliant_unquoted_attribute_values = true;
    cfg.keep_closing_tags = true;
    cfg.keep_html_and_head_opening_tags = true;
    cfg.keep_spaces_between_attributes = true;
    cfg.keep_input_type_text_attr = true;
    cfg.preserve_brace_template_syntax = true;
    String::from_utf8_lossy(&minify_html::minify(html.as_bytes(), &cfg)).into_owned()
}

/// A template's name and source.
#[derive(Debug, Clone, PartialEq, Eq)]
pub struct OwnedTemplate {
    pub name: String,
    pub data: String,
}

impl OwnedTemplate {
    pub fn new(name: String, data: String) -> (r: OwnedTemplate)
        ensures
            r.name == name,
            r.data == data,
    {
        OwnedTemplate { name, data }
    }
}

/// The names of a sequence of templates.
pub open spec fn names_of(ts: Seq<OwnedTemplate>) -> Set<Seq<char>> {
    ts.map_values(|t: OwnedTemplate| t.name@).to_set()
}

/// Whether a template's output is HTML, by its name.
pub open spec fn is_html_template(name: Seq<char>) -> bool {
    "html.j2"@.is_suffix_of(name)
}

/// A template counts as HTML exactly when the MIME type that its name
/// implies is the HTML one.
pub proof fn lemma_html_by_mime(name: Seq<char>)
    ensures
        is_html_template(name) <==> spec_infer_mime(name) == html_mime(),
{
    reveal_strlit("text/html; charset=utf-8");
    reveal_strlit("application/json; charset=utf-8");
    reveal_strlit("text/plain; charset=utf-8");
    assert(html_mime()[0] != json_mime()[0]);
    assert(html_mime()[5] != plain_mime()[5]);
}

/// What an HTTP response for a rendered template carries.
#[derive(Debug, Clone, PartialEq, Eq)]
pub struct Reply {
    pub status: u16,
    /// The `Content-Type` header, where there is one.
    pub content_type: Option<String>,
    pub body: String,
}

/// The response for the outcome of rendering a template of MIME type
/// `mime`: the output with that content type, or an internal server error
/// with an empty body where rendering failed.
pub fn reply_for(mime: &str, rendered: Result<String, minijinja::Error>) -> (r: Reply)
    ensures
        match rendered {
            Ok(body) => r.status == 200 && opt_view(r.content_type) == Some(mime@) && r.body@
                == body@,
            Err(_) => r.status == 500 && r.content_type is None && r.body@.len() == 0,
        },
{
    match rendered {
        Ok(body) => Reply { status: 200, content_type: Some(String::from_str(mime)), body },
        Err(_) => Reply { status: 500, content_type: None, body: String::new() },
    }
}

/// Owns the compiled templates and renders them by name.
#[derive(Debug)]
pub struct Renderer {
    env: minijinja::Environment<'static>,
    minify: bool,
}

impl Renderer {
    /// The names of the registered templates.
    pub closed spec fn templates(&self) -> Set<Seq<char>> {
        template_names(self.env)
    }

    /// Whether the environment has a loader that may supply templates on
    /// lookup.
    pub closed spec fn has_dynamic_loader(&self) -> bool {
        has_loader(self.env)
    }

    /// Whether HTML output is minified.
    pub closed spec fn minifies(&self) -> bool {
        self.minify
    }

    /// What the renderer returns for the raw output of a template: minified
    /// where minification is on and the template is HTML.
    pub open spec fn finished(&self, name: Seq<char>, raw: Seq<char>) -> Seq<char> {
        if self.minifies() && is_html_template(name) {
            minified_html(raw)
        } else {
            raw
        }
    }

    /// A renderer over `env`, which leaves output as rendered.
    pub fn new(env: minijinja::Environment<'static>) -> (r: Renderer)
        ensures
            r.templates() == template_names(env),
            r.has_dynamic_loader() == has_loader(env),
            !r.minifies(),
    {
        Renderer { env, minify: false }
    }

    /// A renderer over `env` that minifies HTML output when `minify` is set.
    pub fn with_minify(env: minijinja::Environment<'static>, minify: bool) -> (r: Renderer)
        ensures
            r.templates() == template_names(env),
            r.has_dynamic_loader() == has_loader(env),
            r.minifies() == minify,
    {
        Renderer { env, minify }
    }

    /// The environment that holds the templates.
    pub fn environment(&self) -> (r: &minijinja::Environment<'static>)
        ensures
            template_names(*r) == self.templates(),
            has_loader(*r) == self.has_dynamic_loader(),
    {
        &self.env
    }

    /// The environment that holds the templates, to configure it (filters,
    /// globals, more templates); what it holds afterwards is what the
    /// renderer holds.
    pub fn environment_mut(&mut self) -> (r: &mut minijinja::Environment<'static>)
        ensures
            template_names(*r) == old(self).templates(),
            has_loader(*r) == old(self).has_dynamic_loader(),
            final(self).templates() == template_names(*final(r)),
            final(self).has_dynamic_loader() == has_loader(*final(r)),
            final(self).minifies() == old(self).minifies(),
    {
        &mut self.env
    }

    /// Compiles and registers each template in order. It succeeds exactly
    /// when every source compiles; otherwise it stops at the first that does
    /// not, keeps those registered before it and adds none after it.
    pub fn add_templates(&mut self, templates: Vec<OwnedTemplate>) -> (r: Result<
        (),
        minijinja::Error,
    >)
        ensures
            final(self).minifies() == old(self).minifies(),
            final(self).has_dynamic_loader() == old(self).has_dynamic_loader(),
            r is Ok ==> final(self).templates() == old(self).templates() + names_of(templates@),
            r is Ok <==> forall|i: int|
                0 <= i < templates@.len() ==> template_compiles(#[trigger] templates@[i].data@),
            r is Err ==> exists|k: int|
                0 <= k < templates@.len() && !template_compiles(
                    (#[trigger] templates@[k]).data@,
                ) && (forall|j: int|
                    0 <= j < k ==> template_compiles(#[trigger] templates@[j].data@))
                    && final(self).templates().remove(templates@[k].name@) == (
                old(self).templates() + names_of(templates@.take(k))).remove(templates@[k].name@),
    {
        let ghost start = self.templates();
        let ghost ts = templates@;
        let mut i: usize = 0;
        proof {
            assert(ts.take(0).map_values(|t: OwnedTemplate| t.name@) =~= Seq::<Seq<char>>::empty());
            assert(start + names_of(ts.take(0)) =~= start);
        }
        while i < templates.len()
            invariant
                i <= ts.len(),
                ts == templates@,
                self.minify == old(self).minify,
                has_loader(self.env) == has_loader(old(self).env),
                start == old(self).templates(),
                self.templates() == start + names_of(ts.take(i as int)),
                forall|j: int| 0 <= j < i ==> template_compiles(#[trigger] ts[j].data@),
            decreases ts.len() - i,
        {
            let t = &templates[i];
            let res = add_template_owned(&mut self.env, t.name.clone(), t.data.clone());
            if let Err(e) = res {
                proof {
                    assert(self.templates().remove(ts[i as int].name@) == (start + names_of(
                        ts.take(i as int),
                    )).remove(ts[i as int].name@));
                }
                return Err(e);
            }
            proof {
                let f = |t: OwnedTemplate| t.name@;
                assert(ts.take(i + 1).map_values(f) =~= ts.take(i as int).map_values(f).push(
                    t.name@,
                ));
                ts.take(i as int).map_values(f).lemma_push_to_set_commute(t.name@);
                assert(names_of(ts.take(i + 1)) =~= names_of(ts.take(i as int)).insert(t.name@));
                assert(self.templates() =~= start + names_of(ts.take(i + 1)));
            }
            i = i + 1;
        }
        proof {
            assert(ts.take(ts.len() as int) =~= ts);
        }
        Ok(())
    }

    /// The raw output of the template `name` as the renderer returns it:
    /// minified where minification is on and the template is HTML.
    pub fn finish_render(&self, name: &str, raw: String) -> (r: String)
        ensures
            r@ == self.finished(name@, raw@),
    {
        if self.minify && ends_with(name, "html.j2") {
            minify_markup(raw.as_str())
        } else {
            raw
        }
    }

    /// The outcome of rendering the template `name` as the renderer returns
    /// it: the output finished by `finish_render`, or the engine's error
    /// unchanged.
    pub fn finish_result(&self, name: &str, rendered: Result<String, minijinja::Error>) -> (r: Result<
        String,
        minijinja::Error,
    >)
        ensures
            rendered matches Ok(raw) ==> r is Ok && r->Ok_0@ == self.finished(name@, raw@),
            rendered matches Err(e) ==> r == Err::<String, minijinja::Error>(e),
    {
        match rendered {
            Ok(raw) => Ok(self.finish_render(name, raw)),
            Err(e) => Err(e),
        }
    }

    /// Renders the template registered under `name` against `context`.
    ///
    /// A name that is not registered is an error where the environment has no
    /// loader; a template found is rendered by the template engine, and the
    /// outcome goes through `finish_result`.
    pub fn render_template(&self, name: &str, context: &minijinja::Value) -> (r: Result<
        String,
        minijinja::Error,
    >)
        ensures
            !self.has_dynamic_loader() && !self.templates().contains(name@) ==> r is Err,
            r is Ok ==> exists|raw: Seq<char>| r->Ok_0@ == self.finished(name@, raw),
    {
        let tpl = match get_template(&self.env, name) {
            Ok(t) => t,
            Err(e) => return Err(e),
        };
        self.finish_result(name, render_with(&tpl, context))
    }
}

impl Default for Renderer {
    fn default() -> (r: Renderer)
        ensures
            r.templates() == Set::<Seq<char>>::empty(),
            !r.has_dynamic_loader(),
            !r.minifies(),
    {
        Renderer::new(new_environment())
    }
}

} // verus!
