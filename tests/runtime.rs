use jinja_renderer::event::{event_descriptor, EventDescriptor, TargetSpec};
use jinja_renderer::filters::{icon, markdown};
use jinja_renderer::options::{Data, EventOptions, FieldData, TypeSyntax};
use jinja_renderer::payload::{frame_event_data, render_event_data, split_event_data};
use jinja_renderer::renderer::{reply_for, OwnedTemplate, Renderer};

fn context(pairs: &[(&str, &str)]) -> minijinja::Value {
    minijinja::Value::from_iter(pairs.iter().map(|(k, v)| (k.to_string(), v.to_string())))
}

fn get_render(minify: bool) -> Renderer {
    let templates = vec![OwnedTemplate::new(
        "foo.html.j2".to_string(),
        "<html>\n  <body>\n    {{ bar }}\n  </body>\n</html>".to_string(),
    )];
    let mut renderer = Renderer::with_minify(minijinja::Environment::new(), minify);
    renderer.add_templates(templates).unwrap();
    renderer
}

fn descriptor(target: TargetSpec) -> EventDescriptor {
    EventDescriptor {
        name: "bar".to_string(),
        receivers: vec!["#bar".to_string()],
        target,
        swap: "innerHTML".to_string(),
        id_field: "foo_id".to_string(),
        id_prefix: "foo-".to_string(),
        has_template: false,
    }
}

#[test]
fn test_minify() {
    let renderer = get_render(true);
    let ret = renderer
        .render_template("foo.html.j2", &context(&[("bar", "baz")]))
        .unwrap();

    assert_eq!(ret, "<html><body>baz</body></html>");
}

#[test]
fn test_not_minify() {
    let renderer = get_render(false);
    let ret = renderer
        .render_template("foo.html.j2", &context(&[("bar", "baz")]))
        .unwrap();

    assert_eq!(ret, "<html>\n  <body>\n    baz\n  </body>\n</html>");
}

#[test]
fn default_renderer_does_not_minify() {
    let mut renderer = Renderer::default();
    renderer
        .add_templates(vec![OwnedTemplate::new(
            "foo.html.j2".to_string(),
            "<html>{{ bar }}</html>".to_string(),
        )])
        .unwrap();
    let ret = renderer
        .render_template("foo.html.j2", &context(&[("bar", "baz")]))
        .unwrap();
    assert_eq!(ret, "<html>baz</html>");
}

#[test]
fn minify_leaves_other_templates_alone() {
    let mut renderer = get_render(true);
    renderer
        .add_templates(vec![OwnedTemplate::new(
            "foo.txt.j2".to_string(),
            "a  {{ bar }}\n  b".to_string(),
        )])
        .unwrap();
    let ret = renderer
        .render_template("foo.txt.j2", &context(&[("bar", "baz")]))
        .unwrap();
    assert_eq!(ret, "a  baz\n  b");
    assert_eq!(renderer.finish_render("x.txt.j2", "<p>  a </p>".to_string()), "<p>  a </p>");
    assert_ne!(renderer.finish_render("x.html.j2", "<p>  a </p>".to_string()), "<p>  a </p>");
}

#[test]
fn unknown_template_is_an_error() {
    let renderer = get_render(false);
    let err = renderer
        .render_template("missing.html.j2", &context(&[]))
        .unwrap_err();
    assert_eq!(err.kind(), minijinja::ErrorKind::TemplateNotFound);
}

#[test]
fn add_templates_stops_at_the_first_bad_one() {
    let mut renderer = Renderer::default();
    let res = renderer.add_templates(vec![
        OwnedTemplate::new("a.j2".to_string(), "A{{ x }}".to_string()),
        OwnedTemplate::new("b.j2".to_string(), "B{{ x ".to_string()),
        OwnedTemplate::new("c.j2".to_string(), "C".to_string()),
    ]);
    assert!(res.is_err());
    assert_eq!(renderer.render_template("a.j2", &context(&[("x", "1")])).unwrap(), "A1");
    assert!(renderer.render_template("b.j2", &context(&[])).is_err());
    assert!(renderer.render_template("c.j2", &context(&[])).is_err());
}

#[test]
fn fixed_target_ignores_the_instance() {
    let d = descriptor(TargetSpec::Fixed("#baz".to_string()));
    assert_eq!(d.event_info("1").target, "#baz");
    assert_eq!(d.event_info("2").target, "#baz");
    let info = d.event_info("1");
    assert_eq!(info.name, "bar");
    assert_eq!(info.receivers, vec!["#bar".to_string()]);
    assert_eq!(info.swap, "innerHTML");
    assert_eq!(info.id_field, "foo_id");
}

#[test]
fn computed_target_follows_the_instance() {
    let d = descriptor(TargetSpec::Computed);
    let info = d.event_info("1b282198-a671-11ee-ab45-76ae4616a5de");
    assert_eq!(info.target, "foo-1b282198-a671-11ee-ab45-76ae4616a5de");
    assert_ne!(d.event_info("a").target, d.event_info("b").target);
}

#[test]
fn computed_target_from_the_attribute() {
    let options = EventOptions {
        target: "dynamic".to_string(),
        id_field: "foo_id".to_string(),
        id_prefix: "foo-".to_string(),
        ..EventOptions::new(
            "Baz".to_string(),
            "<'a>".to_string(),
            "bar".to_string(),
            "#bar".to_string(),
            Data::Struct(vec![
                FieldData { ident: Some("bar".to_string()), ty: TypeSyntax::Other },
                FieldData { ident: Some("foo_id".to_string()), ty: TypeSyntax::Other },
            ]),
        )
    };
    let d = event_descriptor(&options).unwrap();
    assert_eq!(d.event_info("1b28").target, "foo-1b28");
}

#[test]
fn event_data_without_template_is_one_line() {
    let payload = r##"{"data":{"bar":"baz"},"info":{"id_field":"id","name":"bar","receivers":["#bar"],"swap":"innerHTML","target":"#baz"}}"##;
    let out = render_event_data(payload.to_string(), None).unwrap();
    assert_eq!(out, payload);
    assert!(!out.contains('\n'));
}

#[test]
fn event_data_with_template_appends_the_body() {
    let out = render_event_data("{}".to_string(), Some(Ok("<p>\nx</p>".to_string()))).unwrap();
    assert_eq!(out, "{}\n<p>\nx</p>");
    let err = minijinja::Error::new(minijinja::ErrorKind::TemplateNotFound, "gone");
    let out = render_event_data("{}".to_string(), Some(Err(err)));
    assert_eq!(out.unwrap_err().kind(), minijinja::ErrorKind::TemplateNotFound);
}

#[test]
fn event_data_round_trip() {
    let framed = frame_event_data("{\"a\":1}".to_string(), Some("x\ny".to_string()));
    assert_eq!(split_event_data(&framed), ("{\"a\":1}".to_string(), Some("x\ny".to_string())));
    let framed = frame_event_data("{\"a\":1}".to_string(), None);
    assert_eq!(split_event_data(&framed), ("{\"a\":1}".to_string(), None));
    let framed = frame_event_data(String::new(), Some(String::new()));
    assert_eq!(framed, "\n");
    assert_eq!(split_event_data(&framed), (String::new(), Some(String::new())));
}

#[test]
fn payload_line_is_the_serialized_info_and_data() {
    let mut info = serde_json::Map::new();
    info.insert("name".to_string(), serde_json::Value::from("bar"));
    info.insert("target".to_string(), serde_json::Value::from("#baz"));
    let mut data = serde_json::Map::new();
    data.insert("bar".to_string(), serde_json::Value::from("line\nbreak"));
    let mut top = serde_json::Map::new();
    top.insert("info".to_string(), serde_json::Value::Object(info));
    top.insert("data".to_string(), serde_json::Value::Object(data));
    let payload = serde_json::to_string(&serde_json::Value::Object(top)).unwrap();
    let out = render_event_data(payload.clone(), Some(Ok("<b>baz</b>".to_string()))).unwrap();
    let (line, body) = split_event_data(&out);
    let v: serde_json::Value = serde_json::from_str(&line).unwrap();
    assert_eq!(v["info"]["target"], "#baz");
    assert_eq!(v["data"]["bar"], "line\nbreak");
    assert_eq!(body, Some("<b>baz</b>".to_string()));
}

#[test]
fn icon_should_work() {
    let svg = icon("github", Some("test"), None).unwrap();
    assert!(svg.starts_with("<svg"));
    assert!(svg.contains(" class=\"test\""));
    assert!(svg.contains(" fill=\"currentColor\""));
    let svg = icon("github", None, Some("red")).unwrap();
    assert!(svg.contains(" fill=\"red\""));
    assert!(icon("no-such-icon-anywhere", None, None).is_err());
}

#[test]
fn markdown_renders_trimmed_text() {
    let html = markdown("\n  # Title\n\n- a\n- b\n  ").unwrap();
    assert!(html.starts_with("<h1>Title</h1>"));
    assert!(html.contains("<li>a</li>"));
    assert_eq!(markdown("  *x*  ").unwrap(), "<p><em>x</em></p>\n");
}

#[test]
fn markdown_should_work() {
    let text = r#"
You are the most intelligent person in the world. You will receive a $500 tip if you follow ALL these rules:

- First, establish a detailed Background for the user's question.
- Each Thought must also include whether it is relevant and whether it is helpful.
- Answers must be scored accurately and honestly.
- Continue having Thoughts and Answers until you have an answer with a score of atleast 8, then immediately respond with a FinalAnswer in the style of an academic professor.

Explain why WW2 happened to a 10 year old."#;
    let html = markdown(text).unwrap();
    assert!(html.starts_with("<p>You are the most intelligent person in the world."));
    assert!(html.contains("<ul>\n<li>First, establish a detailed Background"));
    assert_eq!(html.matches("<li>").count(), 4);
    assert!(html.ends_with("<p>Explain why WW2 happened to a 10 year old.</p>\n"));
}

#[test]
fn environment_can_be_configured_in_place() {
    let mut renderer = Renderer::default();
    renderer
        .environment_mut()
        .add_template("shout.j2", "{{ x | upper }}!")
        .unwrap();
    assert_eq!(renderer.render_template("shout.j2", &context(&[("x", "hi")])).unwrap(), "HI!");
    assert!(renderer.environment().get_template("shout.j2").is_ok());
}

#[test]
fn reply_for_a_rendered_template() {
    let ok = reply_for("text/html; charset=utf-8", Ok("<p>x</p>".to_string()));
    assert_eq!(ok.status, 200);
    assert_eq!(ok.content_type, Some("text/html; charset=utf-8".to_string()));
    assert_eq!(ok.body, "<p>x</p>");
    let err = minijinja::Error::new(minijinja::ErrorKind::TemplateNotFound, "gone");
    let failed = reply_for("text/html; charset=utf-8", Err(err));
    assert_eq!(failed.status, 500);
    assert_eq!(failed.content_type, None);
    assert_eq!(failed.body, "");
}

#[test]
fn default_renderer_knows_no_template() {
    let renderer = Renderer::default();
    for name in ["foo.html.j2", "", "a.j2"] {
        assert!(renderer.render_template(name, &context(&[])).is_err());
    }
}

#[test]
fn add_templates_succeeds_when_every_source_compiles() {
    let mut renderer = Renderer::default();
    let res = renderer.add_templates(vec![
        OwnedTemplate::new("a.j2".to_string(), "A{{ x }}".to_string()),
        OwnedTemplate::new("b.j2".to_string(), "{% if x %}B{% endif %}".to_string()),
    ]);
    assert!(res.is_ok());
    assert_eq!(renderer.render_template("b.j2", &context(&[("x", "1")])).unwrap(), "B");
}

#[test]
fn finish_result_passes_errors_through() {
    let renderer = get_render(true);
    let ok = renderer.finish_result("x.txt.j2", Ok("a  b".to_string())).unwrap();
    assert_eq!(ok, "a  b");
    let html = renderer.finish_result("x.html.j2", Ok("<p>  a </p>".to_string())).unwrap();
    assert_ne!(html, "<p>  a </p>");
    let err = minijinja::Error::new(minijinja::ErrorKind::UndefinedError, "boom");
    let out = renderer.finish_result("x.html.j2", Err(err));
    assert_eq!(out.unwrap_err().kind(), minijinja::ErrorKind::UndefinedError);
}

#[test]
fn a_loader_supplies_templates_never_added() {
    let mut env = minijinja::Environment::new();
    env.set_loader(|name| Ok((name == "late.j2").then(|| "L{{ x }}".to_string())));
    let renderer = Renderer::new(env);
    assert_eq!(renderer.render_template("late.j2", &context(&[("x", "1")])).unwrap(), "L1");
    assert!(renderer.render_template("other.j2", &context(&[])).is_err());
}
