use jinja_renderer::all_events::{generate_all_events_fn, get_enum_data_types};
use jinja_renderer::context::{generate_render_context_trait, infer_mime, resolve_mime};
use jinja_renderer::event::{
    check_id_exists, event_descriptor, generate_event_trait, parse_receivers, GenError,
    TargetSpec,
};
use jinja_renderer::text::trim;
use jinja_renderer::options::{
    default_id_field, default_id_prefix, default_swap, default_target, AllEventsOptions, Data,
    EnumData, EventOptions, FieldData, Style, TemplateOptions, TypeSyntax,
};

fn tokens(src: &str) -> String {
    src.parse::<proc_macro2::TokenStream>().unwrap().to_string()
}

fn field(name: &str, ty: &str) -> FieldData {
    FieldData {
        ident: Some(name.to_string()),
        ty: TypeSyntax::Path(vec![ty.to_string()]),
    }
}

fn variant(name: &str, ty: &str) -> EnumData {
    EnumData {
        ident: name.to_string(),
        style: Style::Tuple,
        fields: vec![FieldData {
            ident: None,
            ty: TypeSyntax::Path(vec![ty.to_string()]),
        }],
    }
}

fn three_variants() -> Vec<EnumData> {
    vec![
        variant("Foo2", "Foo1"),
        variant("Bar2", "Bar1"),
        variant("Baz2", "Baz1"),
    ]
}

fn generate_template_input(name: &str, mime: Option<&str>) -> TemplateOptions {
    TemplateOptions {
        ident: "Foo".to_string(),
        generics: "<'a>".to_string(),
        name: name.to_string(),
        mime: mime.map(|m| m.to_string()),
    }
}

fn generate_template_expected(name: &str, mime: &str) -> String {
    tokens(&format!(
        r#"impl<'a> jinja_renderer::RenderContext for Foo<'a> {{
            const TEMPLATE_NAME: &'static str = "{name}";
            const MIME_TYPE: &'static str = "{mime}";
            fn render(&self, renderer: &jinja_renderer::Renderer) -> Result<String, jinja_renderer::Error> {{
                renderer.render_template("{name}", &self)
            }}
        }}"#
    ))
}

fn generate_event_input(with_template: bool, with_id: bool) -> EventOptions {
    let mut fields = vec![field("bar", "str")];
    let mut options = EventOptions::new(
        "Foo".to_string(),
        "<'a>".to_string(),
        "foo".to_string(),
        "#bar".to_string(),
        Data::Struct(vec![]),
    );
    if with_id {
        fields.push(field("id", "str"));
        options.target = "dynamic".to_string();
        options.id_prefix = "#my-".to_string();
    } else {
        options.target = "#baz".to_string();
    }
    options.swap = "innerHTML".to_string();
    options.data = Data::Struct(fields);
    options.has_template = with_template;
    options
}

fn generate_event_expected(with_template: bool, with_id: bool) -> String {
    let target_info = if with_id {
        r##"format!("{}{}", "#my-", self.id).into()"##
    } else {
        r##""#baz".into()"##
    };
    let event_info_with_data = r#"serde_json::to_string(&serde_json::json!({"info": self.event_info(), "data": self})).expect("even info should be a valid json")"#;
    let render_data = if with_template {
        format!(
            r#"let mut ret = {event_info_with_data};
            let data = self.render(renderer)?;
            ret.push_str("\n");
            ret.push_str(&data);
            Ok(ret)"#
        )
    } else {
        format!("Ok({event_info_with_data})")
    };
    tokens(&format!(
        r##"impl<'a> jinja_renderer::RenderEvent for Foo<'a> {{
            const EVENT_NAME: &'static str = "foo";

            fn render_event_data(&self, renderer: &jinja_renderer::Renderer) -> Result<String, jinja_renderer::Error> {{
                {render_data}
            }}

            fn event_info(&self) -> jinja_renderer::EventInfo {{
              jinja_renderer::EventInfo {{
                name: "foo",
                receivers: &["#bar"],
                target: {target_info},
                swap: "innerHTML",
                id_field: "id",
              }}
            }}
        }}"##
    ))
}

fn all_events_expected() -> String {
    tokens(
        r#"impl<'a> AllEvents<'a> {
            pub(crate) fn all_events() -> &'static [&'static str] {
                &[Foo1::EVENT_NAME, Bar1::EVENT_NAME, Baz1::EVENT_NAME]
            }
        }"#,
    )
}

fn all_events_input() -> AllEventsOptions {
    AllEventsOptions {
        ident: "AllEvents".to_string(),
        generics: "<'a>".to_string(),
        vis: "pub(crate)".to_string(),
        data: Data::Enum(three_variants()),
    }
}

#[test]
fn context_should_work() {
    let options = generate_template_input("foo.html.j2", None);
    let expected = generate_template_expected("foo.html.j2", "text/html; charset=utf-8");
    let actual = tokens(&generate_render_context_trait(&options));
    assert_eq!(actual, expected);
}

#[test]
fn context_default_mime_should_work() {
    let options = generate_template_input("foo.js.j2", None);
    let expected = generate_template_expected("foo.js.j2", "text/plain; charset=utf-8");
    let actual = tokens(&generate_render_context_trait(&options));
    assert_eq!(actual, expected);
}

#[test]
fn context_with_mime_should_work() {
    let options = generate_template_input("foo.json.j2", Some("application/json"));
    let expected = generate_template_expected("foo.json.j2", "application/json");
    let actual = tokens(&generate_render_context_trait(&options));
    assert_eq!(actual, expected);
}

#[test]
fn event_event_without_template_and_id_should_work() {
    let options = generate_event_input(false, false);
    let expected = generate_event_expected(false, false);
    let actual = tokens(&generate_event_trait(&options).unwrap());
    assert_eq!(actual, expected);
}

#[test]
fn event_event_with_template_and_id_should_work() {
    let options = generate_event_input(true, true);
    let expected = generate_event_expected(true, true);
    let actual = tokens(&generate_event_trait(&options).unwrap());
    assert_eq!(actual, expected);
}

#[test]
fn event_event_with_template_and_without_id_should_work() {
    let options = generate_event_input(true, false);
    let expected = generate_event_expected(true, false);
    let actual = tokens(&generate_event_trait(&options).unwrap());
    assert_eq!(actual, expected);
}

#[test]
fn event_event_without_template_and_with_id_should_work() {
    let options = generate_event_input(false, true);
    let expected = generate_event_expected(false, true);
    let actual = tokens(&generate_event_trait(&options).unwrap());
    assert_eq!(actual, expected);
}

#[test]
fn enum_event_should_work() {
    let options = EventOptions::new(
        "EnumEvents".to_string(),
        "<'a>".to_string(),
        String::new(),
        String::new(),
        Data::Enum(three_variants()),
    );
    let expected = tokens(
        r#"impl<'a> jinja_renderer::RenderEvent for EnumEvents<'a> {
            const EVENT_NAME: &'static str = "";

            fn render_event_data(&self, renderer: &jinja_renderer::Renderer) -> Result<String, jinja_renderer::Error> {
                match self {
                    Self::Foo2(v) => v.render_event_data(renderer),
                    Self::Bar2(v) => v.render_event_data(renderer),
                    Self::Baz2(v) => v.render_event_data(renderer),
                }
            }

            fn event_info(&self) -> jinja_renderer::EventInfo {
                match self {
                    Self::Foo2(v) => v.event_info(),
                    Self::Bar2(v) => v.event_info(),
                    Self::Baz2(v) => v.event_info(),
                }
            }
        }"#,
    );
    let actual = tokens(&generate_event_trait(&options).unwrap());
    assert_eq!(actual, expected);
}

#[test]
fn all_events_all_events_should_work() {
    let actual = tokens(&generate_all_events_fn(&all_events_input()).unwrap());
    assert_eq!(actual, all_events_expected());
}

#[test]
fn generate_all_events_should_work() {
    let options = all_events_input();
    let actual = generate_all_events_fn(&options).unwrap();
    assert_eq!(tokens(&actual), all_events_expected());
}

#[test]
fn mime_inference_by_suffix() {
    assert_eq!(infer_mime("foo.html.j2"), "text/html; charset=utf-8");
    assert_eq!(infer_mime("foo.json.j2"), "application/json; charset=utf-8");
    assert_eq!(infer_mime("foo.js.j2"), "text/plain; charset=utf-8");
    assert_eq!(infer_mime("html.j2"), "text/html; charset=utf-8");
    assert_eq!(infer_mime(""), "text/plain; charset=utf-8");
    assert_eq!(infer_mime("foo.html"), "text/plain; charset=utf-8");
}

#[test]
fn explicit_mime_wins() {
    let m = Some("application/xml".to_string());
    assert_eq!(resolve_mime("foo.html.j2", &m), "application/xml");
    assert_eq!(resolve_mime("foo.json.j2", &None), "application/json; charset=utf-8");
}

#[test]
fn template_name_is_escaped_in_the_literal() {
    let options = generate_template_input("a\"b\\c.html.j2", None);
    let out = generate_render_context_trait(&options);
    assert!(out.contains(r#"const TEMPLATE_NAME: &'static str = "a\"b\\c.html.j2";"#));
    assert!(out.contains(r#"const MIME_TYPE: &'static str = "text/html; charset=utf-8";"#));
}

#[test]
fn defaults_of_the_event_attribute() {
    assert_eq!(default_swap(), "innerHTML");
    assert_eq!(default_target(), "dynamic");
    assert_eq!(default_id_field(), "id");
    assert_eq!(default_id_prefix(), "id-");
}

#[test]
fn receivers_are_trimmed_and_split_on_spaces() {
    assert_eq!(parse_receivers("  #a #b\t "), vec!["#a".to_string(), "#b".to_string()]);
    assert_eq!(parse_receivers("#a  #b"), vec!["#a".to_string(), String::new(), "#b".to_string()]);
    assert_eq!(parse_receivers(""), vec![String::new()]);
    assert_eq!(parse_receivers("#a\t #b"), vec!["#a".to_string(), "#b".to_string()]);
}

#[test]
fn empty_receivers_are_rejected() {
    let mut options = generate_event_input(false, false);
    options.receivers = String::new();
    assert_eq!(generate_event_trait(&options), Err(GenError::ReceiverPrefix));
    options.receivers = "   ".to_string();
    assert_eq!(generate_event_trait(&options), Err(GenError::ReceiverPrefix));
}

#[test]
fn receiver_without_prefix_is_rejected() {
    let mut options = generate_event_input(false, false);
    options.receivers = "#bar baz".to_string();
    assert_eq!(generate_event_trait(&options), Err(GenError::ReceiverPrefix));
    options.receivers = "#bar  #baz".to_string();
    assert_eq!(generate_event_trait(&options), Err(GenError::ReceiverPrefix));
}

#[test]
fn computed_target_without_field_is_rejected() {
    let mut options = generate_event_input(false, true);
    options.id_field = "foo_id".to_string();
    assert_eq!(generate_event_trait(&options), Err(GenError::IdFieldNotFound));
    options.target = "computed".to_string();
    assert_eq!(generate_event_trait(&options), Err(GenError::IdFieldNotFound));
    options.data = Data::Struct(vec![field("bar", "str"), field("foo_id", "str")]);
    assert!(generate_event_trait(&options).is_ok());
}

#[test]
fn empty_name_on_a_struct_is_rejected() {
    let mut options = generate_event_input(false, false);
    options.name = String::new();
    assert_eq!(generate_event_trait(&options), Err(GenError::EmptyAttributes));
    let mut options = generate_event_input(false, false);
    options.target = String::new();
    assert_eq!(generate_event_trait(&options), Err(GenError::EmptyAttributes));
}

#[test]
fn enum_dispatch_rejects_bad_variants() {
    let mut vs = three_variants();
    vs[1].style = Style::Struct;
    vs[2].fields.clear();
    let options = EventOptions::new(
        "E".to_string(),
        String::new(),
        String::new(),
        String::new(),
        Data::Enum(vs),
    );
    assert_eq!(generate_event_trait(&options), Err(GenError::NotTupleVariant));
    let mut vs = three_variants();
    vs[0].fields.push(field("x", "u8"));
    let options = EventOptions::new(
        "E".to_string(),
        String::new(),
        String::new(),
        String::new(),
        Data::Enum(vs),
    );
    assert_eq!(generate_event_trait(&options), Err(GenError::VariantFieldCount));
}

#[test]
fn id_field_lookup() {
    let data = Data::Struct(vec![field("bar", "str"), field("foo_id", "str")]);
    assert!(check_id_exists(&data, "foo_id"));
    assert!(!check_id_exists(&data, "foo"));
    assert!(!check_id_exists(&Data::Enum(three_variants()), "bar"));
    let tuple = Data::Struct(vec![FieldData { ident: None, ty: TypeSyntax::Other }]);
    assert!(!check_id_exists(&tuple, "0"));
}

#[test]
fn descriptor_resolves_the_target() {
    let d = event_descriptor(&generate_event_input(false, false)).unwrap();
    assert_eq!(d.target, TargetSpec::Fixed("#baz".to_string()));
    assert_eq!(d.receivers, vec!["#bar".to_string()]);
    let d = event_descriptor(&generate_event_input(true, true)).unwrap();
    assert_eq!(d.target, TargetSpec::Computed);
    assert_eq!(d.id_prefix, "#my-");
    assert!(d.has_template);
}

#[test]
fn computed_target_uses_the_named_field() {
    let mut options = generate_event_input(false, true);
    options.id_field = "foo_id".to_string();
    options.id_prefix = "foo-".to_string();
    options.data = Data::Struct(vec![field("bar", "str"), field("foo_id", "str")]);
    let out = generate_event_trait(&options).unwrap();
    assert!(out.contains(r#"target: format!("{}{}", "foo-", self.foo_id).into(),"#));
    assert!(out.contains(r#"id_field: "foo_id","#));
}

#[test]
fn event_without_template_renders_one_line() {
    let options = EventOptions {
        target: "#baz".to_string(),
        ..EventOptions::new(
            "Bar".to_string(),
            String::new(),
            "bar".to_string(),
            "#bar".to_string(),
            Data::Struct(vec![field("bar", "str")]),
        )
    };
    let out = generate_event_trait(&options).unwrap();
    assert!(out.contains("Ok(serde_json::to_string("));
    assert!(!out.contains("ret.push_str"));
    assert!(out.contains(r##"target: "#baz".into(),"##));
}

#[test]
fn fan_out_keeps_order_and_one_name_per_variant() {
    let paths = get_enum_data_types(&three_variants()).unwrap();
    assert_eq!(paths, vec!["Foo1".to_string(), "Bar1".to_string(), "Baz1".to_string()]);
    let mut vs = three_variants();
    vs.push(variant("Foo3", "Foo1"));
    vs[0].fields[0].ty = TypeSyntax::Path(vec!["events".to_string(), "Foo".to_string()]);
    let paths = get_enum_data_types(&vs).unwrap();
    assert_eq!(paths.len(), 4);
    assert_eq!(paths[0], "events::Foo");
    assert_eq!(paths[3], "Foo1");
}

#[test]
fn fan_out_over_three_events() {
    let options = AllEventsOptions {
        ident: "AllEvents".to_string(),
        generics: String::new(),
        vis: String::new(),
        data: Data::Enum(vec![
            variant("Foo1", "Foo"),
            variant("Bar1", "Bar"),
            variant("Baz1", "Baz"),
        ]),
    };
    let out = generate_all_events_fn(&options).unwrap();
    assert_eq!(
        tokens(&out),
        tokens(
            "impl AllEvents { fn all_events() -> &'static [&'static str] { &[Foo::EVENT_NAME, Bar::EVENT_NAME, Baz::EVENT_NAME] } }"
        )
    );
}

#[test]
fn three_named_events_in_one_enum() {
    for (ty, name) in [("Foo", "foo"), ("Bar", "bar"), ("Baz", "baz")] {
        let options = EventOptions {
            target: format!("#{name}"),
            ..EventOptions::new(
                ty.to_string(),
                String::new(),
                name.to_string(),
                format!("#{name}"),
                Data::Struct(vec![field("bar", "str")]),
            )
        };
        let out = generate_event_trait(&options).unwrap();
        assert!(out.contains(&format!("const EVENT_NAME: &'static str = \"{name}\";")));
    }
    let options = AllEventsOptions {
        ident: "AllEvents".to_string(),
        generics: String::new(),
        vis: "pub".to_string(),
        data: Data::Enum(vec![
            variant("Foo1", "Foo"),
            variant("Bar1", "Bar"),
            variant("Baz1", "Baz"),
        ]),
    };
    let out = generate_all_events_fn(&options).unwrap();
    let foo = out.find("Foo::EVENT_NAME").unwrap();
    let bar = out.find("Bar::EVENT_NAME").unwrap();
    let baz = out.find("Baz::EVENT_NAME").unwrap();
    assert!(foo < bar && bar < baz);
    assert_eq!(out.matches("::EVENT_NAME").count(), 3);
    assert!(out.contains("pub fn all_events()"));
}

#[test]
fn fan_out_errors() {
    let mut options = all_events_input();
    options.data = Data::Struct(vec![field("bar", "str")]);
    assert_eq!(generate_all_events_fn(&options), Err(GenError::NotEnum));
    let mut vs = three_variants();
    vs[1].style = Style::Unit;
    vs[1].fields.clear();
    assert_eq!(get_enum_data_types(&vs), Err(GenError::NotTupleVariant));
    let mut vs = three_variants();
    vs[2].fields.push(field("x", "u8"));
    assert_eq!(get_enum_data_types(&vs), Err(GenError::VariantFieldCount));
    let mut vs = three_variants();
    vs[0].fields[0].ty = TypeSyntax::Other;
    vs[1].style = Style::Unit;
    assert_eq!(get_enum_data_types(&vs), Err(GenError::NotTypePath));
}

#[test]
fn error_messages_are_not_empty() {
    for e in [
        GenError::EmptyAttributes,
        GenError::ReceiverPrefix,
        GenError::IdFieldNotFound,
        GenError::NotEnum,
        GenError::NotTupleVariant,
        GenError::VariantFieldCount,
        GenError::NotTypePath,
    ] {
        assert!(!e.message().is_empty());
    }
    assert_eq!(
        GenError::ReceiverPrefix.message(),
        "receivers must start with #, and separated by space"
    );
    assert_eq!(GenError::NotEnum.message(), "AllEvents only support enum");
}

#[test]
fn trim_strips_unicode_whitespace() {
    assert_eq!(trim("#bar"), "#bar");
    assert_eq!(trim(" \t\n#bar\u{3000}\u{a0}"), "#bar");
    assert_eq!(trim("  a b  "), "a b");
    assert_eq!(trim(" \u{2003} "), "");
    assert_eq!(trim(""), "");
    assert_eq!(parse_receivers("\u{3000}#a #b"), vec!["#a".to_string(), "#b".to_string()]);
}
