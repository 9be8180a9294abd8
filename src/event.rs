//! The generator of the render-event capability: validation of the event
//! attribute, resolution of the update target, and the emitted source for a
//! single event type or for an enum that dispatches to its variants.
use vstd::prelude::*;
use crate::options::{Data, EnumData, EventOptions, Style};
use crate::text::{
    append_str_literal, joined, lemma_joined_push, opt_view, same_text, split_char,
    lemma_pieces_nonempty, starts_with_char, str_literal, trim, trimmed, pieces, views,
};

verus! {

/// Why the source of a capability cannot be generated.
#[derive(Debug, Clone, Copy, PartialEq, Eq, Structural)]
pub enum GenError {
    /// The event's name or target is empty on a struct (a blank receiver
    /// list is a receiver without the `#` prefix).
    EmptyAttributes,
    /// A receiver does not start with `#`.
    ReceiverPrefix,
    /// The target is computed but the type has no field of that name.
    IdFieldNotFound,
    /// Enum fan-out was asked of a type that is not an enum.
    NotEnum,
    /// An enum variant is not a tuple variant.
    NotTupleVariant,
    /// A tuple variant does not have exactly one field.
    VariantFieldCount,
    /// A variant's field type is not a plain type path.
    NotTypePath,
}

/// The build error that the generator reports for `e`.
pub open spec fn error_message(e: GenError) -> Seq<char> {
    match e {
        GenError::EmptyAttributes => "event name, receivers and target must not be empty for struct"@,
        GenError::ReceiverPrefix => "receivers must start with #, and separated by space"@,
        GenError::IdFieldNotFound => "target is computed, but the id field is not a field of the type"@,
        GenError::NotEnum => "AllEvents only support enum"@,
        GenError::NotTupleVariant => "only support tuple struct"@,
        GenError::VariantFieldCount => "only support tuple struct with one field"@,
        GenError::NotTypePath => "only support standard type path"@,
    }
}

impl GenError {
    /// The build error that the generator reports.
    pub fn message(&self) -> (r: String)
        ensures
            r@ == error_message(*self),
    {
        match self {
            GenError::EmptyAttributes => String::from_str(
                "event name, receivers and target must not be empty for struct",
            ),
            GenError::ReceiverPrefix => String::from_str(
                "receivers must start with #, and separated by space",
            ),
            GenError::IdFieldNotFound => String::from_str(
                "target is computed, but the id field is not a field of the type",
            ),
            GenError::NotEnum => String::from_str("AllEvents only support enum"),
            GenError::NotTupleVariant => String::from_str("only support tuple struct"),
            GenError::VariantFieldCount => String::from_str(
                "only support tuple struct with one field",
            ),
            GenError::NotTypePath => String::from_str("only support standard type path"),
        }
    }
}

/// Where an event's update lands.
#[derive(Debug, Clone, PartialEq, Eq)]
pub enum TargetSpec {
    /// A selector fixed at generation time.
    Fixed(String),
    /// `id_prefix` followed by the instance's id field, built per instance.
    Computed,
}

/// A validated event attribute of a struct.
#[derive(Debug, Clone, PartialEq, Eq)]
pub struct EventDescriptor {
    pub name: String,
    pub receivers: Vec<String>,
    pub target: TargetSpec,
    pub swap: String,
    pub id_field: String,
    pub id_prefix: String,
    pub has_template: bool,
}

/// Whether a target attribute asks for a target computed per instance.
pub open spec fn is_computed_sentinel(t: Seq<char>) -> bool {
    t == "dynamic"@ || t == "computed"@
}

/// The receiver selectors of a space-separated list, as the attribute gives
/// them: the list trimmed, split at each space, each piece trimmed.
pub open spec fn receiver_list(receivers: Seq<char>) -> Seq<Seq<char>> {
    pieces(trimmed(receivers), ' ').map_values(|p: Seq<char>| trimmed(p))
}

/// Whether a receiver selector has the required prefix.
pub open spec fn receiver_ok(r: Seq<char>) -> bool {
    r.len() > 0 && r[0] == '#'
}

/// Whether a struct has a named field `id`.
pub open spec fn has_field(data: Data, id: Seq<char>) -> bool {
    match data {
        Data::Struct(fs) => exists|i: int| 0 <= i < fs@.len() && opt_view(fs@[i].ident) == Some(id),
        Data::Enum(_) => false,
    }
}

/// Whether the event's name or target is missing.
pub open spec fn attrs_missing(o: EventOptions) -> bool {
    o.name@.len() == 0 || o.target@.len() == 0
}

/// Why the event attribute of a struct is invalid, if it is.
pub open spec fn descriptor_error(o: EventOptions) -> Option<GenError> {
    let rs = receiver_list(o.receivers@);
    if attrs_missing(o) {
        Some(GenError::EmptyAttributes)
    } else if exists|i: int| 0 <= i < rs.len() && !receiver_ok(#[trigger] rs[i]) {
        Some(GenError::ReceiverPrefix)
    } else if is_computed_sentinel(o.target@) && !has_field(o.data, o.id_field@) {
        Some(GenError::IdFieldNotFound)
    } else {
        None
    }
}

/// Whether `d` is the validated form of `o`.
pub open spec fn describes(d: EventDescriptor, o: EventOptions) -> bool {
    &&& d.name@ == o.name@
    &&& views(d.receivers@) == receiver_list(o.receivers@)
    &&& match d.target {
        TargetSpec::Computed => is_computed_sentinel(o.target@),
        TargetSpec::Fixed(t) => !is_computed_sentinel(o.target@) && t@ == o.target@,
    }
    &&& d.swap@ == o.swap@
    &&& d.id_field@ == o.id_field@
    &&& d.id_prefix@ == o.id_prefix@
    &&& d.has_template == o.has_template
}

/// Why a variant cannot be dispatched to, if it cannot: it must be a tuple
/// variant of exactly one field.
pub open spec fn variant_shape_error(v: EnumData) -> Option<GenError> {
    if v.style != Style::Tuple {
        Some(GenError::NotTupleVariant)
    } else if v.fields@.len() != 1 {
        Some(GenError::VariantFieldCount)
    } else {
        None
    }
}

/// The error of the first variant, in declaration order, that cannot be
/// dispatched to.
pub open spec fn first_shape_error(vs: Seq<EnumData>) -> Option<GenError>
    decreases vs.len(),
{
    if vs.len() == 0 {
        None
    } else {
        match first_shape_error(vs.drop_last()) {
            Some(e) => Some(e),
            None => variant_shape_error(vs.last()),
        }
    }
}

/// Whether generation dispatches over the variants of an enum.
pub open spec fn dispatch_mode(o: EventOptions) -> bool {
    attrs_missing(o) && o.data is Enum
}

/// Why the event capability of `o` cannot be generated, if it cannot.
pub open spec fn event_error(o: EventOptions) -> Option<GenError> {
    if dispatch_mode(o) {
        first_shape_error(o.data->Enum_0@)
    } else {
        descriptor_error(o)
    }
}

/// The expression that builds the payload line of an event.
pub open spec fn payload_expr() -> Seq<char> {
    "serde_json::to_string(&serde_json::json!({\"info\": self.event_info(), \"data\": self})).expect(\"even info should be a valid json\")"@
}

/// The body of `render_event_data`: the payload line, followed by a newline
/// and the rendered template where the type has one.
pub open spec fn render_event_body(has_template: bool) -> Seq<char> {
    if has_template {
        "        let mut ret = "@ + payload_expr()
            + ";\n        let data = self.render(renderer)?;\n        ret.push_str(\"\\n\");\n        ret.push_str(&data);\n        Ok(ret)\n"@
    } else {
        "        Ok("@ + payload_expr() + ")\n"@
    }
}

/// The expression of the update target: the selector itself, or the prefix
/// followed by the instance's id field.
pub open spec fn target_expr(target: Option<Seq<char>>, id_field: Seq<char>, id_prefix: Seq<char>) -> Seq<char> {
    match target {
        Some(t) => str_literal(t) + ".into()"@,
        None => "format!(\"{}{}\", "@ + str_literal(id_prefix) + ", self."@ + id_field + ").into()"@,
    }
}

/// The receivers as a list of string literals.
pub open spec fn receiver_literals(rs: Seq<Seq<char>>) -> Seq<char> {
    joined(rs.map_values(|r: Seq<char>| str_literal(r)), ", "@)
}

/// The source of the render-event implementation of a single event type.
pub open spec fn struct_event_source(
    ident: Seq<char>,
    generics: Seq<char>,
    name: Seq<char>,
    receivers: Seq<Seq<char>>,
    target: Option<Seq<char>>,
    swap: Seq<char>,
    id_field: Seq<char>,
    id_prefix: Seq<char>,
    has_template: bool,
) -> Seq<char> {
    "impl"@ + generics + " jinja_renderer::RenderEvent for "@ + ident + generics
        + " {\n    const EVENT_NAME: &'static str = "@ + str_literal(name)
        + ";\n\n    fn render_event_data(&self, renderer: &jinja_renderer::Renderer) -> Result<String, jinja_renderer::Error> {\n"@
        + render_event_body(has_template)
        + "    }\n\n    fn event_info(&self) -> jinja_renderer::EventInfo {\n        jinja_renderer::EventInfo {\n            name: "@
        + str_literal(name) + ",\n            receivers: &["@ + receiver_literals(receivers)
        + "],\n            target: "@ + target_expr(target, id_field, id_prefix)
        + ",\n            swap: "@ + str_literal(swap) + ",\n            id_field: "@ + str_literal(id_field)
        + ",\n        }\n    }\n}\n"@
}

/// The target of the options, `None` when it is computed.
pub open spec fn options_target(o: EventOptions) -> Option<Seq<char>> {
    if is_computed_sentinel(o.target@) {
        None
    } else {
        Some(o.target@)
    }
}

/// The match arms that forward `call` to the payload of each variant.
pub open spec fn dispatch_arms(variants: Seq<Seq<char>>, call: Seq<char>) -> Seq<char>
    decreases variants.len(),
{
    if variants.len() == 0 {
        Seq::empty()
    } else {
        dispatch_arms(variants.drop_last(), call) + "            Self::"@ + variants.last() + "(v) => "@
            + call + ",\n"@
    }
}

/// The names of the variants.
pub open spec fn variant_idents(vs: Seq<EnumData>) -> Seq<Seq<char>> {
    vs.map_values(|v: EnumData| v.ident@)
}

/// The source of the render-event implementation of an enum whose variants
/// each wrap an event type: every operation forwards to the active variant.
pub open spec fn dispatch_event_source(ident: Seq<char>, generics: Seq<char>, variants: Seq<Seq<char>>) -> Seq<char> {
    "impl"@ + generics + " jinja_renderer::RenderEvent for "@ + ident + generics
        + " {\n    const EVENT_NAME: &'static str = \"\";\n\n    fn render_event_data(&self, renderer: &jinja_renderer::Renderer) -> Result<String, jinja_renderer::Error> {\n        match self {\n"@
        + dispatch_arms(variants, "v.render_event_data(renderer)"@)
        + "        }\n    }\n\n    fn event_info(&self) -> jinja_renderer::EventInfo {\n        match self {\n"@
        + dispatch_arms(variants, "v.event_info()"@) + "        }\n    }\n}\n"@
}

/// The source generated for `o`, where it is valid.
pub open spec fn event_source(o: EventOptions) -> Seq<char> {
    if dispatch_mode(o) {
        dispatch_event_source(o.ident@, o.generics@, variant_idents(o.data->Enum_0@))
    } else {
        struct_event_source(
            o.ident@,
            o.generics@,
            o.name@,
            receiver_list(o.receivers@),
            options_target(o),
            o.swap@,
            o.id_field@,
            o.id_prefix@,
            o.has_template,
        )
    }
}

/// Generating the event capability of a struct fails when no receiver is
/// given, when a receiver lacks the `#` prefix, and when the target is
/// computed but the type has no field of the id field's name.
pub proof fn lemma_generation_rejects(o: EventOptions)
    requires
        o.data is Struct,
    ensures
        (forall|i: int|
            0 <= i < receiver_list(o.receivers@).len() ==> (#[trigger] receiver_list(o.receivers@)[i]).len()
                == 0) ==> event_error(o) is Some,
        (exists|i: int|
            0 <= i < receiver_list(o.receivers@).len() && !receiver_ok(
                #[trigger] receiver_list(o.receivers@)[i],
            )) ==> event_error(o) is Some,
        is_computed_sentinel(o.target@) && !has_field(o.data, o.id_field@) ==> event_error(o) is Some,
        event_error(o) is None ==> !attrs_missing(o),
{
    let rs = receiver_list(o.receivers@);
    lemma_pieces_nonempty(trimmed(o.receivers@), ' ');
    if forall|i: int| 0 <= i < rs.len() ==> (#[trigger] rs[i]).len() == 0 {
        assert(!receiver_ok(rs[0]));
    }
}

/// Splits a space-separated receiver list into its selectors.
pub fn parse_receivers(receivers: &str) -> (r: Vec<String>)
    ensures
        views(r@) == receiver_list(receivers@),
{
    let parts = split_char(trim(receivers), ' ');
    let ghost ps = views(parts@);
    let mut out: Vec<String> = Vec::new();
    let mut i: usize = 0;
    while i < parts.len()
        invariant
            i <= parts@.len(),
            ps == views(parts@),
            ps == pieces(trimmed(receivers@), ' '),
            views(out@) == ps.take(i as int).map_values(|p: Seq<char>| trimmed(p)),
        decreases parts@.len() - i,
    {
        let piece = String::from_str(trim(parts[i].as_str()));
        let ghost old_out = out@;
        out.push(piece);
        proof {
            assert(ps[i as int] == parts@[i as int]@);
            assert(views(out@) =~= views(old_out).push(out@.last()@));
            assert(views(out@) =~= ps.take(i + 1).map_values(|p: Seq<char>| trimmed(p)));
        }
        i = i + 1;
    }
    proof {
        assert(ps.take(parts@.len() as int) =~= ps);
    }
    out
}

/// Whether every receiver has the required prefix.
pub fn receivers_ok(rs: &Vec<String>) -> (r: bool)
    ensures
        r == forall|i: int| 0 <= i < rs@.len() ==> receiver_ok(#[trigger] views(rs@)[i]),
{
    let mut i: usize = 0;
    while i < rs.len()
        invariant
            i <= rs@.len(),
            forall|j: int| 0 <= j < i ==> receiver_ok(#[trigger] views(rs@)[j]),
        decreases rs@.len() - i,
    {
        if !starts_with_char(rs[i].as_str(), '#') {
            assert(!receiver_ok(views(rs@)[i as int]));
            return false;
        }
        i = i + 1;
    }
    true
}

/// Whether the type has a named field `id_field`; an enum has none.
pub fn check_id_exists(data: &Data, id_field: &str) -> (r: bool)
    ensures
        r == has_field(*data, id_field@),
{
    match data {
        Data::Struct(fields) => {
            let mut i: usize = 0;
            while i < fields.len()
                invariant
                    *data == Data::Struct(*fields),
                    i <= fields@.len(),
                    forall|j: int| 0 <= j < i ==> opt_view(#[trigger] fields@[j].ident) != Some(id_field@),
                decreases fields@.len() - i,
            {
                match &fields[i].ident {
                    Some(ident) => {
                        if same_text(ident.as_str(), id_field) {
                            assert(fields@[i as int].ident == Some(*ident));
                            assert(opt_view(fields@[i as int].ident) == Some(id_field@));
                            assert(has_field(*data, id_field@));
                            return true;
                        }
                    },
                    None => {},
                }
                i = i + 1;
            }
            assert(!has_field(*data, id_field@)) by {
                if has_field(*data, id_field@) {
                    let k = choose|k: int|
                        0 <= k < fields@.len() && opt_view(fields@[k].ident) == Some(id_field@);
                    assert(opt_view(fields@[k].ident) != Some(id_field@));
                }
            }
            false
        },
        Data::Enum(_) => false,
    }
}

/// Whether a target attribute asks for a target computed per instance.
pub fn is_computed_target(target: &str) -> (r: bool)
    ensures
        r == is_computed_sentinel(target@),
{
    same_text(target, "dynamic") || same_text(target, "computed")
}

/// Validates the event attribute of a struct and resolves its target.
pub fn event_descriptor(options: &EventOptions) -> (r: Result<EventDescriptor, GenError>)
    ensures
        match r {
            Ok(d) => descriptor_error(*options) is None && describes(d, *options),
            Err(e) => descriptor_error(*options) == Some(e),
        },
{
    let receivers = parse_receivers(options.receivers.as_str());
    if options.name.as_str().is_empty() || options.target.as_str().is_empty() {
        return Err(GenError::EmptyAttributes);
    }
    if !receivers_ok(&receivers) {
        return Err(GenError::ReceiverPrefix);
    }
    let computed = is_computed_target(options.target.as_str());
    if computed && !check_id_exists(&options.data, options.id_field.as_str()) {
        return Err(GenError::IdFieldNotFound);
    }
    let target = if computed {
        TargetSpec::Computed
    } else {
        TargetSpec::Fixed(options.target.clone())
    };
    Ok(
        EventDescriptor {
            name: options.name.clone(),
            receivers,
            target,
            swap: options.swap.clone(),
            id_field: options.id_field.clone(),
            id_prefix: options.id_prefix.clone(),
            has_template: options.has_template,
        },
    )
}

/// The error of the first variant that cannot be dispatched to.
pub fn check_variant_shapes(variants: &Vec<EnumData>) -> (r: Option<GenError>)
    ensures
        r == first_shape_error(variants@),
{
    let mut i: usize = 0;
    while i < variants.len()
        invariant
            i <= variants@.len(),
            first_shape_error(variants@.take(i as int)) is None,
        decreases variants@.len() - i,
    {
        let v = &variants[i];
        proof {
            assert(variants@.take(i + 1).drop_last() =~= variants@.take(i as int));
        }
        if v.style != Style::Tuple {
            proof {
                lemma_first_shape_error_prefix(variants@, i as int + 1);
            }
            return Some(GenError::NotTupleVariant);
        }
        if v.fields.len() != 1 {
            proof {
                lemma_first_shape_error_prefix(variants@, i as int + 1);
            }
            return Some(GenError::VariantFieldCount);
        }
        i = i + 1;
    }
    proof {
        assert(variants@.take(variants@.len() as int) =~= variants@);
    }
    None
}

/// An error in a prefix is the first error of the whole.
pub proof fn lemma_first_shape_error_prefix(vs: Seq<EnumData>, k: int)
    requires
        0 <= k <= vs.len(),
        first_shape_error(vs.take(k)) is Some,
    ensures
        first_shape_error(vs) == first_shape_error(vs.take(k)),
    decreases vs.len() - k,
{
    if k < vs.len() {
        assert(vs.take(k + 1).drop_last() =~= vs.take(k));
        lemma_first_shape_error_prefix(vs, k + 1);
    } else {
        assert(vs.take(k) =~= vs);
    }
}

/// Appends the literals of the receivers, separated by commas.
fn append_receiver_literals(out: &mut String, rs: &Vec<String>)
    ensures
        final(out)@ == old(out)@ + receiver_literals(views(rs@)),
{
    let ghost start = out@;
    let ghost lits = views(rs@).map_values(|r: Seq<char>| str_literal(r));
    let mut i: usize = 0;
    proof {
        assert(lits.take(0) =~= Seq::<Seq<char>>::empty());
        assert(start + joined(lits.take(0), ", "@) =~= start);
    }
    while i < rs.len()
        invariant
            i <= rs@.len(),
            lits == views(rs@).map_values(|r: Seq<char>| str_literal(r)),
            out@ == start + joined(lits.take(i as int), ", "@),
        decreases rs@.len() - i,
    {
        let ghost before = out@;
        if i > 0 {
            out.append(", ");
        }
        append_str_literal(out, rs[i].as_str());
        proof {
            assert(lits.take(i + 1) =~= lits.take(i as int).push(lits[i as int]));
            lemma_joined_push(lits.take(i as int), lits[i as int], ", "@);
            assert(out@ =~= start + joined(lits.take(i + 1), ", "@));
        }
        i = i + 1;
    }
    proof {
        assert(lits.take(rs@.len() as int) =~= lits);
    }
}

/// Appends the expression of the update target.
fn append_target_expr(out: &mut String, target: &TargetSpec, id_field: &str, id_prefix: &str)
    ensures
        final(out)@ == old(out)@ + target_expr(
            match *target {
                TargetSpec::Fixed(t) => Some(t@),
                TargetSpec::Computed => None,
            },
            id_field@,
            id_prefix@,
        ),
{
    let ghost start = out@;
    match target {
        TargetSpec::Fixed(t) => {
            append_str_literal(out, t.as_str());
            out.append(".into()");
            proof {
                assert(out@ =~= start + (str_literal(t@) + ".into()"@));
            }
        },
        TargetSpec::Computed => {
            out.append("format!(\"{}{}\", ");
            append_str_literal(out, id_prefix);
            out.append(", self.");
            out.append(id_field);
            out.append(").into()");
            proof {
                assert(out@ =~= start + ("format!(\"{}{}\", "@ + str_literal(id_prefix@) + ", self."@
                    + id_field@ + ").into()"@));
            }
        },
    }
}

/// Appends the body of `render_event_data`.
fn append_render_event_body(out: &mut String, has_template: bool)
    ensures
        final(out)@ == old(out)@ + render_event_body(has_template),
{
    let ghost start = out@;
    let payload = "serde_json::to_string(&serde_json::json!({\"info\": self.event_info(), \"data\": self})).expect(\"even info should be a valid json\")";
    if has_template {
        out.append("        let mut ret = ");
        out.append(payload);
        out.append(
            ";\n        let data = self.render(renderer)?;\n        ret.push_str(\"\\n\");\n        ret.push_str(&data);\n        Ok(ret)\n",
        );
    } else {
        out.append("        Ok(");
        out.append(payload);
        out.append(")\n");
    }
    proof {
        assert(out@ =~= start + render_event_body(has_template));
    }
}

/// Emits the render-event implementation of a single event type.
pub fn struct_event_code(ident: &str, generics: &str, d: &EventDescriptor) -> (r: String)
    ensures
        r@ == struct_event_source(
            ident@,
            generics@,
            d.name@,
            views(d.receivers@),
            match d.target {
                TargetSpec::Fixed(t) => Some(t@),
                TargetSpec::Computed => None,
            },
            d.swap@,
            d.id_field@,
            d.id_prefix@,
            d.has_template,
        ),
{
    let mut out = String::from_str("impl");
    out.append(generics);
    out.append(" jinja_renderer::RenderEvent for ");
    out.append(ident);
    out.append(generics);
    out.append(" {\n    const EVENT_NAME: &'static str = ");
    append_str_literal(&mut out, d.name.as_str());
    out.append(
        ";\n\n    fn render_event_data(&self, renderer: &jinja_renderer::Renderer) -> Result<String, jinja_renderer::Error> {\n",
    );
    append_render_event_body(&mut out, d.has_template);
    out.append(
        "    }\n\n    fn event_info(&self) -> jinja_renderer::EventInfo {\n        jinja_renderer::EventInfo {\n            name: ",
    );
    append_str_literal(&mut out, d.name.as_str());
    out.append(",\n            receivers: &[");
    append_receiver_literals(&mut out, &d.receivers);
    out.append("],\n            target: ");
    append_target_expr(&mut out, &d.target, d.id_field.as_str(), d.id_prefix.as_str());
    out.append(",\n            swap: ");
    append_str_literal(&mut out, d.swap.as_str());
    out.append(",\n            id_field: ");
    append_str_literal(&mut out, d.id_field.as_str());
    out.append(",\n        }\n    }\n}\n");
    out
}

/// Appends one forwarding arm per variant.
fn append_dispatch_arms(out: &mut String, variants: &Vec<EnumData>, call: &str)
    ensures
        final(out)@ == old(out)@ + dispatch_arms(variant_idents(variants@), call@),
{
    let ghost start = out@;
    let ghost ids = variant_idents(variants@);
    let mut i: usize = 0;
    proof {
        assert(ids.take(0) =~= Seq::<Seq<char>>::empty());
        assert(start + dispatch_arms(ids.take(0), call@) =~= start);
    }
    while i < variants.len()
        invariant
            i <= variants@.len(),
            ids == variant_idents(variants@),
            out@ == start + dispatch_arms(ids.take(i as int), call@),
        decreases variants@.len() - i,
    {
        out.append("            Self::");
        out.append(variants[i].ident.as_str());
        out.append("(v) => ");
        out.append(call);
        out.append(",\n");
        proof {
            assert(ids.take(i + 1).drop_last() =~= ids.take(i as int));
            assert(ids.take(i + 1).last() == variants@[i as int].ident@);
            assert(out@ =~= start + dispatch_arms(ids.take(i + 1), call@));
        }
        i = i + 1;
    }
    proof {
        assert(ids.take(variants@.len() as int) =~= ids);
    }
}

/// Emits the render-event implementation of an enum that forwards every
/// operation to its active variant.
pub fn generate_event_trait_for_enum(ident: &str, generics: &str, variants: &Vec<EnumData>) -> (r:
    String)
    ensures
        r@ == dispatch_event_source(ident@, generics@, variant_idents(variants@)),
{
    let mut out = String::from_str("impl");
    out.append(generics);
    out.append(" jinja_renderer::RenderEvent for ");
    out.append(ident);
    out.append(generics);
    out.append(
        " {\n    const EVENT_NAME: &'static str = \"\";\n\n    fn render_event_data(&self, renderer: &jinja_renderer::Renderer) -> Result<String, jinja_renderer::Error> {\n        match self {\n",
    );
    append_dispatch_arms(&mut out, variants, "v.render_event_data(renderer)");
    out.append(
        "        }\n    }\n\n    fn event_info(&self) -> jinja_renderer::EventInfo {\n        match self {\n",
    );
    append_dispatch_arms(&mut out, variants, "v.event_info()");
    out.append("        }\n    }\n}\n");
    out
}

/// Generates the render-event implementation for a type, or says why the
/// attribute is invalid.
pub fn generate_event_trait(options: &EventOptions) -> (r: Result<String, GenError>)
    ensures
        match r {
            Ok(s) => event_error(*options) is None && s@ == event_source(*options),
            Err(e) => event_error(*options) == Some(e),
        },
{
    let missing = options.name.as_str().is_empty() || options.target.as_str().is_empty();
    if missing {
        if let Data::Enum(variants) = &options.data {
            return match check_variant_shapes(variants) {
                Some(e) => Err(e),
                None => Ok(
                    generate_event_trait_for_enum(
                        options.ident.as_str(),
                        options.generics.as_str(),
                        variants,
                    ),
                ),
            };
        }
    }
    match event_descriptor(options) {
        Ok(d) => Ok(struct_event_code(options.ident.as_str(), options.generics.as_str(), &d)),
        Err(e) => Err(e),
    }
}

} // verus!
