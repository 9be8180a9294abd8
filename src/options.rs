//! The annotation model: what the template and event attributes of a type say.
use vstd::prelude::*;

verus! {

/// The shape of an enum variant.
#[derive(Debug, Clone, Copy, PartialEq, Eq, Structural)]
pub enum Style {
    Tuple,
    Struct,
    Unit,
}

/// The type of a field, as far as the generators read it.
#[derive(Debug, Clone, PartialEq, Eq)]
pub enum TypeSyntax {
    /// A plain type path; each segment's identifier, generic arguments left out.
    Path(Vec<String>),
    /// Any other type (a reference, a tuple, an array, ...).
    Other,
}

/// One field of a struct or of an enum variant.
#[derive(Debug, Clone, PartialEq, Eq)]
pub struct FieldData {
    /// The field's name; `None` for a tuple field.
    pub ident: Option<String>,
    pub ty: TypeSyntax,
}

/// One variant of an enum.
#[derive(Debug, Clone, PartialEq, Eq)]
pub struct EnumData {
    pub ident: String,
    pub style: Style,
    pub fields: Vec<FieldData>,
}

/// The body of the annotated type.
#[derive(Debug, Clone, PartialEq, Eq)]
pub enum Data {
    Enum(Vec<EnumData>),
    Struct(Vec<FieldData>),
}

/// The template attribute of a type: `#[template(name = "...", mime = "...")]`.
#[derive(Debug, Clone, PartialEq, Eq)]
pub struct TemplateOptions {
    /// The type's name.
    pub ident: String,
    /// The type's generic parameters as source text, such as `<'a>`, or empty.
    pub generics: String,
    /// The template's name.
    pub name: String,
    /// An explicit MIME type, which wins over the one inferred from `name`.
    pub mime: Option<String>,
}

/// The event attribute of a type:
/// `#[event(name = .., receivers = .., target = .., swap = .., id_field = .., id_prefix = ..)]`.
#[derive(Debug, Clone, PartialEq, Eq)]
pub struct EventOptions {
    pub ident: String,
    pub generics: String,
    /// The event's name; empty when the attribute leaves it out.
    pub name: String,
    /// The receiver selectors, separated by spaces.
    pub receivers: String,
    /// A selector, or the sentinel for a target computed per instance.
    pub target: String,
    pub swap: String,
    /// The field whose value completes a computed target.
    pub id_field: String,
    /// What a computed target starts with.
    pub id_prefix: String,
    pub data: Data,
    /// Whether the type also carries a template attribute.
    pub has_template: bool,
}

/// The input of the fan-out over an enum of event types.
#[derive(Debug, Clone, PartialEq, Eq)]
pub struct AllEventsOptions {
    pub ident: String,
    pub generics: String,
    /// The enum's visibility as source text, such as `pub(crate)`, or empty.
    pub vis: String,
    pub data: Data,
}

/// The swap strategy when the attribute names none.
pub fn default_swap() -> (r: String)
    ensures
        r@ == "innerHTML"@,
{
    String::from_str("innerHTML")
}

/// The target when the attribute names none: the sentinel of a computed target.
pub fn default_target() -> (r: String)
    ensures
        r@ == "dynamic"@,
{
    String::from_str("dynamic")
}

/// The field of a computed target when the attribute names none.
pub fn default_id_field() -> (r: String)
    ensures
        r@ == "id"@,
{
    String::from_str("id")
}

/// The prefix of a computed target when the attribute names none.
pub fn default_id_prefix() -> (r: String)
    ensures
        r@ == "id-"@,
{
    String::from_str("id-")
}

impl EventOptions {
    /// An event attribute that names the event and its receivers, with the
    /// defaults for everything else.
    pub fn new(ident: String, generics: String, name: String, receivers: String, data: Data) -> (r:
        EventOptions)
        ensures
            r.ident == ident,
            r.generics == generics,
            r.name == name,
            r.receivers == receivers,
            r.data == data,
            r.target@ == "dynamic"@,
            r.swap@ == "innerHTML"@,
            r.id_field@ == "id"@,
            r.id_prefix@ == "id-"@,
            !r.has_template,
    {
        EventOptions {
            ident,
            generics,
            name,
            receivers,
            target: default_target(),
            swap: default_swap(),
            id_field: default_id_field(),
            id_prefix: default_id_prefix(),
            data,
            has_template: false,
        }
    }
}

} // verus!
