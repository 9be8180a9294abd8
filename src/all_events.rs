//! Enum fan-out: the directory of the event names of the types that an
//! enum's variants wrap, in declaration order.
use vstd::prelude::*;
use crate::event::{variant_shape_error, GenError};
use crate::options::{AllEventsOptions, Data, EnumData, Style, TypeSyntax};
use crate::text::{joined, lemma_joined_push, views};

verus! {

/// The type path that a variant wraps, written with `::`, or why there is none.
pub open spec fn variant_type_path(v: EnumData) -> Result<Seq<char>, GenError> {
    match variant_shape_error(v) {
        Some(e) => Err(e),
        None => match v.fields@[0].ty {
            TypeSyntax::Path(segments) => Ok(joined(views(segments@), "::"@)),
            TypeSyntax::Other => Err(GenError::NotTypePath),
        },
    }
}

/// The wrapped type paths of all variants in order, or the error of the
/// first variant that has none.
pub open spec fn variant_type_paths(vs: Seq<EnumData>) -> Result<Seq<Seq<char>>, GenError>
    decreases vs.len(),
{
    if vs.len() == 0 {
        Ok(Seq::empty())
    } else {
        match variant_type_paths(vs.drop_last()) {
            Err(e) => Err(e),
            Ok(ps) => match variant_type_path(vs.last()) {
                Err(e) => Err(e),
                Ok(p) => Ok(ps.push(p)),
            },
        }
    }
}

/// The entries of the directory: each wrapped type's event-name constant.
pub open spec fn event_name_entries(paths: Seq<Seq<char>>) -> Seq<Seq<char>> {
    paths.map_values(|p: Seq<char>| p + "::EVENT_NAME"@)
}

/// The source of the `all_events` operation of an enum.
pub open spec fn all_events_source(
    ident: Seq<char>,
    generics: Seq<char>,
    vis: Seq<char>,
    paths: Seq<Seq<char>>,
) -> Seq<char> {
    "impl"@ + generics + " "@ + ident + generics + " {\n    "@ + vis
        + " fn all_events() -> &'static [&'static str] {\n        &["@ + joined(
        event_name_entries(paths),
        ", "@,
    ) + "]\n    }\n}\n"@
}

/// What fan-out makes of `o`: the source, or why there is none.
pub open spec fn all_events_outcome(o: AllEventsOptions) -> Result<Seq<char>, GenError> {
    match o.data {
        Data::Enum(vs) => match variant_type_paths(vs@) {
            Ok(ps) => Ok(all_events_source(o.ident@, o.generics@, o.vis@, ps)),
            Err(e) => Err(e),
        },
        Data::Struct(_) => Err(GenError::NotEnum),
    }
}

/// An error in a prefix is the error of the whole.
proof fn lemma_paths_prefix_err(vs: Seq<EnumData>, k: int)
    requires
        0 <= k <= vs.len(),
        variant_type_paths(vs.take(k)) is Err,
    ensures
        variant_type_paths(vs) == variant_type_paths(vs.take(k)),
    decreases vs.len() - k,
{
    if k < vs.len() {
        assert(vs.take(k + 1).drop_last() =~= vs.take(k));
        lemma_paths_prefix_err(vs, k + 1);
    } else {
        assert(vs.take(k) =~= vs);
    }
}

/// Fan-out keeps declaration order and gives one path per variant: where it
/// succeeds, the `i`-th path is the type that the `i`-th variant wraps.
pub proof fn lemma_fan_out_order(vs: Seq<EnumData>)
    ensures
        variant_type_paths(vs) is Ok ==> {
            let ps = variant_type_paths(vs)->Ok_0;
            &&& ps.len() == vs.len()
            &&& forall|i: int| 0 <= i < vs.len() ==> variant_type_path(#[trigger] vs[i]) == Ok::<
                Seq<char>,
                GenError,
            >(ps[i])
        },
        variant_type_paths(vs) is Ok <==> forall|i: int|
            0 <= i < vs.len() ==> (#[trigger] variant_type_path(vs[i])) is Ok,
    decreases vs.len(),
{
    if vs.len() > 0 {
        let init = vs.drop_last();
        lemma_fan_out_order(init);
        assert forall|i: int| 0 <= i < init.len() implies #[trigger] vs[i] == init[i] by {}
        if variant_type_paths(init) is Err {
            let j = choose|j: int| 0 <= j < init.len() && !(variant_type_path(init[j]) is Ok);
            assert(vs[j] == init[j]);
        }
    }
}

/// The event names of the directory are in the order of the variants, one
/// per variant.
pub proof fn lemma_directory_entries(vs: Seq<EnumData>)
    requires
        variant_type_paths(vs) is Ok,
    ensures
        ({
            let entries = event_name_entries(variant_type_paths(vs)->Ok_0);
            &&& entries.len() == vs.len()
            &&& forall|i: int|
                0 <= i < vs.len() ==> #[trigger] entries[i] == variant_type_path(vs[i])->Ok_0
                    + "::EVENT_NAME"@
        }),
{
    lemma_fan_out_order(vs);
}

/// Appends the segments of a type path, separated by `::`.
fn append_path(out: &mut String, segments: &Vec<String>)
    ensures
        final(out)@ == old(out)@ + joined(views(segments@), "::"@),
{
    let ghost start = out@;
    let ghost segs = views(segments@);
    let mut i: usize = 0;
    proof {
        assert(segs.take(0) =~= Seq::<Seq<char>>::empty());
        assert(start + joined(segs.take(0), "::"@) =~= start);
    }
    while i < segments.len()
        invariant
            i <= segments@.len(),
            segs == views(segments@),
            out@ == start + joined(segs.take(i as int), "::"@),
        decreases segments@.len() - i,
    {
        if i > 0 {
            out.append("::");
        }
        out.append(segments[i].as_str());
        proof {
            assert(segs.take(i + 1) =~= segs.take(i as int).push(segs[i as int]));
            lemma_joined_push(segs.take(i as int), segs[i as int], "::"@);
            assert(out@ =~= start + joined(segs.take(i + 1), "::"@));
        }
        i = i + 1;
    }
    proof {
        assert(segs.take(segments@.len() as int) =~= segs);
    }
}

/// The type path that each variant wraps, in declaration order, or the
/// error of the first variant that is not a tuple variant of one plain
/// type path.
pub fn get_enum_data_types(variants: &Vec<EnumData>) -> (r: Result<Vec<String>, GenError>)
    ensures
        match r {
            Ok(ps) => variant_type_paths(variants@) == Ok::<Seq<Seq<char>>, GenError>(views(ps@)),
            Err(e) => variant_type_paths(variants@) == Err::<Seq<Seq<char>>, GenError>(e),
        },
{
    let mut out: Vec<String> = Vec::new();
    let mut i: usize = 0;
    proof {
        assert(variants@.take(0) =~= Seq::<EnumData>::empty());
        assert(views(out@) =~= Seq::<Seq<char>>::empty());
    }
    while i < variants.len()
        invariant
            i <= variants@.len(),
            variant_type_paths(variants@.take(i as int)) == Ok::<Seq<Seq<char>>, GenError>(
                views(out@),
            ),
        decreases variants@.len() - i,
    {
        let v = &variants[i];
        proof {
            assert(variants@.take(i + 1).drop_last() =~= variants@.take(i as int));
            assert(variants@.take(i + 1).last() == *v);
        }
        let e = if v.style != Style::Tuple {
            Some(GenError::NotTupleVariant)
        } else if v.fields.len() != 1 {
            Some(GenError::VariantFieldCount)
        } else {
            match &v.fields[0].ty {
                TypeSyntax::Path(segments) => {
                    let mut p = String::new();
                    append_path(&mut p, segments);
                    let ghost old_out = out@;
                    out.push(p);
                    proof {
                        assert(views(out@) =~= views(old_out).push(out@.last()@));
                    }
                    None
                },
                TypeSyntax::Other => Some(GenError::NotTypePath),
            }
        };
        if let Some(err) = e {
            proof {
                lemma_paths_prefix_err(variants@, i + 1);
            }
            return Err(err);
        }
        i = i + 1;
    }
    proof {
        assert(variants@.take(variants@.len() as int) =~= variants@);
    }
    Ok(out)
}

/// Appends the event-name constants of the wrapped types, separated by commas.
fn append_event_names(out: &mut String, paths: &Vec<String>)
    ensures
        final(out)@ == old(out)@ + joined(event_name_entries(views(paths@)), ", "@),
{
    let ghost start = out@;
    let ghost es = event_name_entries(views(paths@));
    let mut i: usize = 0;
    proof {
        assert(es.take(0) =~= Seq::<Seq<char>>::empty());
        assert(start + joined(es.take(0), ", "@) =~= start);
    }
    while i < paths.len()
        invariant
            i <= paths@.len(),
            es == event_name_entries(views(paths@)),
            out@ == start + joined(es.take(i as int), ", "@),
        decreases paths@.len() - i,
    {
        if i > 0 {
            out.append(", ");
        }
        out.append(paths[i].as_str());
        out.append("::EVENT_NAME");
        proof {
            assert(es.take(i + 1) =~= es.take(i as int).push(es[i as int]));
            lemma_joined_push(es.take(i as int), es[i as int], ", "@);
            assert(out@ =~= start + joined(es.take(i + 1), ", "@));
        }
        i = i + 1;
    }
    proof {
        assert(es.take(paths@.len() as int) =~= es);
    }
}

/// Generates the `all_events` operation of an enum whose variants each wrap
/// one event type, or says why the enum does not qualify.
pub fn generate_all_events_fn(options: &AllEventsOptions) -> (r: Result<String, GenError>)
    ensures
        match r {
            Ok(s) => all_events_outcome(*options) == Ok::<Seq<char>, GenError>(s@),
            Err(e) => all_events_outcome(*options) == Err::<Seq<char>, GenError>(e),
        },
{
    match &options.data {
        Data::Enum(variants) => match get_enum_data_types(variants) {
            Ok(paths) => {
                let mut out = String::from_str("impl");
                out.append(options.generics.as_str());
                out.append(" ");
                out.append(options.ident.as_str());
                out.append(options.generics.as_str());
                out.append(" {\n    ");
                out.append(options.vis.as_str());
                out.append(" fn all_events() -> &'static [&'static str] {\n        &[");
                append_event_names(&mut out, &paths);
                out.append("]\n    }\n}\n");
                Ok(out)
            },
            Err(e) => Err(e),
        },
        Data::Struct(_) => Err(GenError::NotEnum),
    }
}

} // verus!
