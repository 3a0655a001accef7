//! The library's laws: memoization, cycle safety, optional-union collapsing
//! and simple-enumeration shape, each proved from the spec functions that the
//! executable functions are proved equal to.

use vstd::prelude::*;

use crate::error::Error;
use crate::model::{
    spec_add_unnamed, spec_build_in, spec_convert_any, spec_enum_variants, spec_gen,
    spec_gen_enum, spec_gen_from_schema, spec_gen_full_object,
    spec_gen_object_from_schema_object, spec_gen_type_and_insert, spec_get_name,
    spec_get_object_body, spec_get_object_parts, spec_get_type, spec_get_type_from_schema,
    spec_header, spec_is_null_marker, spec_join, spec_kinds_concat, spec_literal_strings,
    spec_multiple, spec_optional, spec_resolve_each, spec_singular, spec_strip_ref, Decls,
};
use crate::registry::{
    assoc_contains, assoc_insert, assoc_lookup, ctx_free, distinct_keys,
    lemma_assoc_insert_distinct, lemma_assoc_lookup_contains, lemma_free_count_enter, Ctx,
    ExternalTypeCollector, RegModel,
};
use crate::schema::{
    obj_size, props_size, schema_size, schemas_size, InstanceType, ItemsV, PropV, RootV,
    SchemaObjectV, SchemaV,
};

verus! {

broadcast use crate::schema::lemma_props_size_elem, crate::schema::lemma_schemas_size_elem,
    crate::schema::lemma_props_size_split, crate::schema::lemma_schemas_size_split;

/// How many entries of an association sequence carry the key.
pub open spec fn key_count<X>(s: Seq<(Seq<char>, X)>, k: Seq<char>) -> nat
    decreases s.len(),
{
    if s.len() == 0 {
        0
    } else {
        (if s[0].0 == k {
            1nat
        } else {
            0nat
        }) + key_count(s.drop_first(), k)
    }
}

pub proof fn lemma_key_count_distinct<X>(s: Seq<(Seq<char>, X)>, k: Seq<char>)
    requires
        distinct_keys(s),
    ensures
        key_count(s, k) == if assoc_contains(s, k) {
            1nat
        } else {
            0nat
        },
    decreases s.len(),
{
    if s.len() > 0 {
        assert forall|i: int, j: int|
            0 <= i < j < s.drop_first().len() implies s.drop_first()[i].0
            != s.drop_first()[j].0 by {
            assert(s.drop_first()[i] == s[i + 1]);
            assert(s.drop_first()[j] == s[j + 1]);
        }
        lemma_key_count_distinct(s.drop_first(), k);
        if s[0].0 == k {
            if assoc_contains(s.drop_first(), k) {
                let i = choose|i: int|
                    0 <= i < s.drop_first().len() && s.drop_first()[i].0 == k;
                assert(s[i + 1] == s.drop_first()[i]);
                assert(false);
            }
        } else {
            if assoc_contains(s, k) {
                let i = choose|i: int| 0 <= i < s.len() && s[i].0 == k;
                assert(s.drop_first()[i - 1] == s[i]);
            }
            if assoc_contains(s.drop_first(), k) {
                let i = choose|i: int|
                    0 <= i < s.drop_first().len() && s.drop_first()[i].0 == k;
                assert(s[i + 1] == s.drop_first()[i]);
            }
        }
    }
}

/// Memoization: over every generation run, the resolved declarations of a
/// well-formed registry carry each name at most once.
pub proof fn lemma_resolved_names_unique(r: &ExternalTypeCollector)
    requires
        r.wf(),
    ensures
        forall|i: int, j: int|
            0 <= i < j < r@.resolved.len() ==> r@.resolved[i].0 != r@.resolved[j].0,
        forall|k: Seq<char>| key_count(r@.resolved, k) <= 1,
{
    assert forall|k: Seq<char>| key_count(r@.resolved, k) <= 1 by {
        lemma_key_count_distinct(r@.resolved, k);
    }
}

/// Cycle safety: resolving a reference to a typed pending definition — even
/// one that references itself, directly or through a chain — leaves exactly
/// one declaration under the referenced name.  That the resolution
/// terminates at all is proved by the `decreases` measure of
/// [`spec_get_type`] and of every executable function: the count of pending
/// names not yet in progress shrinks at each re-entry through the registry.
pub proof fn lemma_reference_resolved_once(c: Ctx, d: Decls, reference: Seq<char>)
    requires
        distinct_keys(d),
        !c.working.contains(spec_strip_ref(reference)),
        spec_get_type(c, d, reference).res is Ok,
        !assoc_contains(d, spec_strip_ref(reference)) ==> (match assoc_lookup(
            c.pending,
            spec_strip_ref(reference),
        ) {
            Option::Some(node) => node is Object,
            Option::None => true,
        }),
    ensures
        assoc_contains(spec_get_type(c, d, reference).decls, spec_strip_ref(reference)),
        distinct_keys(spec_get_type(c, d, reference).decls),
        key_count(spec_get_type(c, d, reference).decls, spec_strip_ref(reference)) == 1,
{
    distinct_after_get_type(c, d, reference);
    let name = spec_strip_ref(reference);
    let out = spec_get_type(c, d, reference);
    if !assoc_contains(d, name) {
        match assoc_lookup(c.pending, name) {
            Option::None => {
                assert(out.res is Err);
            },
            Option::Some(node) => {
                match node {
                    SchemaV::Any => {
                        assert(false);
                    },
                    SchemaV::Object(o) => {
                        let r = crate::model::spec_gen_from_schema(c.enter(name), d, o, name);
                        match r.res {
                            Result::Ok(text) => {
                                assert(out.decls == assoc_insert(r.decls, name, text));
                                lemma_assoc_insert_contains_key(r.decls, name, text);
                            },
                            Result::Err(_) => {
                                assert(out.res is Err);
                            },
                        }
                    },
                }
            },
        }
    }
    lemma_key_count_distinct(out.decls, name);
}

/// An insert leaves the inserted key present.
proof fn lemma_assoc_insert_contains_key<X>(s: Seq<(Seq<char>, X)>, k: Seq<char>, v: X)
    ensures
        assoc_contains(assoc_insert(s, k, v), k),
    decreases s.len(),
{
    let t = assoc_insert(s, k, v);
    if s.len() == 0 {
        assert(t[0].0 == k);
    } else if s[0].0 == k {
        assert(t[0].0 == k);
    } else {
        lemma_assoc_insert_contains_key(s.drop_first(), k, v);
        let i = choose|i: int|
            0 <= i < assoc_insert(s.drop_first(), k, v).len() && assoc_insert(
                s.drop_first(),
                k,
                v,
            )[i].0 == k;
        assert(t[i + 1] == assoc_insert(s.drop_first(), k, v)[i]);
    }
}


/// Optional-union collapsing: a two-branch union of a type and a null
/// marker — in either order — resolves to exactly the optional form of that
/// type's own resolution, with the same declarations registered.
pub proof fn lemma_optional_union(c: Ctx, d: Decls, t: SchemaV, marker: SchemaV, prefix: Seq<char>)
    requires
        spec_is_null_marker(marker),
        !spec_is_null_marker(t),
    ensures
        spec_convert_any(c, d, seq![t, marker], prefix).decls == spec_get_type_from_schema(
            c,
            d,
            t,
            prefix,
        ).decls,
        spec_convert_any(c, d, seq![t, marker], prefix).res == (match spec_get_type_from_schema(
            c,
            d,
            t,
            prefix,
        ).res {
            Result::Ok(n) => Result::<Seq<char>, Error>::Ok(spec_optional(n)),
            Result::Err(e) => Result::<Seq<char>, Error>::Err(e),
        }),
        spec_convert_any(c, d, seq![marker, t], prefix).decls == spec_get_type_from_schema(
            c,
            d,
            t,
            prefix,
        ).decls,
        spec_convert_any(c, d, seq![marker, t], prefix).res == (match spec_get_type_from_schema(
            c,
            d,
            t,
            prefix,
        ).res {
            Result::Ok(n) => Result::<Seq<char>, Error>::Ok(spec_optional(n)),
            Result::Err(e) => Result::<Seq<char>, Error>::Err(e),
        }),
{
    let v1 = seq![t, marker];
    let v2 = seq![marker, t];
    assert(v1.len() == 2 && v1[0] == t && v1[1] == marker);
    assert(v2.len() == 2 && v2[0] == marker && v2[1] == t);
}

/// The texts of an all-string literal list are exactly the literals' own
/// texts, in order.
pub proof fn lemma_literal_strings_texts(lits: Seq<crate::schema::LitV>, names: Seq<Seq<char>>)
    requires
        spec_literal_strings(lits) == Result::<Seq<Seq<char>>, Error>::Ok(names),
    ensures
        names.len() == lits.len(),
        forall|i: int| 0 <= i < lits.len() ==> lits[i] == crate::schema::LitV::Str(names[i]),
    decreases lits.len(),
{
    if lits.len() > 0 {
        match lits[0] {
            crate::schema::LitV::Str(s) => {
                match spec_literal_strings(lits.drop_first()) {
                    Result::Ok(rest) => {
                        lemma_literal_strings_texts(lits.drop_first(), rest);
                        assert(names == seq![s] + rest);
                        assert forall|i: int|
                            0 <= i < lits.len() implies lits[i] == crate::schema::LitV::Str(
                            names[i],
                        ) by {
                            if i > 0 {
                                assert(lits.drop_first()[i - 1] == lits[i]);
                                assert(names[i] == rest[i - 1]);
                            }
                        }
                    },
                    Result::Err(_) => {
                        assert(false);
                    },
                }
            },
            crate::schema::LitV::Other => {
                assert(false);
            },
        }
    }
}

/// Simple-enumeration shape: a node whose literals are all strings becomes a
/// sum type whose body lists exactly one nullary variant per literal, named
/// after its text, in the original order, and registers no declaration.
pub proof fn lemma_simple_enum(
    c: Ctx,
    d: Decls,
    o: SchemaObjectV,
    name: Seq<char>,
    prefix: Seq<char>,
    names: Seq<Seq<char>>,
)
    requires
        o.any_of is None,
        o.enum_values is Some,
        spec_literal_strings(o.enum_values->0) == Result::<Seq<Seq<char>>, Error>::Ok(names),
    ensures
        spec_gen_enum(c, d, o, Option::Some(name), prefix).decls == d,
        spec_gen_enum(c, d, o, Option::Some(name), prefix).res == Result::<Seq<char>, Error>::Ok(
            spec_header(name) + "\n"@ + "    | "@ + spec_join(names, "\n    | "@),
        ),
        names.len() == (o.enum_values->0).len(),
        forall|i: int|
            0 <= i < names.len() ==> (o.enum_values->0)[i] == crate::schema::LitV::Str(names[i]),
{
    lemma_literal_strings_texts(o.enum_values->0, names);
    let body = "    | "@ + spec_join(names, "\n    | "@);
    assert(spec_header(name) + "\n"@ + body =~= spec_header(name) + "\n"@ + "    | "@
        + spec_join(names, "\n    | "@));
}


// Every resolution step preserves distinctness of the resolved names: the
// only way a step changes the declarations is through the insertion-ordered
// insert, which keeps existing keys in place.  The induction follows the
// same termination measure as the spec functions themselves.

pub proof fn distinct_after_get_type(c: Ctx, d: Decls, reference: Seq<char>)
    requires
        distinct_keys(d),
    ensures
        distinct_keys(spec_get_type(c, d, reference).decls),
    decreases ctx_free(c), 0nat, 2nat, 0nat,
{
    let name = spec_strip_ref(reference);
    if !c.working.contains(name) && !assoc_contains(d, name) {
        match assoc_lookup(c.pending, name) {
            Option::None => {},
            Option::Some(node) => {
                lemma_assoc_lookup_contains(c.pending, name);
                lemma_free_count_enter(c.pending, c.working, name);
                distinct_after_gen_type_and_insert(c.enter(name), d, name, node);
            },
        }
    }
}

pub proof fn distinct_after_gen_type_and_insert(
    c: Ctx,
    d: Decls,
    reference: Seq<char>,
    node: SchemaV,
)
    requires
        distinct_keys(d),
    ensures
        distinct_keys(spec_gen_type_and_insert(c, d, reference, node).decls),
    decreases ctx_free(c), schema_size(node), 10nat, 0nat,
{
    match node {
        SchemaV::Any => {},
        SchemaV::Object(o) => {
            distinct_after_gen_from_schema(c, d, o, reference);
            let r = spec_gen_from_schema(c, d, o, reference);
            match r.res {
                Result::Ok(text) => {
                    lemma_assoc_insert_distinct(r.decls, reference, text);
                },
                Result::Err(_) => {},
            }
        },
    }
}

pub proof fn distinct_after_gen_from_schema(c: Ctx, d: Decls, o: SchemaObjectV, name: Seq<char>)
    requires
        distinct_keys(d),
    ensures
        distinct_keys(spec_gen_from_schema(c, d, o, name).decls),
    decreases ctx_free(c), obj_size(o), 9nat, 0nat,
{
    if o.properties is None {
        distinct_after_gen_enum(c, d, o, Option::Some(name), name);
    } else {
        distinct_after_gen_object_from_schema_object(c, d, o, name);
    }
}

pub proof fn distinct_after_gen_object_from_schema_object(
    c: Ctx,
    d: Decls,
    o: SchemaObjectV,
    name: Seq<char>,
)
    requires
        distinct_keys(d),
    ensures
        distinct_keys(spec_gen_object_from_schema_object(c, d, o, name).decls),
    decreases ctx_free(c), obj_size(o), 8nat, 0nat,
{
    match o.properties {
        Option::None => {},
        Option::Some(props) => {
            distinct_after_gen_full_object(c, d, props, name);
        },
    }
}

pub proof fn distinct_after_gen_full_object(c: Ctx, d: Decls, props: Seq<PropV>, name: Seq<char>)
    requires
        distinct_keys(d),
    ensures
        distinct_keys(spec_gen_full_object(c, d, props, name).decls),
    decreases ctx_free(c), props_size(props), 9nat, 0nat,
{
    distinct_after_get_object_body(c, d, props, name);
}

pub proof fn distinct_after_get_object_body(c: Ctx, d: Decls, props: Seq<PropV>, prefix: Seq<char>)
    requires
        distinct_keys(d),
    ensures
        distinct_keys(spec_get_object_body(c, d, props, prefix).decls),
    decreases ctx_free(c), props_size(props), 8nat, 0nat,
{
    distinct_after_get_object_parts(c, d, props, prefix);
}

pub proof fn distinct_after_get_object_parts(
    c: Ctx,
    d: Decls,
    props: Seq<PropV>,
    prefix: Seq<char>,
)
    requires
        distinct_keys(d),
    ensures
        distinct_keys(spec_get_object_parts(c, d, props, prefix).decls),
    decreases ctx_free(c), props_size(props), 7nat, 0nat,
{
    if props.len() > 0 {
        distinct_after_get_type_from_schema(c, d, props[0].value, prefix + props[0].name);
        let r1 = spec_get_type_from_schema(c, d, props[0].value, prefix + props[0].name);
        if r1.res is Ok {
            distinct_after_get_object_parts(c, r1.decls, props.drop_first(), prefix);
        }
    }
}

pub proof fn distinct_after_get_type_from_schema(c: Ctx, d: Decls, s: SchemaV, prefix: Seq<char>)
    requires
        distinct_keys(d),
    ensures
        distinct_keys(spec_get_type_from_schema(c, d, s, prefix).decls),
    decreases ctx_free(c), schema_size(s), 5nat, 0nat,
{
    match s {
        SchemaV::Any => {},
        SchemaV::Object(o) => {
            if o.instance_type is Some {
                distinct_after_build_in(c, d, o, prefix);
            } else if o.reference is Some {
                distinct_after_get_type(c, d, o.reference->0);
            } else {
                match o.any_of {
                    Option::Some(v) => {
                        distinct_after_convert_any(c, d, v, prefix);
                    },
                    Option::None => {},
                }
            }
        },
    }
}

pub proof fn distinct_after_convert_any(c: Ctx, d: Decls, v: Seq<SchemaV>, prefix: Seq<char>)
    requires
        distinct_keys(d),
    ensures
        distinct_keys(spec_convert_any(c, d, v, prefix).decls),
    decreases ctx_free(c), schemas_size(v), 6nat, 0nat,
{
    if v.len() == 2 {
        if spec_is_null_marker(v[0]) != spec_is_null_marker(v[1]) {
            let other = if spec_is_null_marker(v[0]) {
                v[1]
            } else {
                v[0]
            };
            distinct_after_get_type_from_schema(c, d, other, prefix);
        } else {
            distinct_after_resolve_each(c, d, v, prefix);
        }
    }
}

pub proof fn distinct_after_resolve_each(c: Ctx, d: Decls, v: Seq<SchemaV>, prefix: Seq<char>)
    requires
        distinct_keys(d),
    ensures
        distinct_keys(spec_resolve_each(c, d, v, prefix).decls),
    decreases ctx_free(c), schemas_size(v), 5nat, 0nat,
{
    if v.len() > 0 {
        distinct_after_get_type_from_schema(c, d, v[0], prefix);
        let r1 = spec_get_type_from_schema(c, d, v[0], prefix);
        if r1.res is Ok {
            distinct_after_resolve_each(c, r1.decls, v.drop_first(), prefix);
        }
    }
}

pub proof fn distinct_after_build_in(c: Ctx, d: Decls, o: SchemaObjectV, prefix: Seq<char>)
    requires
        distinct_keys(d),
    ensures
        distinct_keys(spec_build_in(c, d, o, prefix).decls),
    decreases ctx_free(c), obj_size(o), 4nat, 0nat,
{
    match o.instance_type {
        Option::None => {},
        Option::Some(kinds) => {
            if kinds.len() == 1 {
                distinct_after_singular(c, d, kinds[0], o, prefix);
            } else {
                distinct_after_multiple(c, d, kinds, o, prefix);
            }
        },
    }
}

pub proof fn distinct_after_multiple(
    c: Ctx,
    d: Decls,
    kinds: Seq<InstanceType>,
    o: SchemaObjectV,
    prefix: Seq<char>,
)
    requires
        distinct_keys(d),
    ensures
        distinct_keys(spec_multiple(c, d, kinds, o, prefix).decls),
    decreases ctx_free(c), obj_size(o), 3nat, 0nat,
{
    if kinds.len() == 2 && (kinds[0] == InstanceType::Null) != (kinds[1] == InstanceType::Null) {
        let nonnull = if kinds[0] == InstanceType::Null {
            kinds[1]
        } else {
            kinds[0]
        };
        distinct_after_singular(c, d, nonnull, o, prefix);
    } else {
        distinct_after_kinds_concat(c, d, kinds, o, prefix);
    }
}

pub proof fn distinct_after_kinds_concat(
    c: Ctx,
    d: Decls,
    kinds: Seq<InstanceType>,
    o: SchemaObjectV,
    prefix: Seq<char>,
)
    requires
        distinct_keys(d),
    ensures
        distinct_keys(spec_kinds_concat(c, d, kinds, o, prefix).decls),
    decreases ctx_free(c), obj_size(o), 2nat, kinds.len(),
{
    if kinds.len() > 0 {
        distinct_after_singular(c, d, kinds[0], o, prefix);
        let r1 = spec_singular(c, d, kinds[0], o, prefix);
        if r1.res is Ok {
            distinct_after_kinds_concat(c, r1.decls, kinds.drop_first(), o, prefix);
        }
    }
}

pub proof fn distinct_after_singular(
    c: Ctx,
    d: Decls,
    k: InstanceType,
    o: SchemaObjectV,
    prefix: Seq<char>,
)
    requires
        distinct_keys(d),
    ensures
        distinct_keys(spec_singular(c, d, k, o, prefix).decls),
    decreases ctx_free(c), obj_size(o), 1nat, 0nat,
{
    match k {
        InstanceType::Object => {
            match o.properties {
                Option::Some(props) => {
                    distinct_after_add_unnamed(c, d, prefix, props);
                },
                Option::None => {},
            }
        },
        InstanceType::Array => {
            match o.items {
                Option::None => {},
                Option::Some(ItemsV::Single(b)) => {
                    distinct_after_get_type_from_schema(c, d, *b, prefix);
                },
                Option::Some(ItemsV::Multiple(v)) => {
                    distinct_after_resolve_each(c, d, v, prefix);
                },
            }
        },
        _ => {},
    }
}

pub proof fn distinct_after_add_unnamed(c: Ctx, d: Decls, prefix: Seq<char>, props: Seq<PropV>)
    requires
        distinct_keys(d),
    ensures
        distinct_keys(spec_add_unnamed(c, d, prefix, props).decls),
    decreases ctx_free(c), props_size(props), 10nat, 0nat,
{
    distinct_after_gen_full_object(c, d, props, prefix);
    let r = spec_gen_full_object(c, d, props, prefix);
    match r.res {
        Result::Ok(text) => {
            lemma_assoc_insert_distinct(r.decls, prefix, text);
        },
        Result::Err(_) => {},
    }
}

pub proof fn distinct_after_enum_variants(c: Ctx, d: Decls, alts: Seq<SchemaV>, prefix: Seq<char>)
    requires
        distinct_keys(d),
    ensures
        distinct_keys(spec_enum_variants(c, d, alts, prefix).decls),
    decreases ctx_free(c), schemas_size(alts), 7nat, 0nat,
{
    if alts.len() > 0 {
        match alts[0] {
            SchemaV::Any => {},
            SchemaV::Object(z) => match z.properties {
                Option::Some(props) => if props.len() == 1 {
                    assert(schema_size(props[0].value) < props_size(props));
                    assert(props_size(props) < obj_size(z));
                    assert(obj_size(z) < schema_size(alts[0]));
                    assert(schema_size(alts[0]) < schemas_size(alts));
                    distinct_after_get_type_from_schema(
                        c,
                        d,
                        props[0].value,
                        prefix + props[0].name,
                    );
                },
                Option::None => {},
            },
        }
        distinct_after_enum_variants(
            c,
            spec_head_outcome(c, d, alts[0], prefix),
            alts.drop_first(),
            prefix,
        );
    }
}

/// The declarations after one union branch of the variant walk.
spec fn spec_head_outcome(c: Ctx, d: Decls, alt: SchemaV, prefix: Seq<char>) -> Decls {
    match alt {
        SchemaV::Any => d,
        SchemaV::Object(z) => match z.properties {
            Option::Some(props) => if props.len() == 1 {
                spec_get_type_from_schema(c, d, props[0].value, prefix + props[0].name).decls
            } else {
                d
            },
            Option::None => d,
        },
    }
}

pub proof fn distinct_after_gen_enum(
    c: Ctx,
    d: Decls,
    o: SchemaObjectV,
    name_overwrite: Option<Seq<char>>,
    prefix: Seq<char>,
)
    requires
        distinct_keys(d),
    ensures
        distinct_keys(spec_gen_enum(c, d, o, name_overwrite, prefix).decls),
    decreases ctx_free(c), obj_size(o), 8nat, 0nat,
{
    let hr = match name_overwrite {
        Option::Some(_) => d,
        Option::None => match o.instance_type {
            Option::Some(_) => {
                distinct_after_build_in(c, d, o, prefix);
                spec_build_in(c, d, o, prefix).decls
            },
            Option::None => d,
        },
    };
    assert(distinct_keys(hr));
    match o.any_of {
        Option::Some(alts) => {
            distinct_after_enum_variants(c, hr, alts, prefix);
        },
        Option::None => {},
    }
}

/// Distinctness is preserved by a whole generation run, and by the root
/// naming step.
pub proof fn distinct_after_gen(m: RegModel, root: RootV)
    requires
        distinct_keys(m.resolved),
    ensures
        distinct_keys(spec_gen(m, root).0.resolved),
{
    distinct_after_get_name(m.ctx, m.resolved, root.schema);
    let nm = spec_get_name(m.ctx, m.resolved, root.schema);
    match nm.res {
        Result::Err(_) => {},
        Result::Ok(name) => {
            let c2 = Ctx {
                pending: crate::registry::spec_add_pending(m.ctx.pending, root.definitions),
                working: m.ctx.working,
            };
            distinct_after_gen_from_schema(c2, nm.decls, root.schema, name);
        },
    }
}

pub proof fn distinct_after_get_name(c: Ctx, d: Decls, o: SchemaObjectV)
    requires
        distinct_keys(d),
    ensures
        distinct_keys(spec_get_name(c, d, o).decls),
{
    match o.title {
        Option::Some(_) => {},
        Option::None => match o.instance_type {
            Option::Some(_) => {
                distinct_after_build_in(c, d, o, Seq::empty());
            },
            Option::None => {},
        },
    }
}

} // verus!
