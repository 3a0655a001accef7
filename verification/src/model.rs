//! The mathematical semantics of the translation: one spec function per step
//! of the recursive descent.  Each takes the recursion context (the pending
//! definitions and the in-progress names, which a step never changes) and the
//! declarations resolved so far, and returns the declarations afterwards
//! together with the produced text or the error.
//!
//! Every executable function of the translation is proved equal to its spec
//! function here.  The termination measure is the lexicographic tuple
//! (unresolved pending names, node size, rank, list position): a descent into
//! a node shrinks the node size, and a re-entry through a reference shrinks
//! the count of pending names not yet in progress.

use vstd::prelude::*;

use crate::error::Error;
use crate::registry::{
    assoc_contains, assoc_insert, assoc_lookup, ctx_free, Ctx, RegModel,
};
use crate::registry::spec_add_pending;
use crate::schema::{
    obj_size, props_size, schema_size, schemas_size, InstanceType, ItemsV, LitV, PropV, RootV,
    SchemaObjectV, SchemaV,
};
use crate::schema::{lemma_props_size_elem, lemma_schemas_size_elem};
use crate::registry::{lemma_assoc_lookup_contains, lemma_free_count_enter};

verus! {

broadcast use crate::schema::lemma_props_size_elem, crate::schema::lemma_schemas_size_elem,
    crate::schema::lemma_props_size_split, crate::schema::lemma_schemas_size_split;

/// The declarations resolved so far: name-text pairs in first-resolution
/// order.
pub type Decls = Seq<(Seq<char>, Seq<char>)>;

/// What one resolution step leaves behind: the declarations afterwards and
/// the step's own result.
pub struct Outcome<T> {
    pub decls: Decls,
    pub res: Result<T, Error>,
}

// The pure text forms.

/// The reference prefix that is stripped to obtain a bare definition name.
pub open spec fn ref_prefix() -> Seq<char> {
    "#/definitions/"@
}

/// The bare name of a reference: the text after the definitions prefix, or
/// the reference itself if it does not extend that prefix.
pub open spec fn spec_strip_ref(s: Seq<char>) -> Seq<char> {
    if s.len() > ref_prefix().len() && s.subrange(0, ref_prefix().len() as int) == ref_prefix() {
        s.skip(ref_prefix().len() as int)
    } else {
        s
    }
}

/// The header of every declaration.
pub open spec fn spec_header(name: Seq<char>) -> Seq<char> {
    "type "@ + name + " = \n"@
}

/// The optional form of a type name.
pub open spec fn spec_optional(t: Seq<char>) -> Seq<char> {
    "option<"@ + t + ">"@
}

/// The pieces joined with a separator between neighbours.
pub open spec fn spec_join(items: Seq<Seq<char>>, sep: Seq<char>) -> Seq<char>
    decreases items.len(),
{
    if items.len() == 0 {
        Seq::empty()
    } else if items.len() == 1 {
        items[0]
    } else {
        items[0] + sep + spec_join(items.drop_first(), sep)
    }
}

/// The literal texts of an enumeration, or the error if one is not a string.
pub open spec fn spec_literal_strings(lits: Seq<LitV>) -> Result<Seq<Seq<char>>, Error>
    decreases lits.len(),
{
    if lits.len() == 0 {
        Result::Ok(Seq::empty())
    } else {
        match lits[0] {
            LitV::Str(s) => match spec_literal_strings(lits.drop_first()) {
                Result::Ok(rest) => Result::Ok(seq![s] + rest),
                Result::Err(e) => Result::Err(e),
            },
            LitV::Other => Result::Err(Error::SimpleEnumNotSimple),
        }
    }
}

/// The body of a simple enumeration: one nullary variant per literal, in
/// order.
pub open spec fn spec_simple_enum_body(lits: Seq<LitV>) -> Result<Seq<char>, Error> {
    match spec_literal_strings(lits) {
        Result::Ok(names) => Result::Ok("    | "@ + spec_join(names, "\n    | "@)),
        Result::Err(e) => Result::Err(e),
    }
}

/// One field line of a product-type body.
pub open spec fn spec_field_line(name: Seq<char>, t: Seq<char>) -> Seq<char> {
    "        "@ + name + " : "@ + t
}

/// The field lines of a product-type body, in field order.
pub open spec fn spec_field_lines(parts: Seq<(Seq<char>, Seq<char>)>) -> Seq<Seq<char>>
    decreases parts.len(),
{
    if parts.len() == 0 {
        Seq::empty()
    } else {
        seq![spec_field_line(parts[0].0, parts[0].1)] + spec_field_lines(parts.drop_first())
    }
}

/// The full text of a product-type declaration.
pub open spec fn spec_object_text(name: Seq<char>, body: Seq<char>) -> Seq<char> {
    spec_header(name) + "    {\n"@ + body + "\n    }"@
}

/// Whether a union branch stands for the absent value: the permissive
/// placeholder, or a typed node whose sole instance kind is `Null`.
pub open spec fn spec_is_null_marker(s: SchemaV) -> bool {
    match s {
        SchemaV::Any => true,
        SchemaV::Object(o) => o.instance_type == Option::Some(seq![InstanceType::Null]),
    }
}

// The recursive descent itself.

/// Resolving a reference: strip the prefix; a name already in progress or
/// already resolved is returned as is (this breaks cycles and memoizes); a
/// pending name is resolved, its declaration recorded under the name; any
/// other name is an error.
pub open spec fn spec_get_type(c: Ctx, d: Decls, reference: Seq<char>) -> Outcome<Seq<char>>
    decreases ctx_free(c), 0nat, 2nat, 0nat,
    via spec_get_type_dec
{
    let name = spec_strip_ref(reference);
    if c.working.contains(name) {
        Outcome { decls: d, res: Result::Ok(name) }
    } else if assoc_contains(d, name) {
        Outcome { decls: d, res: Result::Ok(name) }
    } else {
        match assoc_lookup(c.pending, name) {
            Option::None => Outcome { decls: d, res: Result::Err(Error::ExternalTypeNotAvailable) },
            Option::Some(node) => spec_gen_type_and_insert(c.enter(name), d, name, node),
        }
    }
}

#[via_fn]
proof fn spec_get_type_dec(c: Ctx, d: Decls, reference: Seq<char>) {
    let name = spec_strip_ref(reference);
    if !c.working.contains(name) && !assoc_contains(d, name) {
        lemma_assoc_lookup_contains(c.pending, name);
        if assoc_lookup(c.pending, name) is Some {
            lemma_free_count_enter(c.pending, c.working, name);
        }
    }
}

/// Resolving one pending definition: a placeholder definition yields its
/// name with no declaration recorded; a typed node's declaration is
/// generated and recorded under the name.
pub open spec fn spec_gen_type_and_insert(
    c: Ctx,
    d: Decls,
    reference: Seq<char>,
    node: SchemaV,
) -> Outcome<Seq<char>>
    decreases ctx_free(c), schema_size(node), 10nat, 0nat,
{
    match node {
        SchemaV::Any => Outcome { decls: d, res: Result::Ok(reference) },
        SchemaV::Object(o) => {
            let r = spec_gen_from_schema(c, d, o, reference);
            match r.res {
                Result::Ok(text) => Outcome {
                    decls: assoc_insert(r.decls, reference, text),
                    res: Result::Ok(reference),
                },
                Result::Err(e) => Outcome { decls: r.decls, res: Result::Err(e) },
            }
        },
    }
}

/// Classification: a node without an object part is enum/union-shaped, one
/// with an object part is a product type.
pub open spec fn spec_gen_from_schema(
    c: Ctx,
    d: Decls,
    o: SchemaObjectV,
    name: Seq<char>,
) -> Outcome<Seq<char>>
    decreases ctx_free(c), obj_size(o), 9nat, 0nat,
{
    if o.properties is None {
        spec_gen_enum(c, d, o, Option::Some(name), name)
    } else {
        spec_gen_object_from_schema_object(c, d, o, name)
    }
}

pub open spec fn spec_gen_object_from_schema_object(
    c: Ctx,
    d: Decls,
    o: SchemaObjectV,
    name: Seq<char>,
) -> Outcome<Seq<char>>
    decreases ctx_free(c), obj_size(o), 8nat, 0nat,
{
    match o.properties {
        Option::None => Outcome { decls: d, res: Result::Err(Error::NoObjectPartFound) },
        Option::Some(props) => spec_gen_full_object(c, d, props, name),
    }
}

/// A product-type declaration: header plus one line per field.
pub open spec fn spec_gen_full_object(
    c: Ctx,
    d: Decls,
    props: Seq<PropV>,
    name: Seq<char>,
) -> Outcome<Seq<char>>
    decreases ctx_free(c), props_size(props), 9nat, 0nat,
{
    let r = spec_get_object_body(c, d, props, name);
    match r.res {
        Result::Ok(body) => Outcome {
            decls: r.decls,
            res: Result::Ok(spec_object_text(name, body)),
        },
        Result::Err(e) => Outcome { decls: r.decls, res: Result::Err(e) },
    }
}

pub open spec fn spec_get_object_body(
    c: Ctx,
    d: Decls,
    props: Seq<PropV>,
    prefix: Seq<char>,
) -> Outcome<Seq<char>>
    decreases ctx_free(c), props_size(props), 8nat, 0nat,
{
    let r = spec_get_object_parts(c, d, props, prefix);
    match r.res {
        Result::Ok(parts) => Outcome {
            decls: r.decls,
            res: Result::Ok(spec_join(spec_field_lines(parts), "\n"@)),
        },
        Result::Err(e) => Outcome { decls: r.decls, res: Result::Err(e) },
    }
}

/// Each field resolved to its type name, in field order.  A field's own
/// resolution runs under the prefix extended with the field's name, so an
/// anonymous nested structure is registered as `<prefix><field>`.
pub open spec fn spec_get_object_parts(
    c: Ctx,
    d: Decls,
    props: Seq<PropV>,
    prefix: Seq<char>,
) -> Outcome<Seq<(Seq<char>, Seq<char>)>>
    decreases ctx_free(c), props_size(props), 7nat, 0nat,
{
    if props.len() == 0 {
        Outcome { decls: d, res: Result::Ok(Seq::empty()) }
    } else {
        let r1 = spec_get_type_from_schema(c, d, props[0].value, prefix + props[0].name);
        match r1.res {
            Result::Err(e) => Outcome { decls: r1.decls, res: Result::Err(e) },
            Result::Ok(t) => {
                let r2 = spec_get_object_parts(c, r1.decls, props.drop_first(), prefix);
                match r2.res {
                    Result::Err(e) => Outcome { decls: r2.decls, res: Result::Err(e) },
                    Result::Ok(rest) => Outcome {
                        decls: r2.decls,
                        res: Result::Ok(seq![(props[0].name, t)] + rest),
                    },
                }
            },
        }
    }
}

/// The type name of one node in field position: by declared instance kinds,
/// else by reference, else as a two-branch union, else an error.  The
/// permissive placeholder names no real type here.
pub open spec fn spec_get_type_from_schema(
    c: Ctx,
    d: Decls,
    s: SchemaV,
    prefix: Seq<char>,
) -> Outcome<Seq<char>>
    decreases ctx_free(c), schema_size(s), 5nat, 0nat,
{
    match s {
        SchemaV::Any => Outcome { decls: d, res: Result::Err(Error::TypeIsNoRealType) },
        SchemaV::Object(o) => {
            if o.instance_type is Some {
                spec_build_in(c, d, o, prefix)
            } else if o.reference is Some {
                spec_get_type(c, d, o.reference->0)
            } else {
                match o.any_of {
                    Option::Some(v) => spec_convert_any(c, d, v, prefix),
                    Option::None => Outcome { decls: d, res: Result::Err(Error::NoTypeSet) },
                }
            }
        },
    }
}

/// A two-branch union: with exactly one null-marker branch the other branch
/// becomes optional; otherwise every branch is resolved into a placeholder
/// multi-branch form.  A union of any other width is an error here.
pub open spec fn spec_convert_any(
    c: Ctx,
    d: Decls,
    v: Seq<SchemaV>,
    prefix: Seq<char>,
) -> Outcome<Seq<char>>
    decreases ctx_free(c), schemas_size(v), 6nat, 0nat,
{
    if v.len() == 2 {
        let first_null = spec_is_null_marker(v[0]);
        let second_null = spec_is_null_marker(v[1]);
        if first_null != second_null {
            let other = if first_null {
                v[1]
            } else {
                v[0]
            };
            let r = spec_get_type_from_schema(c, d, other, prefix);
            match r.res {
                Result::Ok(t) => Outcome { decls: r.decls, res: Result::Ok(spec_optional(t)) },
                Result::Err(e) => Outcome { decls: r.decls, res: Result::Err(e) },
            }
        } else {
            let r = spec_resolve_each(c, d, v, prefix);
            match r.res {
                Result::Ok(ts) => Outcome {
                    decls: r.decls,
                    res: Result::Ok("result<"@ + spec_join(ts, ","@) + ">"@),
                },
                Result::Err(e) => Outcome { decls: r.decls, res: Result::Err(e) },
            }
        }
    } else {
        Outcome { decls: d, res: Result::Err(Error::NoNameForType) }
    }
}

/// Each node of a list resolved to its type name, in order, stopping at the
/// first failure.
pub open spec fn spec_resolve_each(
    c: Ctx,
    d: Decls,
    v: Seq<SchemaV>,
    prefix: Seq<char>,
) -> Outcome<Seq<Seq<char>>>
    decreases ctx_free(c), schemas_size(v), 5nat, 0nat,
{
    if v.len() == 0 {
        Outcome { decls: d, res: Result::Ok(Seq::empty()) }
    } else {
        let r1 = spec_get_type_from_schema(c, d, v[0], prefix);
        match r1.res {
            Result::Err(e) => Outcome { decls: r1.decls, res: Result::Err(e) },
            Result::Ok(t) => {
                let r2 = spec_resolve_each(c, r1.decls, v.drop_first(), prefix);
                match r2.res {
                    Result::Err(e) => Outcome { decls: r2.decls, res: Result::Err(e) },
                    Result::Ok(rest) => Outcome {
                        decls: r2.decls,
                        res: Result::Ok(seq![t] + rest),
                    },
                }
            },
        }
    }
}

/// The name of a node by its declared instance kinds.
pub open spec fn spec_build_in(
    c: Ctx,
    d: Decls,
    o: SchemaObjectV,
    prefix: Seq<char>,
) -> Outcome<Seq<char>>
    decreases ctx_free(c), obj_size(o), 4nat, 0nat,
{
    match o.instance_type {
        Option::None => Outcome { decls: d, res: Result::Err(Error::NoTypeSet) },
        Option::Some(kinds) => if kinds.len() == 1 {
            spec_singular(c, d, kinds[0], o, prefix)
        } else {
            spec_multiple(c, d, kinds, o, prefix)
        },
    }
}

/// Several declared kinds: the pair of one real kind and `Null` becomes the
/// optional form of the real kind; any other list is the concatenation of
/// the single-kind names.
pub open spec fn spec_multiple(
    c: Ctx,
    d: Decls,
    kinds: Seq<InstanceType>,
    o: SchemaObjectV,
    prefix: Seq<char>,
) -> Outcome<Seq<char>>
    decreases ctx_free(c), obj_size(o), 3nat, 0nat,
{
    if kinds.len() == 2 && (kinds[0] == InstanceType::Null) != (kinds[1] == InstanceType::Null) {
        let nonnull = if kinds[0] == InstanceType::Null {
            kinds[1]
        } else {
            kinds[0]
        };
        let r = spec_singular(c, d, nonnull, o, prefix);
        match r.res {
            Result::Ok(t) => Outcome { decls: r.decls, res: Result::Ok(spec_optional(t)) },
            Result::Err(e) => Outcome { decls: r.decls, res: Result::Err(e) },
        }
    } else {
        spec_kinds_concat(c, d, kinds, o, prefix)
    }
}

/// The single-kind names of a kind list, concatenated in order.
pub open spec fn spec_kinds_concat(
    c: Ctx,
    d: Decls,
    kinds: Seq<InstanceType>,
    o: SchemaObjectV,
    prefix: Seq<char>,
) -> Outcome<Seq<char>>
    decreases ctx_free(c), obj_size(o), 2nat, kinds.len(),
{
    if kinds.len() == 0 {
        Outcome { decls: d, res: Result::Ok(Seq::empty()) }
    } else {
        let r1 = spec_singular(c, d, kinds[0], o, prefix);
        match r1.res {
            Result::Err(e) => Outcome { decls: r1.decls, res: Result::Err(e) },
            Result::Ok(t) => {
                let r2 = spec_kinds_concat(c, r1.decls, kinds.drop_first(), o, prefix);
                match r2.res {
                    Result::Err(e) => Outcome { decls: r2.decls, res: Result::Err(e) },
                    Result::Ok(rest) => Outcome { decls: r2.decls, res: Result::Ok(t + rest) },
                }
            },
        }
    }
}

/// The name of one declared kind.  An `Object` kind with an object part
/// registers that part as an anonymous declaration under the prefix; an
/// `Array` kind resolves its element schemas.
pub open spec fn spec_singular(
    c: Ctx,
    d: Decls,
    k: InstanceType,
    o: SchemaObjectV,
    prefix: Seq<char>,
) -> Outcome<Seq<char>>
    decreases ctx_free(c), obj_size(o), 1nat, 0nat,
{
    match k {
        InstanceType::Null => Outcome { decls: d, res: Result::Ok("unit"@) },
        InstanceType::Boolean => Outcome { decls: d, res: Result::Ok("bool"@) },
        InstanceType::Number => Outcome { decls: d, res: Result::Ok("float"@) },
        InstanceType::Str => Outcome { decls: d, res: Result::Ok("string"@) },
        InstanceType::Integer => Outcome { decls: d, res: Result::Ok("int"@) },
        InstanceType::Object => match o.properties {
            Option::Some(props) => {
                let r = spec_add_unnamed(c, d, prefix, props);
                match r.res {
                    Result::Ok(_) => Outcome { decls: r.decls, res: Result::Ok(prefix) },
                    Result::Err(e) => Outcome { decls: r.decls, res: Result::Err(e) },
                }
            },
            Option::None => Outcome { decls: d, res: Result::Ok("object"@) },
        },
        InstanceType::Array => match o.items {
            Option::None => Outcome { decls: d, res: Result::Ok("object[]"@) },
            Option::Some(ItemsV::Single(b)) => {
                let r = spec_get_type_from_schema(c, d, *b, prefix);
                match r.res {
                    Result::Ok(t) => Outcome { decls: r.decls, res: Result::Ok(t + "[]"@) },
                    Result::Err(e) => Outcome { decls: r.decls, res: Result::Err(e) },
                }
            },
            Option::Some(ItemsV::Multiple(v)) => {
                let r = spec_resolve_each(c, d, v, prefix);
                match r.res {
                    Result::Ok(ts) => Outcome {
                        decls: r.decls,
                        res: Result::Ok(spec_join(ts, " * "@)),
                    },
                    Result::Err(e) => Outcome { decls: r.decls, res: Result::Err(e) },
                }
            },
        },
    }
}

/// An anonymous object part registered as an independent declaration under
/// the naming prefix.
pub open spec fn spec_add_unnamed(
    c: Ctx,
    d: Decls,
    prefix: Seq<char>,
    props: Seq<PropV>,
) -> Outcome<()>
    decreases ctx_free(c), props_size(props), 10nat, 0nat,
{
    let r = spec_gen_full_object(c, d, props, prefix);
    match r.res {
        Result::Ok(text) => Outcome {
            decls: assoc_insert(r.decls, prefix, text),
            res: Result::Ok(()),
        },
        Result::Err(e) => Outcome { decls: r.decls, res: Result::Err(e) },
    }
}

/// The nullary-variant fallback of a union branch without a single-field
/// object part: its literal values, if any.
pub open spec fn spec_variant_fallback(z: SchemaObjectV) -> Result<Seq<char>, Error> {
    match z.enum_values {
        Option::Some(lits) => match spec_simple_enum_body(lits) {
            Result::Ok(b) => Result::Ok(b + "\n"@),
            Result::Err(e) => Result::Err(e),
        },
        Option::None => Result::Err(Error::NoNameForType),
    }
}

/// The variant lines of a tagged union, concatenated in branch order.  A
/// branch with a single-field object part becomes `| field of Type`; a
/// branch with literal values contributes nullary variants; any other
/// branch is an error.
pub open spec fn spec_enum_variants(
    c: Ctx,
    d: Decls,
    alts: Seq<SchemaV>,
    prefix: Seq<char>,
) -> Outcome<Seq<char>>
    decreases ctx_free(c), schemas_size(alts), 7nat, 0nat,
    via spec_enum_variants_dec
{
    if alts.len() == 0 {
        Outcome { decls: d, res: Result::Ok(Seq::empty()) }
    } else {
        let head = match alts[0] {
            SchemaV::Any => Outcome { decls: d, res: Result::Err(Error::NoNameForType) },
            SchemaV::Object(z) => match z.properties {
                Option::Some(props) => if props.len() == 1 {
                    let r = spec_get_type_from_schema(c, d, props[0].value, prefix
                        + props[0].name);
                    match r.res {
                        Result::Ok(t) => Outcome {
                            decls: r.decls,
                            res: Result::Ok(
                                "    | "@ + props[0].name + " of "@ + t + "\n"@,
                            ),
                        },
                        Result::Err(e) => Outcome { decls: r.decls, res: Result::Err(e) },
                    }
                } else {
                    Outcome { decls: d, res: spec_variant_fallback(z) }
                },
                Option::None => Outcome { decls: d, res: spec_variant_fallback(z) },
            },
        };
        match head.res {
            Result::Err(e) => Outcome { decls: head.decls, res: Result::Err(e) },
            Result::Ok(line) => {
                let rest = spec_enum_variants(c, head.decls, alts.drop_first(), prefix);
                match rest.res {
                    Result::Err(e) => Outcome { decls: rest.decls, res: Result::Err(e) },
                    Result::Ok(more) => Outcome {
                        decls: rest.decls,
                        res: Result::Ok(line + more),
                    },
                }
            },
        }
    }
}

#[via_fn]
proof fn spec_enum_variants_dec(c: Ctx, d: Decls, alts: Seq<SchemaV>, prefix: Seq<char>) {
    if alts.len() > 0 {
        lemma_schemas_size_elem(alts, 0);
        match alts[0] {
            SchemaV::Any => {},
            SchemaV::Object(z) => {
                match z.properties {
                    Option::Some(props) => if props.len() == 1 {
                        lemma_props_size_elem(props, 0);
                        assert(schema_size(props[0].value) < props_size(props));
                        assert(props_size(props) < obj_size(z));
                        assert(obj_size(z) < schema_size(alts[0]));
                    },
                    Option::None => {},
                }
            },
        }
    }
}

/// A sum-type declaration: the header under the chosen name, then the
/// variants from the union branches, or the nullary variants of the
/// node's literal values.
pub open spec fn spec_gen_enum(
    c: Ctx,
    d: Decls,
    o: SchemaObjectV,
    name_overwrite: Option<Seq<char>>,
    prefix: Seq<char>,
) -> Outcome<Seq<char>>
    decreases ctx_free(c), obj_size(o), 8nat, 0nat,
{
    let hr = match name_overwrite {
        Option::Some(n) => Outcome { decls: d, res: Result::Ok(n) },
        Option::None => match o.instance_type {
            Option::Some(_) => spec_build_in(c, d, o, prefix),
            Option::None => Outcome { decls: d, res: Result::Err(Error::NoTypeSet) },
        },
    };
    match hr.res {
        Result::Err(e) => Outcome { decls: hr.decls, res: Result::Err(e) },
        Result::Ok(hname) => {
            let header = spec_header(hname);
            match o.any_of {
                Option::Some(alts) => {
                    let br = spec_enum_variants(c, hr.decls, alts, prefix);
                    match br.res {
                        Result::Err(e) => Outcome { decls: br.decls, res: Result::Err(e) },
                        Result::Ok(body) => Outcome {
                            decls: br.decls,
                            res: Result::Ok(header + "\n"@ + body),
                        },
                    }
                },
                Option::None => match o.enum_values {
                    Option::Some(lits) => match spec_simple_enum_body(lits) {
                        Result::Ok(body) => Outcome {
                            decls: hr.decls,
                            res: Result::Ok(header + "\n"@ + body),
                        },
                        Result::Err(e) => Outcome { decls: hr.decls, res: Result::Err(e) },
                    },
                    Option::None => Outcome {
                        decls: hr.decls,
                        res: Result::Err(Error::EnumHasNoTypes),
                    },
                },
            }
        },
    }
}

/// The name of a root node: its title, or its instance-kind name with an
/// empty prefix.
pub open spec fn spec_get_name(c: Ctx, d: Decls, o: SchemaObjectV) -> Outcome<Seq<char>> {
    match o.title {
        Option::Some(t) => Outcome { decls: d, res: Result::Ok(t) },
        Option::None => match o.instance_type {
            Option::Some(_) => spec_build_in(c, d, o, Seq::empty()),
            Option::None => Outcome { decls: d, res: Result::Err(Error::NoNameForType) },
        },
    }
}

/// A whole generation run: name the root, seed the pending definitions,
/// translate the root node.
pub open spec fn spec_gen(m: RegModel, root: RootV) -> (RegModel, Result<Seq<char>, Error>) {
    let nm = spec_get_name(m.ctx, m.resolved, root.schema);
    match nm.res {
        Result::Err(e) => (RegModel { resolved: nm.decls, ctx: m.ctx }, Result::Err(e)),
        Result::Ok(name) => {
            let c2 = Ctx {
                pending: spec_add_pending(m.ctx.pending, root.definitions),
                working: m.ctx.working,
            };
            let r = spec_gen_from_schema(c2, nm.decls, root.schema, name);
            (RegModel { resolved: r.decls, ctx: c2 }, r.res)
        },
    }
}

/// The view of an executable text result.
pub open spec fn text_res_v(r: Result<String, Error>) -> Result<Seq<char>, Error> {
    match r {
        Result::Ok(s) => Result::Ok(s@),
        Result::Err(e) => Result::Err(e),
    }
}

/// The view of an executable name-text pair list.
pub open spec fn pairs_v(s: Seq<(String, String)>) -> Seq<(Seq<char>, Seq<char>)>
    decreases s.len(),
{
    if s.len() == 0 {
        Seq::empty()
    } else {
        seq![(s[0].0@, s[0].1@)] + pairs_v(s.drop_first())
    }
}

/// The view of an executable field list result.
pub open spec fn parts_res_v(r: Result<Vec<(String, String)>, Error>) -> Result<
    Seq<(Seq<char>, Seq<char>)>,
    Error,
> {
    match r {
        Result::Ok(v) => Result::Ok(pairs_v(v@)),
        Result::Err(e) => Result::Err(e),
    }
}

/// The view of an executable name list result.
pub open spec fn strs_res_v(r: Result<Vec<String>, Error>) -> Result<Seq<Seq<char>>, Error> {
    match r {
        Result::Ok(v) => Result::Ok(v.deep_view()),
        Result::Err(e) => Result::Err(e),
    }
}

/// The view of an optional text argument.
pub open spec fn opt_str_v(o: Option<&str>) -> Option<Seq<char>> {
    match o {
        Option::Some(s) => Option::Some(s@),
        Option::None => Option::None,
    }
}

pub broadcast proof fn lemma_field_lines(s: Seq<(Seq<char>, Seq<char>)>)
    ensures
        (#[trigger] spec_field_lines(s)).len() == s.len(),
        forall|i: int|
            0 <= i < s.len() ==> spec_field_lines(s)[i] == spec_field_line(s[i].0, s[i].1),
    decreases s.len(),
{
    if s.len() > 0 {
        lemma_field_lines(s.drop_first());
    }
}

pub broadcast proof fn lemma_pairs_v(s: Seq<(String, String)>)
    ensures
        (#[trigger] pairs_v(s)).len() == s.len(),
        forall|i: int| 0 <= i < s.len() ==> pairs_v(s)[i] == (s[i].0@, s[i].1@),
    decreases s.len(),
{
    if s.len() > 0 {
        lemma_pairs_v(s.drop_first());
    }
}

} // verus!
