//! The executable translation.  Every function is proved equal to its spec
//! function in [`crate::model`]: it leaves the registry's recursion context
//! unchanged, turns the resolved declarations into exactly the declarations
//! the spec function returns, and returns exactly the text or error the spec
//! function returns.

use vstd::prelude::*;
use vstd::string::*;

use crate::error::Error;
use crate::model::{
    opt_str_v, parts_res_v, ref_prefix, spec_add_unnamed, spec_build_in, spec_convert_any,
    spec_enum_variants, spec_field_line, spec_field_lines, spec_gen, spec_gen_enum,
    spec_gen_from_schema, spec_gen_full_object, spec_gen_object_from_schema_object,
    spec_gen_type_and_insert, spec_get_name, spec_get_object_body, spec_get_object_parts,
    spec_get_type, spec_get_type_from_schema, spec_header, spec_join, spec_kinds_concat,
    spec_literal_strings, spec_multiple, spec_optional, spec_resolve_each,
    spec_simple_enum_body, spec_singular, spec_strip_ref, strs_res_v, text_res_v,
};
use crate::registry::{
    ctx_free, distinct_keys, lemma_assoc_insert_distinct, lemma_assoc_lookup_contains,
    lemma_free_count_enter, ExternalTypeCollector,
};
use crate::schema::{
    lit_v, lits_v, obj_size, obj_v, prop_v, props_size, props_v, schema_size, schema_v,
    schemas_size, schemas_v, InstanceType, Items, Literal, Property, RootSchema, Schema,
    SchemaObject,
};

verus! {

broadcast use crate::schema::lemma_lits_v, crate::schema::lemma_props_v,
    crate::schema::lemma_schemas_v, crate::model::lemma_pairs_v, crate::model::lemma_field_lines,
    crate::schema::lemma_props_size_elem, crate::schema::lemma_schemas_size_elem,
    crate::schema::lemma_props_size_split, crate::schema::lemma_schemas_size_split;

/// The bare name of a reference: the schema-pointer prefix is stripped when
/// the reference strictly extends it; any other reference is returned whole.
pub fn remove_start_from_ref(s: &str) -> (r: &str)
    ensures
        r@ == spec_strip_ref(s@),
{
    let p = "#/definitions/";
    proof {
        reveal_strlit("#/definitions/");
    }
    let n = s.unicode_len();
    if n <= 14 {
        proof {
            assert(s@.len() <= ref_prefix().len());
        }
        return s;
    }
    let mut i: usize = 0;
    while i < 14
        invariant
            0 <= i <= 14,
            s@.len() > 14,
            p@ == ref_prefix(),
            p@.len() == 14,
            forall|j: int| 0 <= j < i ==> s@[j] == p@[j],
        decreases 14 - i,
    {
        proof {
            reveal_strlit("#/definitions/");
        }
        if s.get_char(i) != p.get_char(i) {
            proof {
                assert(s@.subrange(0, 14) != ref_prefix()) by {
                    assert(s@.subrange(0, 14)[i as int] == s@[i as int]);
                }
            }
            return s;
        }
        i = i + 1;
    }
    proof {
        assert(s@.subrange(0, 14) =~= ref_prefix());
    }
    let r = s.substring_char(14, n);
    proof {
        assert(r@ =~= s@.skip(14));
    }
    r
}

/// The optional form of a type name.
pub fn make_type_optional(a: &str) -> (r: String)
    ensures
        r@ == spec_optional(a@),
{
    let mut r = String::from_str("option<");
    r.append(a);
    r.append(">");
    r
}

/// The header line shared by every declaration.
pub fn gen_simple_enum_header(name: &str) -> (r: String)
    ensures
        r@ == spec_header(name@),
{
    let mut r = String::from_str("type ");
    r.append(name);
    r.append(" = \n");
    r
}

/// The header of a product-type declaration.
pub fn gen_object_header(name: &str) -> (r: String)
    ensures
        r@ == spec_header(name@),
{
    gen_simple_enum_header(name)
}

/// One field line of a product-type body.
fn field_line(name: &str, t: &str) -> (r: String)
    ensures
        r@ == spec_field_line(name@, t@),
{
    let mut r = String::from_str("        ");
    r.append(name);
    r.append(" : ");
    r.append(t);
    r
}

/// The literal texts from position `i` on, or the error if one is not a
/// string literal.
fn literal_strings(a: &Vec<Literal>, i: usize) -> (r: Result<Vec<String>, Error>)
    requires
        i <= a.len(),
    ensures
        match r {
            Result::Ok(v) => spec_literal_strings(lits_v(a@).skip(i as int)) == Result::<
                Seq<Seq<char>>,
                Error,
            >::Ok(v.deep_view()),
            Result::Err(e) => spec_literal_strings(lits_v(a@).skip(i as int)) == Result::<
                Seq<Seq<char>>,
                Error,
            >::Err(e),
        },
    decreases a.len() - i,
{
    let ghost all = lits_v(a@);
    if i == a.len() {
        let v: Vec<String> = Vec::new();
        proof {
            assert(all.skip(i as int).len() == 0);
            assert(v.deep_view() =~= Seq::<Seq<char>>::empty());
        }
        return Result::Ok(v);
    }
    proof {
        assert(all.skip(i as int)[0] == all[i as int]);
        assert(all[i as int] == lit_v(a@[i as int]));
        assert(all.skip(i as int).drop_first() =~= all.skip(i as int + 1));
    }
    match &a[i] {
        Literal::Str(s) => {
            let head = s.clone();
            let ghost headv = head@;
            match literal_strings(a, i + 1) {
                Result::Ok(rest) => {
                    let ghost restv = rest.deep_view();
                    let ghost restraw = rest@;
                    let mut out = rest;
                    out.insert(0, head);
                    proof {
                        assert forall|j: int|
                            0 <= j < out.deep_view().len() implies out.deep_view()[j] == (
                        seq![headv] + restv)[j] by {
                            if j == 0 {
                                assert(out@[0] == restraw.insert(0, head)[0]);
                            } else {
                                assert(out@[j] == restraw[j - 1]);
                            }
                        }
                        assert(out.deep_view() =~= seq![headv] + restv);
                    }
                    Result::Ok(out)
                },
                Result::Err(e) => Result::Err(e),
            }
        },
        Literal::Other => Result::Err(Error::SimpleEnumNotSimple),
    }
}

/// The pieces from position `i` on, joined with the separator.
fn join_strings(items: &Vec<String>, i: usize, sep: &str) -> (r: String)
    requires
        i <= items.len(),
    ensures
        r@ == spec_join(items.deep_view().skip(i as int), sep@),
    decreases items.len() - i,
{
    let ghost all = items.deep_view();
    if i == items.len() {
        proof {
            assert(all.skip(i as int).len() == 0);
        }
        String::new()
    } else if i + 1 == items.len() {
        proof {
            assert(all.skip(i as int).len() == 1);
            assert(all.skip(i as int)[0] == all[i as int]);
        }
        items[i].clone()
    } else {
        let mut r = items[i].clone();
        r.append(sep);
        let rest = join_strings(items, i + 1, sep);
        r.append(rest.as_str());
        proof {
            assert(all.skip(i as int)[0] == all[i as int]);
            assert(all.skip(i as int).drop_first() =~= all.skip(i as int + 1));
        }
        r
    }
}

/// The body of a simple enumeration: one nullary variant per string literal,
/// in order; an error if any literal is not a string.
fn gen_simple_enum_body(a: &Vec<Literal>) -> (r: Result<String, Error>)
    ensures
        crate::model::text_res_v(r) == spec_simple_enum_body(lits_v(a@)),
{
    proof {
        assert(lits_v(a@).skip(0) =~= lits_v(a@));
    }
    match literal_strings(a, 0) {
        Result::Ok(strs) => {
            let mut r = String::from_str("    | ");
            let joined = join_strings(&strs, 0, "\n    | ");
            r.append(joined.as_str());
            proof {
                assert(strs.deep_view().skip(0) =~= strs.deep_view());
            }
            Result::Ok(r)
        },
        Result::Err(e) => Result::Err(e),
    }
}

/// Whether a node is enum/union-shaped: it carries no object part.
fn should_map_to_enum(a: &SchemaObject) -> (r: bool)
    ensures
        r == (crate::schema::obj_v(*a).properties is None),
{
    a.properties.is_none()
}

/// Whether a union branch stands for the absent value.
fn is_null_marker(s: &crate::schema::Schema) -> (r: bool)
    ensures
        r == crate::model::spec_is_null_marker(crate::schema::schema_v(*s)),
{
    match s {
        crate::schema::Schema::Any => true,
        crate::schema::Schema::Object(o) => match &o.instance_type {
            Option::Some(kinds) => {
                if kinds.len() == 1 {
                    let res = kinds[0] == InstanceType::Null;
                    proof {
                        if res {
                            assert(kinds@ =~= seq![InstanceType::Null]);
                        } else {
                            assert(kinds@ != seq![InstanceType::Null]) by {
                                assert(seq![InstanceType::Null][0] == InstanceType::Null);
                            }
                        }
                    }
                    res
                } else {
                    proof {
                        assert(kinds@ != seq![InstanceType::Null]) by {
                            assert(seq![InstanceType::Null].len() == 1);
                        }
                    }
                    false
                }
            },
            Option::None => false,
        },
    }
}


// The recursive descent.  Each function states that it leaves the recursion
// context unchanged, turns the resolved declarations into exactly what its
// spec function returns, and returns exactly the spec function's result.

impl ExternalTypeCollector {
    /// Resolve a reference to a type name, generating and memoizing the
    /// referenced declaration on first use; a name already being resolved is
    /// returned at once, which breaks reference cycles.
    pub fn get_type(&mut self, reference: &str) -> (r: Result<String, Error>)
        ensures
            final(self)@.ctx == old(self)@.ctx,
            final(self)@.resolved == spec_get_type(
                old(self)@.ctx,
                old(self)@.resolved,
                reference@,
            ).decls,
            text_res_v(r) == spec_get_type(old(self)@.ctx, old(self)@.resolved, reference@).res,
            distinct_keys(old(self)@.resolved) ==> distinct_keys(final(self)@.resolved),
        decreases ctx_free(self@.ctx), 0nat, 2nat, 0nat,
    {
        let ghost c0 = self@.ctx;
        let name = remove_start_from_ref(reference).to_owned();
        let ghost namev = name@;
        if self.working_contains(&name) {
            return Result::Ok(name);
        }
        if self.resolved_contains(&name) {
            return Result::Ok(name);
        }
        match self.lookup_pending(&name) {
            Option::None => Result::Err(Error::ExternalTypeNotAvailable),
            Option::Some(node) => {
                proof {
                    lemma_assoc_lookup_contains(c0.pending, namev);
                    lemma_free_count_enter(c0.pending, c0.working, namev);
                }
                self.push_working(name.clone());
                proof {
                    assert(self@.ctx =~= c0.enter(namev));
                }
                let res = self.gen_type_and_insert(name, &node);
                proof {
                    assert(self@.ctx.working.len() > 0);
                }
                self.pop_working();
                proof {
                    assert(self@.ctx.working =~= c0.working);
                    assert(self@.ctx =~= c0);
                }
                res
            },
        }
    }

    /// Generate the declaration of one pending definition and record it
    /// under its name; a placeholder definition records nothing.
    fn gen_type_and_insert(&mut self, reference: String, type_rep: &Schema) -> (r: Result<
        String,
        Error,
    >)
        ensures
            final(self)@.ctx == old(self)@.ctx,
            final(self)@.resolved == spec_gen_type_and_insert(
                old(self)@.ctx,
                old(self)@.resolved,
                reference@,
                schema_v(*type_rep),
            ).decls,
            text_res_v(r) == spec_gen_type_and_insert(
                old(self)@.ctx,
                old(self)@.resolved,
                reference@,
                schema_v(*type_rep),
            ).res,
            distinct_keys(old(self)@.resolved) ==> distinct_keys(final(self)@.resolved),
        decreases ctx_free(self@.ctx), schema_size(schema_v(*type_rep)), 10nat, 0nat,
    {
        let ghost refv = reference@;
        match type_rep {
            Schema::Any => Result::Ok(reference),
            Schema::Object(o) => {
                match gen_from_schema(o, reference.as_str(), self) {
                    Result::Err(e) => Result::Err(e),
                    Result::Ok(text) => {
                        let ghost textv = text@;
                        proof {
                            if distinct_keys(old(self)@.resolved) {
                                lemma_assoc_insert_distinct(self@.resolved, refv, textv);
                            }
                        }
                        self.insert_resolved(reference.clone(), text);
                        Result::Ok(reference)
                    },
                }
            },
        }
    }

    /// Register an anonymous object part as an independent declaration under
    /// the naming prefix.
    pub fn add_unnamed_type(&mut self, prefix: &str, type_rep: &Vec<Property>) -> (r: Result<
        (),
        Error,
    >)
        ensures
            final(self)@.ctx == old(self)@.ctx,
            final(self)@.resolved == spec_add_unnamed(
                old(self)@.ctx,
                old(self)@.resolved,
                prefix@,
                props_v(type_rep@),
            ).decls,
            r == spec_add_unnamed(
                old(self)@.ctx,
                old(self)@.resolved,
                prefix@,
                props_v(type_rep@),
            ).res,
            distinct_keys(old(self)@.resolved) ==> distinct_keys(final(self)@.resolved),
        decreases ctx_free(self@.ctx), props_size(props_v(type_rep@)), 10nat, 0nat,
    {
        match gen_full_object(type_rep, prefix, self) {
            Result::Err(e) => Result::Err(e),
            Result::Ok(res) => {
                let ghost textv = res@;
                proof {
                    if distinct_keys(old(self)@.resolved) {
                        lemma_assoc_insert_distinct(self@.resolved, prefix@, textv);
                    }
                }
                self.insert_resolved(prefix.to_owned(), res);
                Result::Ok(())
            },
        }
    }
}

/// Generate the declaration text of a root node under its own name, after
/// seeding the registry's pending definitions from the root.
pub fn gen(a: RootSchema, x: &mut ExternalTypeCollector) -> (r: Result<String, Error>)
    ensures
        final(x)@ == spec_gen(old(x)@, crate::schema::root_v(a)).0,
        text_res_v(r) == spec_gen(old(x)@, crate::schema::root_v(a)).1,
        distinct_keys(old(x)@.resolved) ==> distinct_keys(final(x)@.resolved),
{
    let ghost rootv = crate::schema::root_v(a);
    let ghost m0 = x@;
    let RootSchema { schema, definitions } = a;
    let name = match get_name(&schema, x) {
        Result::Err(e) => {
            proof {
                assert(x@ =~= spec_gen(m0, rootv).0);
            }
            return Result::Err(e);
        },
        Result::Ok(n) => n,
    };
    x.add_types_to_parse(definitions);
    let r = gen_from_schema(&schema, name.as_str(), x);
    proof {
        assert(x@ =~= spec_gen(m0, rootv).0);
    }
    r
}

/// A node's full declaration: enum/union-shaped nodes become sum types,
/// nodes with an object part become product types.
fn gen_from_schema(a: &SchemaObject, name: &str, x: &mut ExternalTypeCollector) -> (r: Result<
    String,
    Error,
>)
    ensures
        final(x)@.ctx == old(x)@.ctx,
        final(x)@.resolved == spec_gen_from_schema(
            old(x)@.ctx,
            old(x)@.resolved,
            obj_v(*a),
            name@,
        ).decls,
        text_res_v(r) == spec_gen_from_schema(old(x)@.ctx, old(x)@.resolved, obj_v(*a), name@).res,
        distinct_keys(old(x)@.resolved) ==> distinct_keys(final(x)@.resolved),
    decreases ctx_free(x@.ctx), obj_size(obj_v(*a)), 9nat, 0nat,
{
    if should_map_to_enum(a) {
        gen_enum(a, x, Option::Some(name), name)
    } else {
        gen_object_from_schema_object(a, name, x)
    }
}

fn gen_object_from_schema_object(
    a: &SchemaObject,
    name: &str,
    x: &mut ExternalTypeCollector,
) -> (r: Result<String, Error>)
    ensures
        final(x)@.ctx == old(x)@.ctx,
        final(x)@.resolved == spec_gen_object_from_schema_object(
            old(x)@.ctx,
            old(x)@.resolved,
            obj_v(*a),
            name@,
        ).decls,
        text_res_v(r) == spec_gen_object_from_schema_object(
            old(x)@.ctx,
            old(x)@.resolved,
            obj_v(*a),
            name@,
        ).res,
        distinct_keys(old(x)@.resolved) ==> distinct_keys(final(x)@.resolved),
    decreases ctx_free(x@.ctx), obj_size(obj_v(*a)), 8nat, 0nat,
{
    match &a.properties {
        Option::None => Result::Err(Error::NoObjectPartFound),
        Option::Some(props) => gen_full_object(props, name, x),
    }
}

/// The name of a root node: its title, or a name derived from its declared
/// instance kinds.
fn get_name(a: &SchemaObject, y: &mut ExternalTypeCollector) -> (r: Result<String, Error>)
    ensures
        final(y)@.ctx == old(y)@.ctx,
        final(y)@.resolved == spec_get_name(old(y)@.ctx, old(y)@.resolved, obj_v(*a)).decls,
        text_res_v(r) == spec_get_name(old(y)@.ctx, old(y)@.resolved, obj_v(*a)).res,
        distinct_keys(old(y)@.resolved) ==> distinct_keys(final(y)@.resolved),
{
    match &a.title {
        Option::Some(t) => Result::Ok(t.clone()),
        Option::None => match &a.instance_type {
            Option::Some(_) => {
                proof {
                    reveal_strlit("");
                    assert(""@ =~= Seq::<char>::empty());
                }
                build_in_types_to_name(a, y, "")
            },
            Option::None => Result::Err(Error::NoNameForType),
        },
    }
}

/// A sum-type declaration: the header under the chosen name, then one line
/// per variant.
fn gen_enum(
    a: &SchemaObject,
    x: &mut ExternalTypeCollector,
    name_overwrite: Option<&str>,
    prefix: &str,
) -> (r: Result<String, Error>)
    ensures
        final(x)@.ctx == old(x)@.ctx,
        final(x)@.resolved == spec_gen_enum(
            old(x)@.ctx,
            old(x)@.resolved,
            obj_v(*a),
            opt_str_v(name_overwrite),
            prefix@,
        ).decls,
        text_res_v(r) == spec_gen_enum(
            old(x)@.ctx,
            old(x)@.resolved,
            obj_v(*a),
            opt_str_v(name_overwrite),
            prefix@,
        ).res,
        distinct_keys(old(x)@.resolved) ==> distinct_keys(final(x)@.resolved),
    decreases ctx_free(x@.ctx), obj_size(obj_v(*a)), 8nat, 0nat,
{
    let header_name: String = match name_overwrite {
        Option::Some(n) => n.to_owned(),
        Option::None => match &a.instance_type {
            Option::Some(_) => match build_in_types_to_name(a, x, prefix) {
                Result::Ok(t) => t,
                Result::Err(e) => {
                    return Result::Err(e);
                },
            },
            Option::None => {
                return Result::Err(Error::NoTypeSet);
            },
        },
    };
    let header = gen_simple_enum_header(header_name.as_str());
    match &a.any_of {
        Option::Some(alts) => {
            proof {
                assert(schemas_v(alts@).skip(0) =~= schemas_v(alts@));
            }
            match gen_enum_variants(alts, 0, x, prefix) {
                Result::Err(e) => Result::Err(e),
                Result::Ok(body) => {
                    let mut r = header;
                    r.append("\n");
                    r.append(body.as_str());
                    Result::Ok(r)
                },
            }
        },
        Option::None => match &a.enum_values {
            Option::Some(lits) => match gen_simple_enum_body(lits) {
                Result::Ok(body) => {
                    let mut r = header;
                    r.append("\n");
                    r.append(body.as_str());
                    Result::Ok(r)
                },
                Result::Err(e) => Result::Err(e),
            },
            Option::None => Result::Err(Error::EnumHasNoTypes),
        },
    }
}

/// The variant lines of a tagged union from branch `i` on, concatenated.
fn gen_enum_variants(
    alts: &Vec<Schema>,
    i: usize,
    x: &mut ExternalTypeCollector,
    prefix: &str,
) -> (r: Result<String, Error>)
    requires
        i <= alts.len(),
    ensures
        final(x)@.ctx == old(x)@.ctx,
        final(x)@.resolved == spec_enum_variants(
            old(x)@.ctx,
            old(x)@.resolved,
            schemas_v(alts@).skip(i as int),
            prefix@,
        ).decls,
        text_res_v(r) == spec_enum_variants(
            old(x)@.ctx,
            old(x)@.resolved,
            schemas_v(alts@).skip(i as int),
            prefix@,
        ).res,
        distinct_keys(old(x)@.resolved) ==> distinct_keys(final(x)@.resolved),
    decreases ctx_free(x@.ctx), schemas_size(schemas_v(alts@).skip(i as int)), 7nat, 0nat,
{
    let ghost sv = schemas_v(alts@);
    let ghost sfx = sv.skip(i as int);
    if i == alts.len() {
        proof {
            assert(sfx.len() == 0);
        }
        return Result::Ok(String::new());
    }
    proof {
        assert(sfx[0] == sv[i as int]);
        assert(sv[i as int] == schema_v(alts@[i as int]));
        assert(sfx.drop_first() =~= sv.skip(i as int + 1));
    }
    let line: String = match &alts[i] {
        Schema::Any => {
            return Result::Err(Error::NoNameForType);
        },
        Schema::Object(z) => {
            let has_single_field: bool = match &z.properties {
                Option::Some(props) => props.len() == 1,
                Option::None => false,
            };
            if has_single_field {
                match &z.properties {
                    Option::Some(props) => {
                        let p = &props[0];
                        let mut vprefix = prefix.to_owned();
                        vprefix.append(p.name.as_str());
                        proof {
                            assert(props_v(props@)[0] == prop_v(props@[0]));
                            assert(schema_size(prop_v(props@[0]).value) < props_size(
                                props_v(props@),
                            ));
                            assert(props_size(props_v(props@)) < obj_size(obj_v(*z)));
                            assert(obj_size(obj_v(*z)) < schema_size(sfx[0]));
                            assert(schema_size(sfx[0]) < schemas_size(sfx));
                        }
                        match get_type_from_schema(&p.value, x, vprefix.as_str()) {
                            Result::Err(e) => {
                                return Result::Err(e);
                            },
                            Result::Ok(t) => {
                                let mut line = String::from_str("    | ");
                                line.append(p.name.as_str());
                                line.append(" of ");
                                line.append(t.as_str());
                                line.append("\n");
                                line
                            },
                        }
                    },
                    Option::None => {
                        return Result::Err(Error::NoNameForType);
                    },
                }
            } else {
                match &z.enum_values {
                    Option::Some(lits) => match gen_simple_enum_body(lits) {
                        Result::Ok(b) => {
                            let mut line = b;
                            line.append("\n");
                            line
                        },
                        Result::Err(e) => {
                            return Result::Err(e);
                        },
                    },
                    Option::None => {
                        return Result::Err(Error::NoNameForType);
                    },
                }
            }
        },
    };
    match gen_enum_variants(alts, i + 1, x, prefix) {
        Result::Err(e) => Result::Err(e),
        Result::Ok(more) => {
            let mut r = line;
            r.append(more.as_str());
            Result::Ok(r)
        },
    }
}

/// The type name of one node in field position.
fn get_type_from_schema(a: &Schema, d: &mut ExternalTypeCollector, prefix: &str) -> (r: Result<
    String,
    Error,
>)
    ensures
        final(d)@.ctx == old(d)@.ctx,
        final(d)@.resolved == spec_get_type_from_schema(
            old(d)@.ctx,
            old(d)@.resolved,
            schema_v(*a),
            prefix@,
        ).decls,
        text_res_v(r) == spec_get_type_from_schema(
            old(d)@.ctx,
            old(d)@.resolved,
            schema_v(*a),
            prefix@,
        ).res,
        distinct_keys(old(d)@.resolved) ==> distinct_keys(final(d)@.resolved),
    decreases ctx_free(d@.ctx), schema_size(schema_v(*a)), 5nat, 0nat,
{
    match a {
        Schema::Any => Result::Err(Error::TypeIsNoRealType),
        Schema::Object(o) => {
            if o.instance_type.is_some() {
                build_in_types_to_name(o, d, prefix)
            } else {
                match &o.reference {
                    Option::Some(refstr) => d.get_type(refstr.as_str()),
                    Option::None => match &o.any_of {
                        Option::Some(v) => convert_any_to_known_type(v, d, prefix),
                        Option::None => Result::Err(Error::NoTypeSet),
                    },
                }
            }
        },
    }
}

/// A two-branch union in field position: the branch beside a null marker
/// becomes optional; any other two-branch form resolves every branch into a
/// placeholder multi-branch form.
fn convert_any_to_known_type(
    v: &Vec<Schema>,
    x: &mut ExternalTypeCollector,
    prefix: &str,
) -> (r: Result<String, Error>)
    ensures
        final(x)@.ctx == old(x)@.ctx,
        final(x)@.resolved == spec_convert_any(
            old(x)@.ctx,
            old(x)@.resolved,
            schemas_v(v@),
            prefix@,
        ).decls,
        text_res_v(r) == spec_convert_any(old(x)@.ctx, old(x)@.resolved, schemas_v(v@), prefix@).res,
        distinct_keys(old(x)@.resolved) ==> distinct_keys(final(x)@.resolved),
    decreases ctx_free(x@.ctx), schemas_size(schemas_v(v@)), 6nat, 0nat,
{
    let ghost sv = schemas_v(v@);
    if v.len() == 2 {
        let first_null = is_null_marker(&v[0]);
        let second_null = is_null_marker(&v[1]);
        if first_null != second_null {
            let other = if first_null {
                &v[1]
            } else {
                &v[0]
            };
            proof {
                assert(schema_size(sv[0]) < schemas_size(sv));
                assert(schema_size(sv[1]) < schemas_size(sv));
            }
            match get_type_from_schema(other, x, prefix) {
                Result::Ok(t) => Result::Ok(make_type_optional(t.as_str())),
                Result::Err(e) => Result::Err(e),
            }
        } else {
            proof {
                assert(sv.skip(0) =~= sv);
            }
            match resolve_each(v, 0, x, prefix) {
                Result::Ok(ts) => {
                    let mut r = String::from_str("result<");
                    let joined = join_strings(&ts, 0, ",");
                    r.append(joined.as_str());
                    r.append(">");
                    proof {
                        assert(ts.deep_view().skip(0) =~= ts.deep_view());
                    }
                    Result::Ok(r)
                },
                Result::Err(e) => Result::Err(e),
            }
        }
    } else {
        Result::Err(Error::NoNameForType)
    }
}

/// Each node from position `i` on resolved to its type name, in order.
fn resolve_each(
    v: &Vec<Schema>,
    i: usize,
    x: &mut ExternalTypeCollector,
    prefix: &str,
) -> (r: Result<Vec<String>, Error>)
    requires
        i <= v.len(),
    ensures
        final(x)@.ctx == old(x)@.ctx,
        final(x)@.resolved == spec_resolve_each(
            old(x)@.ctx,
            old(x)@.resolved,
            schemas_v(v@).skip(i as int),
            prefix@,
        ).decls,
        strs_res_v(r) == spec_resolve_each(
            old(x)@.ctx,
            old(x)@.resolved,
            schemas_v(v@).skip(i as int),
            prefix@,
        ).res,
        distinct_keys(old(x)@.resolved) ==> distinct_keys(final(x)@.resolved),
    decreases ctx_free(x@.ctx), schemas_size(schemas_v(v@).skip(i as int)), 5nat, 0nat,
{
    let ghost sv = schemas_v(v@);
    let ghost sfx = sv.skip(i as int);
    if i == v.len() {
        let out: Vec<String> = Vec::new();
        proof {
            assert(sfx.len() == 0);
            assert(out.deep_view() =~= Seq::<Seq<char>>::empty());
        }
        return Result::Ok(out);
    }
    proof {
        assert(sfx[0] == sv[i as int]);
        assert(sv[i as int] == schema_v(v@[i as int]));
        assert(sfx.drop_first() =~= sv.skip(i as int + 1));
    }
    match get_type_from_schema(&v[i], x, prefix) {
        Result::Err(e) => Result::Err(e),
        Result::Ok(t) => {
            let ghost tv = t@;
            match resolve_each(v, i + 1, x, prefix) {
                Result::Err(e) => Result::Err(e),
                Result::Ok(rest) => {
                    let ghost restv = rest.deep_view();
                    let ghost restraw = rest@;
                    let mut out = rest;
                    out.insert(0, t);
                    proof {
                        assert forall|j: int|
                            0 <= j < out.deep_view().len() implies out.deep_view()[j] == (
                        seq![tv] + restv)[j] by {
                            if j == 0 {
                                assert(out@[0]@ == tv);
                            } else {
                                assert(out@[j] == restraw[j - 1]);
                            }
                        }
                        assert(out.deep_view() =~= seq![tv] + restv);
                    }
                    Result::Ok(out)
                },
            }
        },
    }
}

/// The name of a node by its declared instance kinds.
fn build_in_types_to_name(
    a: &SchemaObject,
    x: &mut ExternalTypeCollector,
    prefix: &str,
) -> (r: Result<String, Error>)
    ensures
        final(x)@.ctx == old(x)@.ctx,
        final(x)@.resolved == spec_build_in(
            old(x)@.ctx,
            old(x)@.resolved,
            obj_v(*a),
            prefix@,
        ).decls,
        text_res_v(r) == spec_build_in(old(x)@.ctx, old(x)@.resolved, obj_v(*a), prefix@).res,
        distinct_keys(old(x)@.resolved) ==> distinct_keys(final(x)@.resolved),
    decreases ctx_free(x@.ctx), obj_size(obj_v(*a)), 4nat, 0nat,
{
    match &a.instance_type {
        Option::None => Result::Err(Error::NoTypeSet),
        Option::Some(kinds) => {
            if kinds.len() == 1 {
                singular_build_in_type_to_name(kinds[0], a, x, prefix)
            } else {
                build_in_types_from_multiple(kinds, a, x, prefix)
            }
        },
    }
}

/// Several declared kinds: one real kind beside `Null` becomes optional;
/// any other list is the concatenation of the single-kind names.
fn build_in_types_from_multiple(
    kinds: &Vec<InstanceType>,
    a: &SchemaObject,
    x: &mut ExternalTypeCollector,
    prefix: &str,
) -> (r: Result<String, Error>)
    ensures
        final(x)@.ctx == old(x)@.ctx,
        final(x)@.resolved == spec_multiple(
            old(x)@.ctx,
            old(x)@.resolved,
            kinds@,
            obj_v(*a),
            prefix@,
        ).decls,
        text_res_v(r) == spec_multiple(
            old(x)@.ctx,
            old(x)@.resolved,
            kinds@,
            obj_v(*a),
            prefix@,
        ).res,
        distinct_keys(old(x)@.resolved) ==> distinct_keys(final(x)@.resolved),
    decreases ctx_free(x@.ctx), obj_size(obj_v(*a)), 3nat, 0nat,
{
    if kinds.len() == 2 {
        let z0 = kinds[0] == InstanceType::Null;
        let z1 = kinds[1] == InstanceType::Null;
        if z0 != z1 {
            let nonnull = if z0 {
                kinds[1]
            } else {
                kinds[0]
            };
            return match singular_build_in_type_to_name(nonnull, a, x, prefix) {
                Result::Ok(t) => Result::Ok(make_type_optional(t.as_str())),
                Result::Err(e) => Result::Err(e),
            };
        }
    }
    proof {
        assert(kinds@.skip(0) =~= kinds@);
    }
    kinds_concat(kinds, 0, a, x, prefix)
}

/// The single-kind names from position `i` on, concatenated.
fn kinds_concat(
    kinds: &Vec<InstanceType>,
    i: usize,
    a: &SchemaObject,
    x: &mut ExternalTypeCollector,
    prefix: &str,
) -> (r: Result<String, Error>)
    requires
        i <= kinds.len(),
    ensures
        final(x)@.ctx == old(x)@.ctx,
        final(x)@.resolved == spec_kinds_concat(
            old(x)@.ctx,
            old(x)@.resolved,
            kinds@.skip(i as int),
            obj_v(*a),
            prefix@,
        ).decls,
        text_res_v(r) == spec_kinds_concat(
            old(x)@.ctx,
            old(x)@.resolved,
            kinds@.skip(i as int),
            obj_v(*a),
            prefix@,
        ).res,
        distinct_keys(old(x)@.resolved) ==> distinct_keys(final(x)@.resolved),
    decreases ctx_free(x@.ctx), obj_size(obj_v(*a)), 2nat, kinds.len() - i,
{
    let ghost sfx = kinds@.skip(i as int);
    if i == kinds.len() {
        proof {
            assert(sfx.len() == 0);
        }
        return Result::Ok(String::new());
    }
    proof {
        assert(sfx[0] == kinds@[i as int]);
        assert(sfx.drop_first() =~= kinds@.skip(i as int + 1));
    }
    match singular_build_in_type_to_name(kinds[i], a, x, prefix) {
        Result::Err(e) => Result::Err(e),
        Result::Ok(t) => {
            match kinds_concat(kinds, i + 1, a, x, prefix) {
                Result::Err(e) => Result::Err(e),
                Result::Ok(rest) => {
                    let mut r = t;
                    r.append(rest.as_str());
                    Result::Ok(r)
                },
            }
        },
    }
}

/// The name of one declared kind on a node.
fn singular_build_in_type_to_name(
    k: InstanceType,
    a: &SchemaObject,
    x: &mut ExternalTypeCollector,
    prefix: &str,
) -> (r: Result<String, Error>)
    ensures
        final(x)@.ctx == old(x)@.ctx,
        final(x)@.resolved == spec_singular(
            old(x)@.ctx,
            old(x)@.resolved,
            k,
            obj_v(*a),
            prefix@,
        ).decls,
        text_res_v(r) == spec_singular(old(x)@.ctx, old(x)@.resolved, k, obj_v(*a), prefix@).res,
        distinct_keys(old(x)@.resolved) ==> distinct_keys(final(x)@.resolved),
    decreases ctx_free(x@.ctx), obj_size(obj_v(*a)), 1nat, 0nat,
{
    match k {
        InstanceType::Null => Result::Ok(String::from_str("unit")),
        InstanceType::Boolean => Result::Ok(String::from_str("bool")),
        InstanceType::Number => Result::Ok(String::from_str("float")),
        InstanceType::Str => Result::Ok(String::from_str("string")),
        InstanceType::Integer => Result::Ok(String::from_str("int")),
        InstanceType::Object => match &a.properties {
            Option::Some(props) => match x.add_unnamed_type(prefix, props) {
                Result::Ok(_) => Result::Ok(prefix.to_owned()),
                Result::Err(e) => Result::Err(e),
            },
            Option::None => Result::Ok(String::from_str("object")),
        },
        InstanceType::Array => match &a.items {
            Option::None => Result::Ok(String::from_str("object[]")),
            Option::Some(Items::Single(b)) => {
                match get_type_from_schema(&**b, x, prefix) {
                    Result::Ok(t) => {
                        let mut r = t;
                        r.append("[]");
                        Result::Ok(r)
                    },
                    Result::Err(e) => Result::Err(e),
                }
            },
            Option::Some(Items::Multiple(v)) => {
                proof {
                    assert(schemas_v(v@).skip(0) =~= schemas_v(v@));
                }
                match resolve_each(v, 0, x, prefix) {
                    Result::Ok(ts) => {
                        let r = join_strings(&ts, 0, " * ");
                        proof {
                            assert(ts.deep_view().skip(0) =~= ts.deep_view());
                        }
                        Result::Ok(r)
                    },
                    Result::Err(e) => Result::Err(e),
                }
            },
        },
    }
}

/// A product-type declaration: the header, then the body between braces.
fn gen_full_object(a: &Vec<Property>, name: &str, x: &mut ExternalTypeCollector) -> (r: Result<
    String,
    Error,
>)
    ensures
        final(x)@.ctx == old(x)@.ctx,
        final(x)@.resolved == spec_gen_full_object(
            old(x)@.ctx,
            old(x)@.resolved,
            props_v(a@),
            name@,
        ).decls,
        text_res_v(r) == spec_gen_full_object(
            old(x)@.ctx,
            old(x)@.resolved,
            props_v(a@),
            name@,
        ).res,
        distinct_keys(old(x)@.resolved) ==> distinct_keys(final(x)@.resolved),
    decreases ctx_free(x@.ctx), props_size(props_v(a@)), 9nat, 0nat,
{
    match get_object_body(a, x, name) {
        Result::Err(e) => Result::Err(e),
        Result::Ok(body) => {
            let mut r = gen_object_header(name);
            r.append("    {\n");
            r.append(body.as_str());
            r.append("\n    }");
            Result::Ok(r)
        },
    }
}

/// The body of a product type: the field lines joined with newlines.
fn get_object_body(a: &Vec<Property>, x: &mut ExternalTypeCollector, prefix: &str) -> (r: Result<
    String,
    Error,
>)
    ensures
        final(x)@.ctx == old(x)@.ctx,
        final(x)@.resolved == spec_get_object_body(
            old(x)@.ctx,
            old(x)@.resolved,
            props_v(a@),
            prefix@,
        ).decls,
        text_res_v(r) == spec_get_object_body(
            old(x)@.ctx,
            old(x)@.resolved,
            props_v(a@),
            prefix@,
        ).res,
        distinct_keys(old(x)@.resolved) ==> distinct_keys(final(x)@.resolved),
    decreases ctx_free(x@.ctx), props_size(props_v(a@)), 8nat, 0nat,
{
    match get_object_parts(a, x, prefix) {
        Result::Err(e) => Result::Err(e),
        Result::Ok(parts) => {
            let body = join_part_lines(&parts, 0);
            proof {
                assert(crate::model::pairs_v(parts@).skip(0) =~= crate::model::pairs_v(parts@));
            }
            Result::Ok(body)
        },
    }
}

/// The field lines from position `i` on, joined with newlines.
fn join_part_lines(parts: &Vec<(String, String)>, i: usize) -> (r: String)
    requires
        i <= parts.len(),
    ensures
        r@ == spec_join(spec_field_lines(crate::model::pairs_v(parts@).skip(i as int)), "\n"@),
    decreases parts.len() - i,
{
    let ghost pv = crate::model::pairs_v(parts@);
    let ghost sfx = pv.skip(i as int);
    let ghost lines = spec_field_lines(sfx);
    if i == parts.len() {
        proof {
            assert(sfx.len() == 0);
            assert(lines.len() == 0);
        }
        String::new()
    } else {
        proof {
            assert(sfx[0] == pv[i as int]);
            assert(pv[i as int] == (parts@[i as int].0@, parts@[i as int].1@));
            assert(sfx.drop_first() =~= pv.skip(i as int + 1));
            assert(lines.len() == sfx.len());
            assert(lines[0] == spec_field_line(sfx[0].0, sfx[0].1));
            assert(spec_field_lines(sfx.drop_first()) =~= lines.drop_first());
        }
        let line = field_line(parts[i].0.as_str(), parts[i].1.as_str());
        if i + 1 == parts.len() {
            proof {
                assert(lines.len() == 1);
            }
            line
        } else {
            let mut r = line;
            r.append("\n");
            let rest = join_part_lines(parts, i + 1);
            r.append(rest.as_str());
            proof {
                assert(lines.len() >= 2);
            }
            r
        }
    }
}

/// Each field resolved to its type name, in field order.
fn get_object_parts(a: &Vec<Property>, x: &mut ExternalTypeCollector, prefix: &str) -> (r: Result<
    Vec<(String, String)>,
    Error,
>)
    ensures
        final(x)@.ctx == old(x)@.ctx,
        final(x)@.resolved == spec_get_object_parts(
            old(x)@.ctx,
            old(x)@.resolved,
            props_v(a@),
            prefix@,
        ).decls,
        parts_res_v(r) == spec_get_object_parts(
            old(x)@.ctx,
            old(x)@.resolved,
            props_v(a@),
            prefix@,
        ).res,
        distinct_keys(old(x)@.resolved) ==> distinct_keys(final(x)@.resolved),
    decreases ctx_free(x@.ctx), props_size(props_v(a@)), 7nat, 1nat,
{
    proof {
        assert(props_v(a@).skip(0) =~= props_v(a@));
    }
    get_object_parts_from(a, 0, x, prefix)
}

fn get_object_parts_from(
    a: &Vec<Property>,
    i: usize,
    x: &mut ExternalTypeCollector,
    prefix: &str,
) -> (r: Result<Vec<(String, String)>, Error>)
    requires
        i <= a.len(),
    ensures
        final(x)@.ctx == old(x)@.ctx,
        final(x)@.resolved == spec_get_object_parts(
            old(x)@.ctx,
            old(x)@.resolved,
            props_v(a@).skip(i as int),
            prefix@,
        ).decls,
        parts_res_v(r) == spec_get_object_parts(
            old(x)@.ctx,
            old(x)@.resolved,
            props_v(a@).skip(i as int),
            prefix@,
        ).res,
        distinct_keys(old(x)@.resolved) ==> distinct_keys(final(x)@.resolved),
    decreases ctx_free(x@.ctx), props_size(props_v(a@).skip(i as int)), 7nat, 0nat,
{
    let ghost pv = props_v(a@);
    let ghost sfx = pv.skip(i as int);
    if i == a.len() {
        let out: Vec<(String, String)> = Vec::new();
        proof {
            assert(sfx.len() == 0);
            assert(crate::model::pairs_v(out@) =~= Seq::<(Seq<char>, Seq<char>)>::empty());
        }
        return Result::Ok(out);
    }
    proof {
        assert(sfx[0] == pv[i as int]);
        assert(pv[i as int] == prop_v(a@[i as int]));
        assert(sfx.drop_first() =~= pv.skip(i as int + 1));
    }
    let mut fprefix = prefix.to_owned();
    fprefix.append(a[i].name.as_str());
    match get_type_from_schema(&a[i].value, x, fprefix.as_str()) {
        Result::Err(e) => Result::Err(e),
        Result::Ok(t) => {
            let key = a[i].name.clone();
            let ghost keyv = key@;
            let ghost tv = t@;
            match get_object_parts_from(a, i + 1, x, prefix) {
                Result::Err(e) => Result::Err(e),
                Result::Ok(rest) => {
                    let ghost restv = crate::model::pairs_v(rest@);
                    let ghost restraw = rest@;
                    let mut out = rest;
                    out.insert(0, (key, t));
                    proof {
                        assert forall|j: int|
                            0 <= j < crate::model::pairs_v(out@).len() implies crate::model::pairs_v(
                            out@,
                        )[j] == (seq![(keyv, tv)] + restv)[j] by {
                            assert(crate::model::pairs_v(out@)[j] == (out@[j].0@, out@[j].1@));
                            if j == 0 {
                                assert(out@[0].0@ == keyv);
                            } else {
                                assert(out@[j] == restraw[j - 1]);
                            }
                        }
                        assert(crate::model::pairs_v(out@) =~= seq![(keyv, tv)] + restv);
                    }
                    Result::Ok(out)
                },
            }
        },
    }
}

} // verus!


