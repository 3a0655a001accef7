//! The schema node model: the closed set of node shapes the translation
//! consumes, its mathematical view, and the structural size measure that
//! bounds the recursion over a node.

use vstd::prelude::*;

verus! {

/// The scalar kind a node declares for the values it describes.
#[derive(Clone, Copy, Debug, PartialEq, Eq, Structural)]
pub enum InstanceType {
    Null,
    Boolean,
    Object,
    Array,
    Number,
    Str,
    Integer,
}

/// One literal value of an enumeration node.  Only string literals can be
/// turned into variant names; every other shape is kept as `Other` and is
/// rejected when a simple enumeration is generated from it.
pub enum Literal {
    Str(String),
    Other,
}

/// One named field of an object-shaped node, in declaration order.
pub struct Property {
    pub name: String,
    pub value: Schema,
}

/// The element schemas of an array-shaped node: a single element type
/// (a homogeneous sequence) or a fixed-arity tuple of element types.
pub enum Items {
    Single(Box<Schema>),
    Multiple(Vec<Schema>),
}

/// A typed schema node.  Absent parts are `None`; the translation dispatches
/// on which parts are present.
pub struct SchemaObject {
    /// The explicit type name, when the node carries one.
    pub title: Option<String>,
    /// The declared instance kinds, in declaration order.
    pub instance_type: Option<Vec<InstanceType>>,
    /// The named fields of the object part, in declaration order.
    pub properties: Option<Vec<Property>>,
    /// The element schemas of the array part.
    pub items: Option<Items>,
    /// The literal values of an enumeration node, in declaration order.
    pub enum_values: Option<Vec<Literal>>,
    /// The branches of an any-of union, in declaration order.
    pub any_of: Option<Vec<Schema>>,
    /// A pointer to a named definition resolved through the registry.
    pub reference: Option<String>,
}

/// A schema node: either the permissive placeholder (it accepts any value and
/// names no real type) or a typed node.
pub enum Schema {
    Any,
    Object(SchemaObject),
}

/// A root schema: the node to translate plus the auxiliary named definitions
/// that references reachable from it may point to.
pub struct RootSchema {
    pub schema: SchemaObject,
    pub definitions: Vec<(String, Schema)>,
}

// The mathematical view of a node: the same tree with strings as character
// sequences and vectors as sequences.  All contracts speak of these views.

pub enum LitV {
    Str(Seq<char>),
    Other,
}

pub struct PropV {
    pub name: Seq<char>,
    pub value: SchemaV,
}

pub enum ItemsV {
    Single(Box<SchemaV>),
    Multiple(Seq<SchemaV>),
}

pub struct SchemaObjectV {
    pub title: Option<Seq<char>>,
    pub instance_type: Option<Seq<InstanceType>>,
    pub properties: Option<Seq<PropV>>,
    pub items: Option<ItemsV>,
    pub enum_values: Option<Seq<LitV>>,
    pub any_of: Option<Seq<SchemaV>>,
    pub reference: Option<Seq<char>>,
}

pub enum SchemaV {
    Any,
    Object(SchemaObjectV),
}

pub struct RootV {
    pub schema: SchemaObjectV,
    pub definitions: Seq<(Seq<char>, SchemaV)>,
}

pub open spec fn lit_v(l: Literal) -> LitV {
    match l {
        Literal::Str(s) => LitV::Str(s@),
        Literal::Other => LitV::Other,
    }
}

pub open spec fn lits_v(s: Seq<Literal>) -> Seq<LitV>
    decreases s,
{
    if s.len() == 0 {
        Seq::empty()
    } else {
        seq![lit_v(s[0])] + lits_v(s.drop_first())
    }
}

pub open spec fn schema_v(s: Schema) -> SchemaV
    decreases s,
{
    match s {
        Schema::Any => SchemaV::Any,
        Schema::Object(o) => SchemaV::Object(obj_v(o)),
    }
}

pub open spec fn obj_v(o: SchemaObject) -> SchemaObjectV
    decreases o,
{
    SchemaObjectV {
        title: match o.title {
            Option::Some(t) => Option::Some(t@),
            Option::None => Option::None,
        },
        instance_type: match o.instance_type {
            Option::Some(v) => Option::Some(v@),
            Option::None => Option::None,
        },
        properties: match o.properties {
            Option::Some(v) => Option::Some(props_v(v@)),
            Option::None => Option::None,
        },
        items: match o.items {
            Option::Some(i) => Option::Some(items_v(i)),
            Option::None => Option::None,
        },
        enum_values: match o.enum_values {
            Option::Some(v) => Option::Some(lits_v(v@)),
            Option::None => Option::None,
        },
        any_of: match o.any_of {
            Option::Some(v) => Option::Some(schemas_v(v@)),
            Option::None => Option::None,
        },
        reference: match o.reference {
            Option::Some(r) => Option::Some(r@),
            Option::None => Option::None,
        },
    }
}

pub open spec fn prop_v(p: Property) -> PropV
    decreases p,
{
    PropV { name: p.name@, value: schema_v(p.value) }
}

pub open spec fn props_v(s: Seq<Property>) -> Seq<PropV>
    decreases s,
{
    if s.len() == 0 {
        Seq::empty()
    } else {
        seq![prop_v(s[0])] + props_v(s.drop_first())
    }
}

pub open spec fn items_v(i: Items) -> ItemsV
    decreases i,
{
    match i {
        Items::Single(b) => ItemsV::Single(Box::new(schema_v(*b))),
        Items::Multiple(v) => ItemsV::Multiple(schemas_v(v@)),
    }
}

pub open spec fn schemas_v(s: Seq<Schema>) -> Seq<SchemaV>
    decreases s,
{
    if s.len() == 0 {
        Seq::empty()
    } else {
        seq![schema_v(s[0])] + schemas_v(s.drop_first())
    }
}

pub open spec fn defs_v(s: Seq<(String, Schema)>) -> Seq<(Seq<char>, SchemaV)>
    decreases s,
{
    if s.len() == 0 {
        Seq::empty()
    } else {
        seq![(s[0].0@, schema_v(s[0].1))] + defs_v(s.drop_first())
    }
}

pub open spec fn root_v(r: RootSchema) -> RootV {
    RootV { schema: obj_v(r.schema), definitions: defs_v(r.definitions@) }
}

// Pointwise characterization of the sequence views.

pub broadcast proof fn lemma_props_v(s: Seq<Property>)
    ensures
        (#[trigger] props_v(s)).len() == s.len(),
        forall|i: int| 0 <= i < s.len() ==> props_v(s)[i] == prop_v(s[i]),
    decreases s.len(),
{
    if s.len() > 0 {
        lemma_props_v(s.drop_first());
    }
}

pub broadcast proof fn lemma_schemas_v(s: Seq<Schema>)
    ensures
        (#[trigger] schemas_v(s)).len() == s.len(),
        forall|i: int| 0 <= i < s.len() ==> schemas_v(s)[i] == schema_v(s[i]),
    decreases s.len(),
{
    if s.len() > 0 {
        lemma_schemas_v(s.drop_first());
    }
}

pub broadcast proof fn lemma_lits_v(s: Seq<Literal>)
    ensures
        (#[trigger] lits_v(s)).len() == s.len(),
        forall|i: int| 0 <= i < s.len() ==> lits_v(s)[i] == lit_v(s[i]),
    decreases s.len(),
{
    if s.len() > 0 {
        lemma_lits_v(s.drop_first());
    }
}

pub broadcast proof fn lemma_defs_v(s: Seq<(String, Schema)>)
    ensures
        (#[trigger] defs_v(s)).len() == s.len(),
        forall|i: int|
            0 <= i < s.len() ==> defs_v(s)[i] == (s[i].0@, schema_v(s[i].1)),
    decreases s.len(),
{
    if s.len() > 0 {
        lemma_defs_v(s.drop_first());
    }
}

// The structural size of a node view.  Every recursive descent over a node
// decreases this measure, except when a reference re-enters the registry,
// where the count of still-unresolved pending definitions decreases instead.

pub open spec fn schema_size(s: SchemaV) -> nat
    decreases s,
{
    match s {
        SchemaV::Any => 1,
        SchemaV::Object(o) => obj_size(o) + 1,
    }
}

pub open spec fn obj_size(o: SchemaObjectV) -> nat
    decreases o,
{
    props_opt_size(o.properties) + items_opt_size(o.items) + alts_opt_size(o.any_of) + 1
}

pub open spec fn props_opt_size(p: Option<Seq<PropV>>) -> nat
    decreases p,
{
    match p {
        Option::None => 0,
        Option::Some(v) => props_size(v) + 1,
    }
}

pub open spec fn props_size(s: Seq<PropV>) -> nat
    decreases s,
{
    if s.len() == 0 {
        0
    } else {
        schema_size(s[0].value) + props_size(s.drop_first()) + 1
    }
}

pub open spec fn items_opt_size(i: Option<ItemsV>) -> nat
    decreases i,
{
    match i {
        Option::None => 0,
        Option::Some(ItemsV::Single(b)) => schema_size(*b) + 1,
        Option::Some(ItemsV::Multiple(v)) => schemas_size(v) + 1,
    }
}

pub open spec fn alts_opt_size(a: Option<Seq<SchemaV>>) -> nat
    decreases a,
{
    match a {
        Option::None => 0,
        Option::Some(v) => schemas_size(v) + 1,
    }
}

pub open spec fn schemas_size(s: Seq<SchemaV>) -> nat
    decreases s,
{
    if s.len() == 0 {
        0
    } else {
        schema_size(s[0]) + schemas_size(s.drop_first()) + 1
    }
}

// How a sequence's size unfolds at an arbitrary split point.  These drive both
// the termination measures of the list-shaped recursions and the bound of an
// element's size by its container's.

pub broadcast proof fn lemma_props_size_split(s: Seq<PropV>, i: int)
    requires
        0 <= i < s.len(),
    ensures
        #[trigger] props_size(s.skip(i)) == schema_size(s[i].value) + props_size(s.skip(i + 1))
            + 1,
{
    assert(s.skip(i).len() > 0);
    assert(s.skip(i)[0] == s[i]);
    assert(s.skip(i).drop_first() =~= s.skip(i + 1));
}

pub broadcast proof fn lemma_schemas_size_split(s: Seq<SchemaV>, i: int)
    requires
        0 <= i < s.len(),
    ensures
        #[trigger] schemas_size(s.skip(i)) == schema_size(s[i]) + schemas_size(s.skip(i + 1)) + 1,
{
    assert(s.skip(i).len() > 0);
    assert(s.skip(i)[0] == s[i]);
    assert(s.skip(i).drop_first() =~= s.skip(i + 1));
}

pub proof fn lemma_props_size_le(s: Seq<PropV>, i: int)
    requires
        0 <= i <= s.len(),
    ensures
        props_size(s.skip(i)) <= props_size(s),
    decreases i,
{
    if i > 0 {
        lemma_props_size_le(s, i - 1);
        lemma_props_size_split(s, i - 1);
    } else {
        assert(s.skip(0) =~= s);
    }
}

pub proof fn lemma_schemas_size_le(s: Seq<SchemaV>, i: int)
    requires
        0 <= i <= s.len(),
    ensures
        schemas_size(s.skip(i)) <= schemas_size(s),
    decreases i,
{
    if i > 0 {
        lemma_schemas_size_le(s, i - 1);
        lemma_schemas_size_split(s, i - 1);
    } else {
        assert(s.skip(0) =~= s);
    }
}

pub broadcast proof fn lemma_props_size_elem(s: Seq<PropV>, i: int)
    requires
        0 <= i < s.len(),
    ensures
        #[trigger] schema_size(s[i].value) < props_size(s),
{
    lemma_props_size_le(s, i);
    lemma_props_size_split(s, i);
}

pub broadcast proof fn lemma_schemas_size_elem(s: Seq<SchemaV>, i: int)
    requires
        0 <= i < s.len(),
    ensures
        #[trigger] schema_size(s[i]) < schemas_size(s),
{
    lemma_schemas_size_le(s, i);
    lemma_schemas_size_split(s, i);
}

impl Clone for Literal {
    fn clone(&self) -> (res: Self)
        ensures
            lit_v(res) == lit_v(*self),
    {
        match self {
            Literal::Str(s) => Literal::Str(s.clone()),
            Literal::Other => Literal::Other,
        }
    }
}

impl Clone for Schema {
    fn clone(&self) -> (res: Self)
        ensures
            schema_v(res) == schema_v(*self),
        decreases schema_size(schema_v(*self)), 0nat,
    {
        match self {
            Schema::Any => Schema::Any,
            Schema::Object(o) => Schema::Object(o.clone()),
        }
    }
}

impl Clone for SchemaObject {
    fn clone(&self) -> (res: Self)
        ensures
            obj_v(res) == obj_v(*self),
        decreases obj_size(obj_v(*self)), 0nat,
    {
        let title = match &self.title {
            Option::Some(t) => Option::Some(t.clone()),
            Option::None => Option::None,
        };
        let instance_type = match &self.instance_type {
            Option::Some(v) => Option::Some(clone_instance_types(v)),
            Option::None => Option::None,
        };
        let properties = match &self.properties {
            Option::Some(v) => Option::Some(clone_properties(v)),
            Option::None => Option::None,
        };
        let items = match &self.items {
            Option::Some(i) => Option::Some(i.clone()),
            Option::None => Option::None,
        };
        let enum_values = match &self.enum_values {
            Option::Some(v) => Option::Some(clone_literals(v)),
            Option::None => Option::None,
        };
        let any_of = match &self.any_of {
            Option::Some(v) => Option::Some(clone_schemas(v)),
            Option::None => Option::None,
        };
        let reference = match &self.reference {
            Option::Some(r) => Option::Some(r.clone()),
            Option::None => Option::None,
        };
        SchemaObject { title, instance_type, properties, items, enum_values, any_of, reference }
    }
}

impl Clone for Property {
    fn clone(&self) -> (res: Self)
        ensures
            prop_v(res) == prop_v(*self),
        decreases schema_size(schema_v(self.value)), 1nat,
    {
        Property { name: self.name.clone(), value: self.value.clone() }
    }
}

impl Clone for Items {
    fn clone(&self) -> (res: Self)
        ensures
            items_v(res) == items_v(*self),
        decreases items_opt_size(Option::Some(items_v(*self))), 0nat,
    {
        match self {
            Items::Single(b) => Items::Single(Box::new((**b).clone())),
            Items::Multiple(v) => Items::Multiple(clone_schemas(v)),
        }
    }
}

fn clone_instance_types(v: &Vec<InstanceType>) -> (res: Vec<InstanceType>)
    ensures
        res@ == v@,
{
    let mut res: Vec<InstanceType> = Vec::new();
    let mut i: usize = 0;
    while i < v.len()
        invariant
            0 <= i <= v.len(),
            res@ =~= v@.subrange(0, i as int),
        decreases v.len() - i,
    {
        res.push(v[i]);
        i = i + 1;
    }
    proof {
        assert(res@ =~= v@);
    }
    res
}

fn clone_literals(v: &Vec<Literal>) -> (res: Vec<Literal>)
    ensures
        lits_v(res@) == lits_v(v@),
{
    let mut res: Vec<Literal> = Vec::new();
    let mut i: usize = 0;
    while i < v.len()
        invariant
            0 <= i <= v.len(),
            res@.len() == i,
            forall|j: int| 0 <= j < i ==> lit_v(res@[j]) == lit_v(v@[j]),
        decreases v.len() - i,
    {
        res.push(v[i].clone());
        i = i + 1;
    }
    proof {
        lemma_lits_v(res@);
        lemma_lits_v(v@);
        assert(lits_v(res@) =~= lits_v(v@));
    }
    res
}

fn clone_properties(v: &Vec<Property>) -> (res: Vec<Property>)
    ensures
        props_v(res@) == props_v(v@),
    decreases props_size(props_v(v@)), 9nat,
{
    let mut res: Vec<Property> = Vec::new();
    let mut i: usize = 0;
    while i < v.len()
        invariant
            0 <= i <= v.len(),
            res@.len() == i,
            forall|j: int| 0 <= j < i ==> prop_v(res@[j]) == prop_v(v@[j]),
        decreases v.len() - i,
    {
        proof {
            lemma_props_v(v@);
            lemma_props_size_elem(props_v(v@), i as int);
        }
        res.push(v[i].clone());
        i = i + 1;
    }
    proof {
        lemma_props_v(res@);
        lemma_props_v(v@);
        assert(props_v(res@) =~= props_v(v@));
    }
    res
}

fn clone_schemas(v: &Vec<Schema>) -> (res: Vec<Schema>)
    ensures
        schemas_v(res@) == schemas_v(v@),
    decreases schemas_size(schemas_v(v@)), 9nat,
{
    let mut res: Vec<Schema> = Vec::new();
    let mut i: usize = 0;
    while i < v.len()
        invariant
            0 <= i <= v.len(),
            res@.len() == i,
            forall|j: int| 0 <= j < i ==> schema_v(res@[j]) == schema_v(v@[j]),
        decreases v.len() - i,
    {
        proof {
            lemma_schemas_v(v@);
            lemma_schemas_size_elem(schemas_v(v@), i as int);
        }
        res.push(v[i].clone());
        i = i + 1;
    }
    proof {
        lemma_schemas_v(res@);
        lemma_schemas_v(v@);
        assert(schemas_v(res@) =~= schemas_v(v@));
    }
    res
}

} // verus!
