//! The type registry: it owns the pending named definitions of one schema
//! graph, memoizes every resolved declaration in first-resolution order, and
//! carries the in-progress markers that break reference cycles.
//!
//! The resolved declarations live in an insertion-ordered map from the
//! `indexmap` crate; its behaviour enters the proofs only through the trusted
//! items below.

use vstd::prelude::*;

use crate::schema::{defs_v, schema_v, Schema, SchemaV};

verus! {

broadcast use crate::schema::lemma_defs_v;

// An association sequence with the semantics of an insertion-ordered map:
// a lookup takes the first entry with the key, an insert replaces the value
// of an existing key in place and appends a new key at the end.

/// Whether an association sequence holds the key.
pub open spec fn assoc_contains<X>(s: Seq<(Seq<char>, X)>, k: Seq<char>) -> bool {
    exists|i: int| 0 <= i < s.len() && s[i].0 == k
}

/// The value of the first entry with the key.
pub open spec fn assoc_lookup<X>(s: Seq<(Seq<char>, X)>, k: Seq<char>) -> Option<X>
    decreases s.len(),
{
    if s.len() == 0 {
        Option::None
    } else if s[0].0 == k {
        Option::Some(s[0].1)
    } else {
        assoc_lookup(s.drop_first(), k)
    }
}

/// Insertion-ordered insert: an existing key keeps its place and takes the
/// new value; a new key is appended last.
pub open spec fn assoc_insert<X>(s: Seq<(Seq<char>, X)>, k: Seq<char>, v: X) -> Seq<
    (Seq<char>, X),
>
    decreases s.len(),
{
    if s.len() == 0 {
        seq![(k, v)]
    } else if s[0].0 == k {
        seq![(k, v)] + s.drop_first()
    } else {
        seq![s[0]] + assoc_insert(s.drop_first(), k, v)
    }
}

/// No two entries share a key.
pub open spec fn distinct_keys<X>(s: Seq<(Seq<char>, X)>) -> bool {
    forall|i: int, j: int| 0 <= i < j < s.len() ==> s[i].0 != s[j].0
}

pub proof fn lemma_assoc_lookup_contains<X>(s: Seq<(Seq<char>, X)>, k: Seq<char>)
    ensures
        assoc_lookup(s, k) is Some <==> assoc_contains(s, k),
    decreases s.len(),
{
    if s.len() > 0 && s[0].0 != k {
        lemma_assoc_lookup_contains(s.drop_first(), k);
        assert forall|i: int| 0 <= i < s.len() && s[i].0 == k implies assoc_contains(
            s.drop_first(),
            k,
        ) by {
            assert(s.drop_first()[i - 1] == s[i]);
        }
        if assoc_contains(s.drop_first(), k) {
            let i = choose|i: int| 0 <= i < s.drop_first().len() && s.drop_first()[i].0 == k;
            assert(s[i + 1] == s.drop_first()[i]);
        }
    }
}

/// The keys after an insert are the old keys plus the inserted one, and
/// distinctness of keys is preserved.
pub proof fn lemma_assoc_insert_distinct<X>(s: Seq<(Seq<char>, X)>, k: Seq<char>, v: X)
    requires
        distinct_keys(s),
    ensures
        distinct_keys(assoc_insert(s, k, v)),
        forall|x: Seq<char>|
            assoc_contains(assoc_insert(s, k, v), x) <==> (assoc_contains(s, x) || x == k),
{
    let t = assoc_insert(s, k, v);
    if assoc_contains(s, k) {
        let j = choose|j: int| 0 <= j < s.len() && s[j].0 == k;
        lemma_assoc_insert_at(s, k, v, j);
        assert(forall|i: int| 0 <= i < t.len() ==> t[i].0 == s[i].0);
        assert forall|x: Seq<char>|
            assoc_contains(t, x) <==> (assoc_contains(s, x) || x == k) by {
            if assoc_contains(t, x) {
                let i = choose|i: int| 0 <= i < t.len() && t[i].0 == x;
                assert(s[i].0 == x);
            }
            if assoc_contains(s, x) {
                let i = choose|i: int| 0 <= i < s.len() && s[i].0 == x;
                assert(t[i].0 == x);
            }
        }
    } else {
        lemma_assoc_insert_append(s, k, v);
        assert forall|x: Seq<char>|
            assoc_contains(t, x) <==> (assoc_contains(s, x) || x == k) by {
            if assoc_contains(t, x) {
                let i = choose|i: int| 0 <= i < t.len() && t[i].0 == x;
                if i < s.len() {
                    assert(s[i].0 == x);
                }
            }
            if assoc_contains(s, x) {
                let i = choose|i: int| 0 <= i < s.len() && s[i].0 == x;
                assert(t[i].0 == x);
            }
            if x == k {
                assert(t[s.len() as int].0 == x);
            }
        }
        assert forall|i: int, j: int| 0 <= i < j < t.len() implies t[i].0 != t[j].0 by {
            if j < s.len() {
                assert(t[i] == s[i] && t[j] == s[j]);
            } else {
                assert(t[j].0 == k);
                assert(t[i] == s[i]);
                assert(!assoc_contains(s, k));
                assert(s[i].0 != k);
            }
        }
    }
}

/// Inserting a key whose first occurrence is at `j` updates that entry in
/// place.
pub proof fn lemma_assoc_insert_at<X>(s: Seq<(Seq<char>, X)>, k: Seq<char>, v: X, j: int)
    requires
        0 <= j < s.len(),
        s[j].0 == k,
        forall|i: int| 0 <= i < j ==> s[i].0 != k,
    ensures
        assoc_insert(s, k, v) == s.update(j, (k, v)),
    decreases j,
{
    if j == 0 {
        assert(assoc_insert(s, k, v) =~= s.update(0, (k, v)));
    } else {
        assert(forall|i: int|
            0 <= i < j - 1 ==> s.drop_first()[i] == s[i + 1]);
        assert(s.drop_first()[j - 1] == s[j]);
        lemma_assoc_insert_at(s.drop_first(), k, v, j - 1);
        assert(assoc_insert(s, k, v) =~= s.update(j, (k, v)));
    }
}

/// Inserting an absent key appends the entry.
pub proof fn lemma_assoc_insert_append<X>(s: Seq<(Seq<char>, X)>, k: Seq<char>, v: X)
    requires
        !assoc_contains(s, k),
    ensures
        assoc_insert(s, k, v) == s.push((k, v)),
    decreases s.len(),
{
    if s.len() > 0 {
        assert(s[0].0 != k);
        assert forall|i: int| 0 <= i < s.drop_first().len() implies s.drop_first()[i].0 != k by {
            assert(s.drop_first()[i] == s[i + 1]);
        }
        lemma_assoc_insert_append(s.drop_first(), k, v);
        assert(assoc_insert(s, k, v) =~= s.push((k, v)));
    } else {
        assert(assoc_insert(s, k, v) =~= s.push((k, v)));
    }
}

/// A lookup skips over a prefix without the key.
pub proof fn lemma_assoc_lookup_skip<X>(s: Seq<(Seq<char>, X)>, k: Seq<char>, i: int)
    requires
        0 <= i <= s.len(),
        forall|j: int| 0 <= j < i ==> s[j].0 != k,
    ensures
        assoc_lookup(s, k) == assoc_lookup(s.skip(i), k),
    decreases i,
{
    if i > 0 {
        assert(s.skip(0) =~= s);
        assert(s.drop_first() =~= s.skip(1));
        assert(forall|j: int| 0 <= j < i - 1 ==> s.skip(1)[j] == s[j + 1]);
        lemma_assoc_lookup_skip(s.skip(1), k, i - 1);
        assert(s.skip(1).skip(i - 1) =~= s.skip(i));
    } else {
        assert(s.skip(0) =~= s);
    }
}

// The recursion context: the pending definitions and the in-progress names.
// The pending set never changes during one resolution; the in-progress set
// only grows downward along a recursion path.  The count of pending names not
// yet in progress therefore bounds every re-entry into the registry.

/// The context a resolution step runs in.
pub struct Ctx {
    pub pending: Seq<(Seq<char>, SchemaV)>,
    pub working: Seq<Seq<char>>,
}

impl Ctx {
    /// The context one level deeper, while the named definition is resolved.
    pub open spec fn enter(self, name: Seq<char>) -> Ctx {
        Ctx { pending: self.pending, working: self.working.push(name) }
    }
}

/// How many pending definitions are not currently being resolved.
pub open spec fn free_count(p: Seq<(Seq<char>, SchemaV)>, w: Seq<Seq<char>>) -> nat
    decreases p.len(),
{
    if p.len() == 0 {
        0
    } else {
        (if w.contains(p[0].0) {
            0nat
        } else {
            1nat
        }) + free_count(p.drop_first(), w)
    }
}

/// The termination measure a registry re-entry decreases.
pub open spec fn ctx_free(c: Ctx) -> nat {
    free_count(c.pending, c.working)
}

pub broadcast proof fn lemma_push_contains<X>(w: Seq<X>, n: X, x: X)
    ensures
        #[trigger] w.push(n).contains(x) <==> (w.contains(x) || x == n),
{
    if w.push(n).contains(x) {
        let i = choose|i: int| 0 <= i < w.push(n).len() && w.push(n)[i] == x;
        if i < w.len() {
            assert(w[i] == x);
        }
    }
    if w.contains(x) {
        let i = choose|i: int| 0 <= i < w.len() && w[i] == x;
        assert(w.push(n)[i] == x);
    }
    if x == n {
        assert(w.push(n)[w.len() as int] == x);
    }
}

pub proof fn lemma_free_count_mono(p: Seq<(Seq<char>, SchemaV)>, w: Seq<Seq<char>>, n: Seq<char>)
    ensures
        free_count(p, w.push(n)) <= free_count(p, w),
    decreases p.len(),
{
    if p.len() > 0 {
        lemma_push_contains(w, n, p[0].0);
        lemma_free_count_mono(p.drop_first(), w, n);
    }
}

/// Entering a pending name that was not in progress strictly decreases the
/// count of free pending definitions.
pub proof fn lemma_free_count_enter(p: Seq<(Seq<char>, SchemaV)>, w: Seq<Seq<char>>, n: Seq<char>)
    requires
        assoc_contains(p, n),
        !w.contains(n),
    ensures
        free_count(p, w.push(n)) < free_count(p, w),
    decreases p.len(),
{
    lemma_push_contains(w, n, p[0].0);
    if p[0].0 == n {
        assert(w.push(n).contains(n));
        lemma_free_count_mono(p.drop_first(), w, n);
    } else {
        assert forall|i: int|
            0 <= i < p.len() && p[i].0 == n implies assoc_contains(p.drop_first(), n) by {
            assert(p.drop_first()[i - 1] == p[i]);
        }
        lemma_free_count_enter(p.drop_first(), w, n);
    }
}

// The trusted boundary around the insertion-ordered map of the `indexmap`
// crate.  `index_map_entries` names its contents: the key-value pairs, as
// character sequences, in insertion order.

#[verifier::external_type_specification]
#[verifier::external_body]
#[verifier::reject_recursive_types(K)]
#[verifier::reject_recursive_types(V)]
#[verifier::reject_recursive_types(S)]
pub struct ExIndexMap<K, V, S>(indexmap::map::IndexMap<K, V, S>);

pub uninterp spec fn index_map_entries(m: indexmap::map::IndexMap<String, String>) -> Seq<
    (Seq<char>, Seq<char>),
>;

/// Relies on indexmap's `IndexMap::new`: the map starts empty.
#[verifier::external_body]
fn index_map_new() -> (m: indexmap::map::IndexMap<String, String>)
    ensures
        index_map_entries(m) == Seq::<(Seq<char>, Seq<char>)>::empty(),
{
    indexmap::map::IndexMap::new()
}

/// Relies on indexmap's `IndexMap::insert`: an existing equivalent key keeps
/// its place in the order and its value is replaced; a new key is appended
/// last.  Two `String` keys are equivalent exactly when their character
/// sequences are equal.
#[verifier::external_body]
fn index_map_insert(m: &mut indexmap::map::IndexMap<String, String>, k: String, v: String)
    ensures
        index_map_entries(*final(m)) == assoc_insert(index_map_entries(*old(m)), k@, v@),
{
    m.insert(k, v);
}

/// Relies on indexmap's `IndexMap::contains_key`: true exactly when an
/// equivalent key is present.
#[verifier::external_body]
fn index_map_contains(m: &indexmap::map::IndexMap<String, String>, k: &String) -> (r: bool)
    ensures
        r == assoc_contains(index_map_entries(*m), k@),
{
    m.contains_key(k)
}

/// Relies on indexmap's `IndexMap::iter`: the key-value pairs, in insertion
/// order.
#[verifier::external_body]
fn index_map_pairs(m: &indexmap::map::IndexMap<String, String>) -> (r: Vec<(String, String)>)
    ensures
        r@.len() == index_map_entries(*m).len(),
        forall|i: int|
            0 <= i < r@.len() ==> r@[i].0@ == index_map_entries(*m)[i].0 && r@[i].1@
                == index_map_entries(*m)[i].1,
{
    m.iter().map(|p| (p.0.clone(), p.1.clone())).collect()
}

/// The registry of one schema graph's types: the declarations resolved so
/// far (in first-resolution order), the names currently being resolved, and
/// the raw pending definitions referenced types are looked up in.
pub struct ExternalTypeCollector {
    parsed_types: indexmap::map::IndexMap<String, String>,
    working_on: Vec<String>,
    types_to_parse: Vec<(String, Schema)>,
}

/// The registry's mathematical state.
pub struct RegModel {
    pub resolved: Seq<(Seq<char>, Seq<char>)>,
    pub ctx: Ctx,
}

impl View for ExternalTypeCollector {
    type V = RegModel;

    closed spec fn view(&self) -> RegModel {
        RegModel {
            resolved: index_map_entries(self.parsed_types),
            ctx: Ctx {
                pending: defs_v(self.types_to_parse@),
                working: self.working_on.deep_view(),
            },
        }
    }
}

impl ExternalTypeCollector {
    /// The registry's invariant: each resolved name occurs at most once.
    pub open spec fn wf(&self) -> bool {
        distinct_keys(self@.resolved)
    }

    /// An empty registry.
    pub fn new() -> (r: Self)
        ensures
            r@.resolved == Seq::<(Seq<char>, Seq<char>)>::empty(),
            r@.ctx.pending == Seq::<(Seq<char>, SchemaV)>::empty(),
            r@.ctx.working == Seq::<Seq<char>>::empty(),
            r.wf(),
    {
        let r = ExternalTypeCollector {
            parsed_types: index_map_new(),
            working_on: Vec::new(),
            types_to_parse: Vec::new(),
        };
        proof {
            assert(r@.ctx.working =~= Seq::<Seq<char>>::empty());
        }
        r
    }

    /// All declarations generated through this registry, as name-text pairs
    /// in first-resolution order.
    pub fn get_external_types(&self) -> (r: Vec<(String, String)>)
        ensures
            r@.len() == self@.resolved.len(),
            forall|i: int|
                0 <= i < r@.len() ==> r@[i].0@ == self@.resolved[i].0 && r@[i].1@
                    == self@.resolved[i].1,
    {
        index_map_pairs(&self.parsed_types)
    }

    pub(crate) fn working_contains(&self, name: &String) -> (r: bool)
        ensures
            r == self@.ctx.working.contains(name@),
    {
        let mut i: usize = 0;
        while i < self.working_on.len()
            invariant
                0 <= i <= self.working_on.len(),
                forall|j: int| 0 <= j < i ==> self.working_on@[j]@ != name@,
            decreases self.working_on.len() - i,
        {
            if self.working_on[i] == *name {
                proof {
                    assert(self@.ctx.working[i as int] == name@);
                }
                return true;
            }
            i = i + 1;
        }
        proof {
            assert forall|j: int|
                0 <= j < self@.ctx.working.len() implies self@.ctx.working[j] != name@ by {
                assert(self@.ctx.working[j] == self.working_on@[j]@);
            }
        }
        false
    }

    pub(crate) fn resolved_contains(&self, name: &String) -> (r: bool)
        ensures
            r == assoc_contains(self@.resolved, name@),
    {
        index_map_contains(&self.parsed_types, name)
    }

    pub(crate) fn lookup_pending(&self, name: &String) -> (r: Option<Schema>)
        ensures
            match r {
                Option::None => assoc_lookup(self@.ctx.pending, name@) is None,
                Option::Some(s) => assoc_lookup(self@.ctx.pending, name@) == Option::Some(
                    schema_v(s),
                ),
            },
    {
        let ghost pend = self@.ctx.pending;
        let mut i: usize = 0;
        while i < self.types_to_parse.len()
            invariant
                0 <= i <= self.types_to_parse.len(),
                pend == self@.ctx.pending,
                pend.len() == self.types_to_parse@.len(),
                forall|j: int|
                    0 <= j < pend.len() ==> pend[j] == (
                        self.types_to_parse@[j].0@,
                        schema_v(self.types_to_parse@[j].1),
                    ),
                forall|j: int| 0 <= j < i ==> pend[j].0 != name@,
            decreases self.types_to_parse.len() - i,
        {
            if self.types_to_parse[i].0 == *name {
                let found = self.types_to_parse[i].1.clone();
                proof {
                    lemma_assoc_lookup_skip(pend, name@, i as int);
                    assert(pend.skip(i as int)[0] == pend[i as int]);
                }
                return Option::Some(found);
            }
            i = i + 1;
        }
        proof {
            lemma_assoc_lookup_skip(pend, name@, pend.len() as int);
            assert(pend.skip(pend.len() as int).len() == 0);
        }
        Option::None
    }

    pub(crate) fn push_working(&mut self, name: String)
        ensures
            final(self)@.ctx.working == old(self)@.ctx.working.push(name@),
            final(self)@.ctx.pending == old(self)@.ctx.pending,
            final(self)@.resolved == old(self)@.resolved,
    {
        self.working_on.push(name);
        proof {
            assert(self@.ctx.working =~= old(self)@.ctx.working.push(
                self.working_on@[self.working_on@.len() - 1]@,
            ));
        }
    }

    pub(crate) fn pop_working(&mut self)
        requires
            old(self)@.ctx.working.len() > 0,
        ensures
            final(self)@.ctx.working == old(self)@.ctx.working.drop_last(),
            final(self)@.ctx.pending == old(self)@.ctx.pending,
            final(self)@.resolved == old(self)@.resolved,
    {
        let _ = self.working_on.pop();
        proof {
            assert(self@.ctx.working =~= old(self)@.ctx.working.drop_last());
        }
    }

    pub(crate) fn insert_resolved(&mut self, k: String, v: String)
        ensures
            final(self)@.resolved == assoc_insert(old(self)@.resolved, k@, v@),
            final(self)@.ctx == old(self)@.ctx,
    {
        index_map_insert(&mut self.parsed_types, k, v);
    }

    pub(crate) fn insert_pending(&mut self, k: String, v: Schema)
        ensures
            final(self)@.ctx.pending == assoc_insert(old(self)@.ctx.pending, k@, schema_v(v)),
            final(self)@.ctx.working == old(self)@.ctx.working,
            final(self)@.resolved == old(self)@.resolved,
    {
        let ghost pend = self@.ctx.pending;
        let ghost entry = (k@, schema_v(v));
        let mut i: usize = 0;
        while i < self.types_to_parse.len()
            invariant
                0 <= i <= self.types_to_parse.len(),
                pend == self@.ctx.pending,
                pend.len() == self.types_to_parse@.len(),
                forall|j: int|
                    0 <= j < pend.len() ==> pend[j] == (
                        self.types_to_parse@[j].0@,
                        schema_v(self.types_to_parse@[j].1),
                    ),
                forall|j: int| 0 <= j < i ==> pend[j].0 != k@,
                entry == (k@, schema_v(v)),
                self.parsed_types == old(self).parsed_types,
                self.working_on == old(self).working_on,
                pend == old(self)@.ctx.pending,
            decreases self.types_to_parse.len() - i,
        {
            if self.types_to_parse[i].0 == k {
                proof {
                    lemma_assoc_insert_at(pend, k@, schema_v(v), i as int);
                }
                let ghost oldv = self.types_to_parse@;
                let pair = (k, v);
                proof {
                    assert((pair.0@, schema_v(pair.1)) == entry);
                }
                self.types_to_parse.set(i, pair);
                proof {
                    let newv = self.types_to_parse@;
                    crate::schema::lemma_defs_v(newv);
                    crate::schema::lemma_defs_v(oldv);
                    let target = pend.update(i as int, entry);
                    assert(defs_v(newv).len() == target.len());
                    assert(defs_v(newv)[i as int] == (newv[i as int].0@, schema_v(
                        newv[i as int].1,
                    )));
                    assert(defs_v(newv)[i as int] == entry);
                    assert forall|j: int|
                        0 <= j < newv.len() && j != i implies defs_v(newv)[j] == target[j] by {
                        assert(defs_v(newv)[j] == (newv[j].0@, schema_v(newv[j].1)));
                        assert(newv[j] == oldv[j]);
                        assert(pend[j] == (oldv[j].0@, schema_v(oldv[j].1)));
                        assert(target[j] == pend[j]);
                    }
                    assert(defs_v(newv) =~= target);
                }
                return ;
            }
            i = i + 1;
        }
        proof {
            assert(!assoc_contains(pend, k@));
            lemma_assoc_insert_append(pend, k@, schema_v(v));
        }
        let ghost oldv = self.types_to_parse@;
        self.types_to_parse.push((k, v));
        proof {
            let newv = self.types_to_parse@;
            assert(newv == oldv.push((k, v)));
            assert forall|j: int|
                0 <= j < newv.len() implies defs_v(newv)[j] == pend.push(entry)[j] by {
                if j < oldv.len() {
                    assert(newv[j] == oldv[j]);
                } else {
                    assert(newv[j] == (k, v));
                }
            }
            assert(defs_v(newv) =~= pend.push(entry));
        }
    }

    /// Add a batch of named definitions to the pending set, first to last; a
    /// definition for an already-pending name replaces it.
    pub fn add_types_to_parse(&mut self, types: Vec<(String, Schema)>)
        ensures
            final(self)@.ctx.pending == spec_add_pending(old(self)@.ctx.pending, defs_v(types@)),
            final(self)@.ctx.working == old(self)@.ctx.working,
            final(self)@.resolved == old(self)@.resolved,
    {
        let ghost goal = spec_add_pending(self@.ctx.pending, defs_v(types@));
        let mut types = types;
        while types.len() > 0
            invariant
                goal == spec_add_pending(self@.ctx.pending, defs_v(types@)),
                self@.ctx.working == old(self)@.ctx.working,
                self@.resolved == old(self)@.resolved,
            decreases types.len(),
        {
            proof {
                crate::schema::lemma_defs_v(types@);
                assert(defs_v(types@)[0] == (types@[0].0@, schema_v(types@[0].1)));
                crate::schema::lemma_defs_v(types@.drop_first());
                assert(defs_v(types@.drop_first()) =~= defs_v(types@).drop_first());
            }
            let p = types.remove(0);
            self.insert_pending(p.0, p.1);
        }
        proof {
            assert(defs_v(types@).len() == 0);
        }
    }
}

/// The pending set after a batch of definitions is added in order.
pub open spec fn spec_add_pending(
    p: Seq<(Seq<char>, SchemaV)>,
    defs: Seq<(Seq<char>, SchemaV)>,
) -> Seq<(Seq<char>, SchemaV)>
    decreases defs.len(),
{
    if defs.len() == 0 {
        p
    } else {
        spec_add_pending(assoc_insert(p, defs[0].0, defs[0].1), defs.drop_first())
    }
}

} // verus!
