//! The resource store the apply flow records state into, and the adapter
//! that scopes this tool's records under a fixed provider tag.
//!
//! The store is modelled as an id-keyed upsert store: one live record per id,
//! last write wins. This mirrors the semantics the apply pipeline relies on.

use vstd::prelude::*;

use crate::errors::ApplyError;
use crate::value::Value;

verus! {

/// A persisted unit: an opaque string id, the owning subsystem's provider
/// tag, and the structured state payload.
#[derive(Debug)]
pub struct Resource {
    pub id: String,
    pub provider: String,
    pub state: Value,
}

impl Resource {
    pub fn new(id: String, provider: &str, state: Value) -> (r: Resource)
        ensures
            r.id == id,
            r.provider@ == provider@,
            r.state == state,
    {
        Resource { id, provider: provider.to_owned(), state }
    }
}

/// First record holding an id, if any.
pub open spec fn find_resource(rs: Seq<Resource>, id: Seq<char>) -> Option<Resource>
    decreases rs.len(),
{
    if rs.len() == 0 {
        None
    } else if rs[0].id@ == id {
        Some(rs[0])
    } else {
        find_resource(rs.drop_first(), id)
    }
}

/// How many records hold an id.
pub open spec fn count_resources(rs: Seq<Resource>, id: Seq<char>) -> nat
    decreases rs.len(),
{
    if rs.len() == 0 {
        0
    } else {
        (if rs[0].id@ == id {
            1nat
        } else {
            0nat
        }) + count_resources(rs.drop_first(), id)
    }
}

/// At most one live record per id.
pub open spec fn ids_unique(rs: Seq<Resource>) -> bool {
    forall|i: int, j: int| 0 <= i < j < rs.len() ==> (#[trigger] rs[i]).id@ != (#[trigger] rs[j]).id@
}

pub proof fn lemma_find_first_match(rs: Seq<Resource>, id: Seq<char>, j: int)
    requires
        0 <= j < rs.len(),
        rs[j].id@ == id,
        forall|i: int| 0 <= i < j ==> (#[trigger] rs[i]).id@ != id,
    ensures
        find_resource(rs, id) == Some(rs[j]),
    decreases j,
{
    if j > 0 {
        lemma_find_first_match(rs.drop_first(), id, j - 1);
    }
}

pub proof fn lemma_find_none(rs: Seq<Resource>, id: Seq<char>)
    requires
        forall|i: int| 0 <= i < rs.len() ==> (#[trigger] rs[i]).id@ != id,
    ensures
        find_resource(rs, id) is None,
    decreases rs.len(),
{
    if rs.len() > 0 {
        lemma_find_none(rs.drop_first(), id);
    }
}

pub proof fn lemma_count_zero(rs: Seq<Resource>, id: Seq<char>)
    requires
        forall|i: int| 0 <= i < rs.len() ==> (#[trigger] rs[i]).id@ != id,
    ensures
        count_resources(rs, id) == 0,
    decreases rs.len(),
{
    if rs.len() > 0 {
        lemma_count_zero(rs.drop_first(), id);
    }
}

/// With unique ids, a present id is held by exactly one record.
pub proof fn lemma_count_unique(rs: Seq<Resource>, id: Seq<char>)
    requires
        ids_unique(rs),
    ensures
        count_resources(rs, id) == (if find_resource(rs, id) is Some {
            1nat
        } else {
            0nat
        }),
    decreases rs.len(),
{
    if rs.len() > 0 {
        if rs[0].id@ == id {
            lemma_count_zero(rs.drop_first(), id);
            lemma_find_none(rs.drop_first(), id);
        } else {
            lemma_count_unique(rs.drop_first(), id);
        }
    }
}

pub proof fn lemma_find_push(rs: Seq<Resource>, id: Seq<char>, r: Resource)
    ensures
        find_resource(rs.push(r), id) == (if find_resource(rs, id) is Some {
            find_resource(rs, id)
        } else if r.id@ == id {
            Some(r)
        } else {
            None
        }),
    decreases rs.len(),
{
    if rs.len() == 0 {
        reveal_with_fuel(find_resource, 3);
        assert(rs.push(r)[0] == r);
        assert(rs.push(r).drop_first() =~= Seq::<Resource>::empty());
    } else {
        assert(rs.push(r)[0] == rs[0]);
        assert(rs.push(r).drop_first() =~= rs.drop_first().push(r));
        lemma_find_push(rs.drop_first(), id, r);
    }
}

pub proof fn lemma_find_update(rs: Seq<Resource>, id: Seq<char>, j: int, r: Resource)
    requires
        ids_unique(rs),
        0 <= j < rs.len(),
        rs[j].id@ == r.id@,
    ensures
        find_resource(rs.update(j, r), id) == (if id == r.id@ {
            Some(r)
        } else {
            find_resource(rs, id)
        }),
    decreases j,
{
    if j == 0 {
        assert(rs.update(0, r).drop_first() =~= rs.drop_first());
    } else {
        assert(rs.update(j, r).drop_first() =~= rs.drop_first().update(j - 1, r));
        lemma_find_update(rs.drop_first(), id, j - 1, r);
    }
}

pub proof fn lemma_find_remove(rs: Seq<Resource>, id: Seq<char>, j: int)
    requires
        ids_unique(rs),
        0 <= j < rs.len(),
        rs[j].id@ != id,
    ensures
        find_resource(rs.remove(j), id) == find_resource(rs, id),
    decreases j,
{
    if j == 0 {
        assert(rs.remove(0) =~= rs.drop_first());
    } else {
        assert(rs.remove(j)[0] == rs[0]);
        assert(rs.remove(j).drop_first() =~= rs.drop_first().remove(j - 1));
        lemma_find_remove(rs.drop_first(), id, j - 1);
    }
}

/// The generic resource store: an id-keyed upsert store with unique live ids.
pub struct ResourceStore {
    resources: Vec<Resource>,
}

impl View for ResourceStore {
    type V = Seq<Resource>;

    closed spec fn view(&self) -> Seq<Resource> {
        self.resources@
    }
}

/// Index of the record holding an id.
fn resource_index_of(resources: &Vec<Resource>, id: &String) -> (r: Option<usize>)
    ensures
        match r {
            Some(j) => j < resources@.len() && resources@[j as int].id@ == id@ && (forall|i: int|
                0 <= i < j ==> (#[trigger] resources@[i]).id@ != id@),
            None => forall|i: int|
                0 <= i < resources@.len() ==> (#[trigger] resources@[i]).id@ != id@,
        },
{
    let mut i: usize = 0;
    while i < resources.len()
        invariant
            i <= resources@.len(),
            forall|j: int| 0 <= j < i ==> (#[trigger] resources@[j]).id@ != id@,
        decreases resources@.len() - i,
    {
        if resources[i].id == *id {
            return Some(i);
        }
        i += 1;
    }
    None
}

impl ResourceStore {
    pub open spec fn wf(self) -> bool {
        ids_unique(self@)
    }

    pub fn new() -> (r: Self)
        ensures
            r@ =~= Seq::<Resource>::empty(),
            r.wf(),
    {
        ResourceStore { resources: Vec::new() }
    }

    /// Upserts a record: afterwards its id is held by exactly this record,
    /// and exactly once; every other id resolves as before.
    pub fn add_resource(&mut self, r: Resource)
        requires
            old(self).wf(),
        ensures
            (*final(self)).wf(),
            find_resource(final(self)@, r.id@) == Some(r),
            count_resources(final(self)@, r.id@) == 1,
            forall|id2: Seq<char>|
                id2 != r.id@ ==> #[trigger] find_resource(final(self)@, id2) == find_resource(
                    old(self)@,
                    id2,
                ),
    {
        let ghost before = self.resources@;
        match resource_index_of(&self.resources, &r.id) {
            Some(j) => {
                let ghost gr = r;
                proof {
                    lemma_find_first_match(before, gr.id@, j as int);
                    assert forall|id2: Seq<char>| true implies #[trigger] find_resource(
                        before.update(j as int, gr),
                        id2,
                    ) == (if id2 == gr.id@ {
                        Some(gr)
                    } else {
                        find_resource(before, id2)
                    }) by {
                        lemma_find_update(before, id2, j as int, gr);
                    }
                }
                self.resources[j] = r;
                proof {
                    assert(forall|i1: int, i2: int|
                        0 <= i1 < i2 < self.resources@.len() ==> (#[trigger] self.resources@[i1]).id@
                            != (#[trigger] self.resources@[i2]).id@);
                    lemma_count_unique(self.resources@, gr.id@);
                }
            },
            None => {
                let ghost gr = r;
                proof {
                    lemma_find_none(before, gr.id@);
                    assert forall|id2: Seq<char>| true implies #[trigger] find_resource(
                        before.push(gr),
                        id2,
                    ) == (if id2 == gr.id@ {
                        Some(gr)
                    } else {
                        find_resource(before, id2)
                    }) by {
                        lemma_find_push(before, id2, gr);
                    }
                }
                self.resources.push(r);
                proof {
                    assert(forall|i: int|
                        0 <= i < before.len() ==> (#[trigger] before[i]) == self.resources@[i]);
                    assert(forall|i1: int, i2: int|
                        0 <= i1 < i2 < self.resources@.len() ==> (#[trigger] self.resources@[i1]).id@
                            != (#[trigger] self.resources@[i2]).id@);
                    lemma_count_unique(self.resources@, gr.id@);
                }
            },
        }
    }

    /// The record holding an id, if any.
    pub fn get_resource<'a>(&'a self, id: &String) -> (r: Option<&'a Resource>)
        ensures
            match r {
                Some(res) => find_resource(self@, id@) == Some(*res),
                None => find_resource(self@, id@) is None,
            },
    {
        match resource_index_of(&self.resources, id) {
            Some(j) => {
                proof {
                    lemma_find_first_match(self.resources@, id@, j as int);
                }
                Some(&self.resources[j])
            },
            None => {
                proof {
                    lemma_find_none(self.resources@, id@);
                }
                None
            },
        }
    }

    /// All records, in store order.
    pub fn list_resources<'a>(&'a self) -> (r: &'a Vec<Resource>)
        ensures
            r@ == self@,
    {
        &self.resources
    }

    /// Deletes the record holding an id; fails, changing nothing, when no
    /// record holds it.
    pub fn remove_resource(&mut self, id: &String) -> (r: Result<(), ApplyError>)
        requires
            old(self).wf(),
        ensures
            (*final(self)).wf(),
            r is Ok <==> find_resource(old(self)@, id@) is Some,
            r is Ok ==> find_resource(final(self)@, id@) is None && (forall|id2: Seq<char>|
                id2 != id@ ==> #[trigger] find_resource(final(self)@, id2) == find_resource(
                    old(self)@,
                    id2,
                )),
            r matches Err(e) ==> *final(self) == *old(self) && e == (ApplyError::StateStore {
                id: *id,
            }),
    {
        let ghost before = self.resources@;
        match resource_index_of(&self.resources, id) {
            Some(j) => {
                proof {
                    lemma_find_first_match(before, id@, j as int);
                }
                let _removed = self.resources.remove(j);
                proof {
                    assert(forall|i1: int, i2: int|
                        0 <= i1 < i2 < self.resources@.len() ==> (#[trigger] self.resources@[i1]).id@
                            != (#[trigger] self.resources@[i2]).id@);
                    assert forall|i: int| 0 <= i < self.resources@.len() implies (
                    #[trigger] self.resources@[i]).id@ != id@ by {
                        if i < j {
                            assert(self.resources@[i] == before[i]);
                        } else {
                            assert(self.resources@[i] == before[i + 1]);
                        }
                    }
                    lemma_find_none(self.resources@, id@);
                    assert forall|id2: Seq<char>| id2 != id@ implies #[trigger] find_resource(
                        self.resources@,
                        id2,
                    ) == find_resource(before, id2) by {
                        lemma_find_remove(before, id2, j as int);
                    }
                }
                Ok(())
            },
            None => {
                proof {
                    lemma_find_none(before, id@);
                }
                Err(ApplyError::StateStore { id: id.clone() })
            },
        }
    }
}

/// The tag every record written by this tool carries, distinguishing them
/// from records owned by other subsystems sharing the store.
pub open spec fn provider_tag() -> Seq<char> {
    "tbd-cfg"@
}

/// The executable form of the provider tag.
pub fn provider_tag_string() -> (r: String)
    ensures
        r@ == provider_tag(),
{
    "tbd-cfg".to_owned()
}

/// The ids of the records this tool owns, in store order.
pub open spec fn tagged_ids(rs: Seq<Resource>) -> Seq<Seq<char>>
    decreases rs.len(),
{
    if rs.len() == 0 {
        Seq::empty()
    } else {
        let rest = tagged_ids(rs.drop_first());
        if rs[0].provider@ == provider_tag() {
            seq![rs[0].id@] + rest
        } else {
            rest
        }
    }
}

proof fn lemma_tagged_ids_push(rs: Seq<Resource>, r: Resource)
    ensures
        tagged_ids(rs.push(r)) == tagged_ids(rs) + (if r.provider@ == provider_tag() {
            seq![r.id@]
        } else {
            Seq::<Seq<char>>::empty()
        }),
    decreases rs.len(),
{
    if rs.len() == 0 {
        reveal_with_fuel(tagged_ids, 3);
        assert(rs.push(r)[0] == r);
        assert(rs.push(r).drop_first() =~= Seq::<Resource>::empty());
        if r.provider@ == provider_tag() {
            assert(tagged_ids(rs.push(r)) =~= tagged_ids(rs) + seq![r.id@]);
        } else {
            assert(tagged_ids(rs.push(r)) =~= tagged_ids(rs) + Seq::<Seq<char>>::empty());
        }
    } else {
        assert(rs.push(r)[0] == rs[0]);
        assert(rs.push(r).drop_first() =~= rs.drop_first().push(r));
        lemma_tagged_ids_push(rs.drop_first(), r);
        if rs[0].provider@ == provider_tag() {
            assert(tagged_ids(rs.push(r)) =~= tagged_ids(rs) + (if r.provider@ == provider_tag() {
                seq![r.id@]
            } else {
                Seq::<Seq<char>>::empty()
            }));
        }
    }
}

/// The adapter this tool sees the store through: every operation is scoped
/// to the fixed provider tag.
pub struct StateAdapter {
    store: ResourceStore,
}

impl View for StateAdapter {
    type V = Seq<Resource>;

    closed spec fn view(&self) -> Seq<Resource> {
        self.store@
    }
}

impl StateAdapter {
    pub open spec fn wf(self) -> bool {
        ids_unique(self@)
    }

    /// The snapshot recorded for a configuration name: present only when a
    /// record holds the id and carries this tool's tag.
    pub open spec fn config_snapshot(self, id: Seq<char>) -> Option<Value> {
        match find_resource(self@, id) {
            Some(r) => if r.provider@ == provider_tag() {
                Some(r.state)
            } else {
                None
            },
            None => None,
        }
    }

    /// How many records hold a configuration name, whatever their tag.
    pub open spec fn config_count(self, id: Seq<char>) -> nat {
        count_resources(self@, id)
    }

    pub fn new(store: ResourceStore) -> (r: Self)
        ensures
            r@ == store@,
            store.wf() ==> r.wf(),
    {
        StateAdapter { store }
    }

    /// Records a snapshot under a configuration name: a tagged resource is
    /// upserted, leaving exactly one record for that name.
    pub fn add_config_state(&mut self, id: String, state: Value)
        requires
            old(self).wf(),
        ensures
            (*final(self)).wf(),
            (*final(self)).config_snapshot(id@) == Some(state),
            (*final(self)).config_count(id@) == 1,
            forall|id2: Seq<char>|
                id2 != id@ ==> #[trigger] find_resource(final(self)@, id2) == find_resource(
                    old(self)@,
                    id2,
                ),
    {
        let tag = provider_tag_string();
        let resource = Resource::new(id, tag.as_str(), state);
        self.store.add_resource(resource);
    }

    /// The stored snapshot for a name, when present and owned by this tool.
    pub fn get_config<'a>(&'a self, id: &String) -> (r: Option<&'a Value>)
        ensures
            match r {
                Some(v) => self.config_snapshot(id@) == Some(*v),
                None => self.config_snapshot(id@) is None,
            },
    {
        match self.store.get_resource(id) {
            Some(res) => {
                if res.provider == provider_tag_string() {
                    Some(&res.state)
                } else {
                    None
                }
            },
            None => None,
        }
    }

    /// All configuration names this tool owns records for, in store order.
    pub fn list_configs(&self) -> (r: Vec<String>)
        ensures
            r@.map_values(|s: String| s@) == tagged_ids(self@),
    {
        let resources = self.store.list_resources();
        let tag = provider_tag_string();
        let mut out: Vec<String> = Vec::new();
        let mut i: usize = 0;
        while i < resources.len()
            invariant
                i <= resources@.len(),
                resources@ == self@,
                tag@ == provider_tag(),
                out@.map_values(|s: String| s@) == tagged_ids(resources@.take(i as int)),
            decreases resources@.len() - i,
        {
            proof {
                assert(resources@.take(i as int + 1) =~= resources@.take(i as int).push(
                    resources@[i as int],
                ));
                lemma_tagged_ids_push(resources@.take(i as int), resources@[i as int]);
            }
            if resources[i].provider == tag {
                let ghost prev = out@;
                out.push(resources[i].id.clone());
                proof {
                    assert(out@.map_values(|s: String| s@) =~= prev.map_values(|s: String| s@)
                        + seq![resources@[i as int].id@]);
                }
            } else {
                proof {
                    assert(tagged_ids(resources@.take(i as int + 1)) =~= tagged_ids(
                        resources@.take(i as int),
                    ));
                }
            }
            i += 1;
        }
        proof {
            assert(resources@.take(resources@.len() as int) =~= resources@);
        }
        out
    }

    /// Deletes this tool's record for a name; fails, changing nothing, when
    /// no tagged record holds it.
    pub fn remove_config(&mut self, id: &String) -> (r: Result<(), ApplyError>)
        requires
            old(self).wf(),
        ensures
            (*final(self)).wf(),
            r is Ok <==> old(self).config_snapshot(id@) is Some,
            r is Ok ==> (*final(self)).config_snapshot(id@) is None && (forall|id2: Seq<char>|
                id2 != id@ ==> #[trigger] find_resource(final(self)@, id2) == find_resource(
                    old(self)@,
                    id2,
                )),
            r matches Err(e) ==> *final(self) == *old(self) && e == (ApplyError::StateStore {
                id: *id,
            }),
    {
        let owned = match self.get_config(id) {
            Some(_) => true,
            None => false,
        };
        if owned {
            self.store.remove_resource(id)
        } else {
            Err(ApplyError::StateStore { id: id.clone() })
        }
    }
}

} // verus!
