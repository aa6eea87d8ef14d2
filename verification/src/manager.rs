//! The interning table: every value that was seen gets a small id of its own,
//! and is found again under it.

use vstd::prelude::*;
use vstd::string::*;

verus! {

/// `im::HashMap`, the persistent hash map that the table keeps both of its
/// directions in.
#[verifier::external_type_specification]
#[verifier::external_body]
#[verifier::reject_recursive_types(K)]
#[verifier::reject_recursive_types(V)]
#[verifier::reject_recursive_types(S)]
pub struct ExImHashMap<K, V, S>(im::HashMap<K, V, S>);

/// What an `im::HashMap` from values to ids holds: the id under the text of
/// every key.
pub uninterp spec fn ids_by_value(m: im::HashMap<String, u32>) -> Map<Seq<char>, u32>;

/// What an `im::HashMap` from ids to values holds: the text of the value
/// under every key.
pub uninterp spec fn values_by_id(m: im::HashMap<u32, String>) -> Map<u32, Seq<char>>;

/// Calls `im::HashMap::new`: the map holds nothing.
#[verifier::external_body]
fn value_map_new() -> (m: im::HashMap<String, u32>)
    ensures
        ids_by_value(m) == (Map::<Seq<char>, u32>::empty()),
{
    im::HashMap::new()
}

/// Calls `im::HashMap::new`: the map holds nothing.
#[verifier::external_body]
fn id_map_new() -> (m: im::HashMap<u32, String>)
    ensures
        values_by_id(m) == (Map::<u32, Seq<char>>::empty()),
{
    im::HashMap::new()
}

/// Calls `im::HashMap::get` and copies the id out: the id held for a value
/// equal to `value`, or nothing where the map holds none.
#[verifier::external_body]
fn value_map_get(m: &im::HashMap<String, u32>, value: &String) -> (r: Option<u32>)
    ensures
        r == if ids_by_value(*m).contains_key(value@) {
            Some(ids_by_value(*m)[value@])
        } else {
            None
        },
{
    m.get(value).copied()
}

/// Calls `im::HashMap::get`: the value held for `id`, or nothing where the
/// map holds none.
#[verifier::external_body]
fn id_map_get(m: &im::HashMap<u32, String>, id: u32) -> (r: Option<&String>)
    ensures
        match r {
            Some(value) => values_by_id(*m).contains_key(id) && value@ == values_by_id(*m)[id],
            None => !values_by_id(*m).contains_key(id),
        },
{
    m.get(&id)
}

/// Calls `im::HashMap::insert`: the map holds `id` for `value` and is
/// otherwise as before.
#[verifier::external_body]
fn value_map_insert(m: &mut im::HashMap<String, u32>, value: String, id: u32)
    ensures
        ids_by_value(*final(m)) == ids_by_value(*old(m)).insert(value@, id),
{
    m.insert(value, id);
}

/// Calls `im::HashMap::insert`: the map holds `value` for `id` and is
/// otherwise as before.
#[verifier::external_body]
fn id_map_insert(m: &mut im::HashMap<u32, String>, id: u32, value: String)
    ensures
        values_by_id(*final(m)) == values_by_id(*old(m)).insert(id, value@),
{
    m.insert(id, value);
}

/// Calls `im::HashMap::clone`: the copy holds what the map holds.
#[verifier::external_body]
fn value_map_clone(m: &im::HashMap<String, u32>) -> (r: im::HashMap<String, u32>)
    ensures
        ids_by_value(r) == ids_by_value(*m),
{
    m.clone()
}

/// Calls `im::HashMap::clone`: the copy holds what the map holds.
#[verifier::external_body]
fn id_map_clone(m: &im::HashMap<u32, String>) -> (r: im::HashMap<u32, String>)
    ensures
        values_by_id(r) == values_by_id(*m),
{
    m.clone()
}

/// Calls `num::NumCast::from` for a `u32` made from a `usize`: the same
/// number where it fits, nothing where it does not.
#[verifier::external_body]
fn id_from_usize(n: usize) -> (r: Option<u32>)
    ensures
        r == if n <= u32::MAX {
            Some(n as u32)
        } else {
            None
        },
{
    <u32 as num::NumCast>::from(n)
}

/// The interning table.
#[derive(Debug)]
pub struct Manager {
    data_to_id: im::HashMap<String, u32>,
    id_to_data: im::HashMap<u32, String>,
    first: u32,
    next_available: u32,
}

impl Clone for Manager {
    /// A copy of the table: it holds what the table holds, and goes its own
    /// way from there.
    fn clone(&self) -> (r: Manager)
        ensures
            r.ids() == self.ids(),
            r.values() == self.values(),
            r.first_id() == self.first_id(),
            r.next_id() == self.next_id(),
            self.wf() ==> r.wf(),
    {
        Manager {
            data_to_id: value_map_clone(&self.data_to_id),
            id_to_data: id_map_clone(&self.id_to_data),
            first: self.first,
            next_available: self.next_available,
        }
    }
}

impl Manager {
    /// The id of every value that the table holds.
    pub closed spec fn ids(&self) -> Map<Seq<char>, u32> {
        ids_by_value(self.data_to_id)
    }

    /// The value under every id that the table has given out.
    pub closed spec fn values(&self) -> Map<u32, Seq<char>> {
        values_by_id(self.id_to_data)
    }

    /// The id that the table began with.
    pub closed spec fn first_id(&self) -> u32 {
        self.first
    }

    /// The id that the next new value gets.
    pub closed spec fn next_id(&self) -> u32 {
        self.next_available
    }

    /// What holds of every table: the ids given out are exactly those from
    /// the first id up to, and without, the next one, and values and ids stand
    /// for each other, one for one.
    pub open spec fn wf(&self) -> bool {
        &&& self.first_id() <= self.next_id()
        &&& forall|id: u32|
            self.values().contains_key(id) <==> self.first_id() <= id < self.next_id()
        &&& forall|v: Seq<char>| #[trigger]
            self.ids().contains_key(v) ==> self.values().contains_key(self.ids()[v])
                && self.values()[self.ids()[v]] == v
        &&& forall|id: u32| #[trigger]
            self.values().contains_key(id) ==> self.ids().contains_key(self.values()[id])
                && self.ids()[self.values()[id]] == id
    }

    /// Whether this table has grown out of `earlier`: it began with the same
    /// id, has given out at least as many, and holds every value of `earlier`
    /// under the id that it had there.
    pub open spec fn extends(&self, earlier: &Manager) -> bool {
        &&& self.first_id() == earlier.first_id()
        &&& earlier.next_id() <= self.next_id()
        &&& forall|v: Seq<char>| #[trigger]
            earlier.ids().contains_key(v) ==> self.ids().contains_key(v) && self.ids()[v]
                == earlier.ids()[v]
    }

    /// An empty table whose first id will be `init_id`.
    pub fn new(init_id: u32) -> (m: Manager)
        ensures
            m.wf(),
            m.ids() == Map::<Seq<char>, u32>::empty(),
            m.values() == Map::<u32, Seq<char>>::empty(),
            m.first_id() == init_id,
            m.next_id() == init_id,
    {
        Manager {
            data_to_id: value_map_new(),
            id_to_data: id_map_new(),
            first: init_id,
            next_available: init_id,
        }
    }

    /// Whether the table can take no further value.
    pub fn is_full(&self) -> (b: bool)
        ensures
            b == (self.next_id() == u32::MAX),
    {
        self.next_available == u32::MAX
    }

    /// The id of `data`. A value that was seen before keeps its id, and the
    /// table stays as it is; a new one gets the next free id, and the table
    /// holds both afterwards.
    pub fn get_id(&mut self, data: &String) -> (id: u32)
        requires
            old(self).wf(),
            old(self).ids().contains_key(data@) || old(self).next_id() < u32::MAX,
        ensures
            final(self).wf(),
            final(self).extends(old(self)),
            final(self).ids().contains_key(data@),
            final(self).ids()[data@] == id,
            old(self).ids().contains_key(data@) ==> {
                &&& id == old(self).ids()[data@]
                &&& final(self).ids() == old(self).ids()
                &&& final(self).values() == old(self).values()
                &&& final(self).next_id() == old(self).next_id()
            },
            !old(self).ids().contains_key(data@) ==> {
                &&& id == old(self).next_id()
                &&& final(self).ids() == old(self).ids().insert(data@, id)
                &&& final(self).values() == old(self).values().insert(id, data@)
                &&& final(self).next_id() == old(self).next_id() + 1
            },
    {
        match value_map_get(&self.data_to_id, data) {
            Some(id) => id,
            None => self.registry(data.clone()),
        }
    }

    /// The id of `data`, or nothing where `data` is new and no id is left.
    pub fn try_get_id(&mut self, data: &String) -> (r: Option<u32>)
        requires
            old(self).wf(),
        ensures
            final(self).wf(),
            final(self).extends(old(self)),
            r is None <==> !old(self).ids().contains_key(data@) && old(self).next_id() == u32::MAX,
            r is None ==> {
                &&& final(self).ids() == old(self).ids()
                &&& final(self).values() == old(self).values()
                &&& final(self).next_id() == old(self).next_id()
            },
            r matches Some(id) ==> {
                &&& final(self).ids() == old(self).ids().insert(data@, id)
                &&& final(self).values() == old(self).values().insert(id, data@)
                &&& old(self).ids().contains_key(data@) ==> id == old(self).ids()[data@]
                &&& !old(self).ids().contains_key(data@) ==> id == old(self).next_id()
            },
    {
        match value_map_get(&self.data_to_id, data) {
            Some(id) => {
                assert(self.ids() =~= self.ids().insert(data@, id));
                assert(self.values() =~= self.values().insert(id, data@));
                Some(id)
            },
            None => {
                if self.is_full() {
                    None
                } else {
                    Some(self.registry(data.clone()))
                }
            },
        }
    }

    /// The value under `id`, or nothing where the table never gave `id` out.
    pub fn get_data(&self, id: u32) -> (r: Option<&String>)
        ensures
            match r {
                Some(value) => self.values().contains_key(id) && value@ == self.values()[id],
                None => !self.values().contains_key(id),
            },
    {
        id_map_get(&self.id_to_data, id)
    }

    /// Takes a new value into the table under the next free id.
    fn registry(&mut self, data: String) -> (id: u32)
        requires
            old(self).wf(),
            !old(self).ids().contains_key(data@),
            old(self).next_id() < u32::MAX,
        ensures
            final(self).wf(),
            id == old(self).next_id(),
            final(self).first_id() == old(self).first_id(),
            final(self).next_id() == old(self).next_id() + 1,
            final(self).ids() == old(self).ids().insert(data@, id),
            final(self).values() == old(self).values().insert(id, data@),
    {
        let ghost before = *self;
        let r = self.next_available;
        value_map_insert(&mut self.data_to_id, data.clone(), r);
        id_map_insert(&mut self.id_to_data, r, data);
        let one: u32 = id_from_usize(1usize).unwrap();
        self.next_available += one;
        proof {
            assert(!before.values().contains_key(r));
            assert(self.ids() == before.ids().insert(data@, r));
            assert(self.values() == before.values().insert(r, data@));
            assert forall|id: u32| self.values().contains_key(id) <==> self.first_id() <= id
                < self.next_id() by {
                assert(before.values().contains_key(id) <==> before.first_id() <= id
                    < before.next_id());
            }
            assert forall|v: Seq<char>| #[trigger]
                self.ids().contains_key(v) implies self.values().contains_key(self.ids()[v])
                && self.values()[self.ids()[v]] == v by {
                if v != data@ {
                    assert(before.ids().contains_key(v));
                    assert(before.values().contains_key(before.ids()[v]));
                }
            }
            assert forall|id: u32| #[trigger]
                self.values().contains_key(id) implies self.ids().contains_key(self.values()[id])
                && self.ids()[self.values()[id]] == id by {
                if id != r {
                    assert(before.values().contains_key(id));
                    assert(before.ids().contains_key(before.values()[id]));
                }
            }
        }
        r
    }
}

/// A table that has grown out of one that has grown out of a third has grown
/// out of the third: a value keeps its id through any number of later calls.
pub proof fn lemma_extends_transitive(a: Manager, b: Manager, c: Manager)
    requires
        b.extends(&a),
        c.extends(&b),
    ensures
        c.extends(&a),
{
    assert forall|v: Seq<char>| #[trigger] a.ids().contains_key(v) implies c.ids().contains_key(v)
        && c.ids()[v] == a.ids()[v] by {
        assert(b.ids().contains_key(v));
    }
}

/// Two values that differ have ids that differ.
pub proof fn lemma_distinct_values_distinct_ids(m: Manager, a: Seq<char>, b: Seq<char>)
    requires
        m.wf(),
        m.ids().contains_key(a),
        m.ids().contains_key(b),
        a != b,
    ensures
        m.ids()[a] != m.ids()[b],
{
}

/// The ids that stand for a value are exactly those from the first id up to,
/// and without, the next free one: there is no gap among them, and none is
/// given twice.
pub proof fn lemma_ids_contiguous(m: Manager, id: u32)
    requires
        m.wf(),
    ensures
        (exists|v: Seq<char>| #[trigger] m.ids().contains_key(v) && m.ids()[v] == id)
            <==> m.first_id() <= id < m.next_id(),
{
    if m.first_id() <= id < m.next_id() {
        assert(m.values().contains_key(id));
        assert(m.ids().contains_key(m.values()[id]));
    }
}

} // verus!
