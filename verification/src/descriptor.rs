//! Descriptors of the types that are handed to a script host, and the
//! registry that numbers them.

use std::any::TypeId;
use std::collections::HashMap;
use vstd::prelude::*;
use vstd::string::*;

verus! {

/// `std::any::TypeId`, carried through as it is.
#[verifier::external_type_specification]
#[verifier::external_body]
pub struct ExTypeId(TypeId);

/// `std::any::TypeId::of`: the identifier of a type. Nothing is claimed of it
/// but that it is one.
pub assume_specification<T: ?Sized + 'static>[ TypeId::of::<T> ]() -> TypeId
;

/// Calls `HashMap::get` on a map that is keyed by type and copies the index
/// out: the index held for `type_id`, or nothing where the map holds none.
#[verifier::external_body]
fn type_index(map: &HashMap<TypeId, usize>, type_id: &TypeId) -> (r: Option<usize>)
    ensures
        r == if map@.contains_key(*type_id) {
            Some(map@[*type_id])
        } else {
            None
        },
{
    map.get(type_id).copied()
}

/// What a registration adds to the registry, as contracts see it.
pub enum Described {
    /// The descriptor of a built-in type.
    Builtin { ts_name: Seq<char> },
    /// The descriptor of a generic type, with the indices of its parts.
    Generic { dependencies: Seq<usize>, ts_name: Seq<char>, optional: bool },
}

/// Whether `d` is the descriptor that `v` tells of.
pub open spec fn describes(d: Descriptor, v: Described) -> bool {
    match v {
        Described::Builtin { ts_name } => is_builtin(d, ts_name),
        Described::Generic { dependencies, ts_name, optional } => is_generic(
            d,
            ts_name,
            dependencies,
            optional,
        ),
    }
}

/// Whether `after` is `before` with exactly the descriptors that `more`
/// tells of behind it, in that order.
pub open spec fn added(before: Seq<Descriptor>, after: Seq<Descriptor>, more: Seq<Described>) -> bool {
    &&& after.len() == before.len() + more.len()
    &&& before.is_prefix_of(after)
    &&& forall|i: int|
        0 <= i < more.len() ==> describes(after[before.len() + i], #[trigger] more[i])
}

/// Whether `manager` knows no type beforehand.
pub open spec fn knows_nothing(manager: DescriptorManager) -> bool {
    forall|key: TypeId| !(#[trigger] manager.id_map@.contains_key(key))
}

/// A type that a script host can be told of.
pub trait TS {
    /// The name of the type on the host's side.
    spec fn ts_name() -> Seq<char>;

    /// What the type adds to a registry that knows no type beforehand and
    /// holds `base` descriptors: the descriptors of its parts, in the order
    /// of registering, and its own last.
    spec fn described(base: nat) -> Seq<Described>;

    /// Makes the type and what it is built from known to `manager` and hands
    /// out the index of the type. The registry only grows at its end. Where
    /// it knows no type beforehand, it grows by exactly what `described`
    /// tells of, and the index is that of the last descriptor.
    fn _register(manager: &mut DescriptorManager) -> (idx: usize)
        ensures
            final(manager).id_map == old(manager).id_map,
            old(manager).descriptors@.is_prefix_of(final(manager).descriptors@),
            knows_nothing(*old(manager)) ==> added(
                old(manager).descriptors@,
                final(manager).descriptors@,
                Self::described(old(manager).descriptors@.len()),
            ),
            knows_nothing(*old(manager)) ==> idx == final(manager).descriptors@.len() - 1,
    ;

    /// The name of the type on the host's side.
    fn _ts_name() -> (name: String)
        ensures
            name@ == Self::ts_name(),
    ;
}

/// The registry: the descriptors in the order of their indices, and the
/// indices of the types that are known beforehand.
pub struct DescriptorManager {
    pub descriptors: Vec<Descriptor>,
    pub id_map: HashMap<TypeId, usize>,
}

impl DescriptorManager {
    /// The index of the type `type_id`: the one that `id_map` holds for it,
    /// where it holds one, and the registry stays as it is; else the next
    /// free index, under which `descriptor` is then kept.
    pub fn registry(&mut self, type_id: TypeId, descriptor: Descriptor) -> (idx: usize)
        ensures
            final(self).id_map == old(self).id_map,
            old(self).id_map@.contains_key(type_id) ==> {
                &&& idx == old(self).id_map@[type_id]
                &&& final(self).descriptors@ == old(self).descriptors@
            },
            !old(self).id_map@.contains_key(type_id) ==> {
                &&& idx == old(self).descriptors@.len()
                &&& final(self).descriptors@ == old(self).descriptors@.push(descriptor)
            },
    {
        match type_index(&self.id_map, &type_id) {
            Some(idx) => idx,
            None => {
                let idx = self.descriptors.len();
                self.descriptors.push(descriptor);
                idx
            },
        }
    }
}

pub enum Descriptor {
    Interface(InterfaceDescriptor),
    Enum(EnumDescriptor),
    BuiltinType(BuiltinTypeDescriptor),
    Generics(GenericDescriptor),
}

pub struct GenericDescriptor {
    pub dependencies: Vec<usize>,
    pub ts_name: String,
    pub optional: bool,
}

pub struct BuiltinTypeDescriptor {
    pub ts_name: String,
}

pub struct EnumDescriptor {
    pub dependencies: Vec<usize>,
    pub fields: Vec<String>,
    pub file_name: String,
}

/// Describes how to generate an interface.
pub struct InterfaceDescriptor {
    /// The indices of the descriptors in the manager.
    pub dependencies: Vec<usize>,
    pub fields: Vec<FieldDescriptor>,
    pub file_name: String,
}

pub struct FieldDescriptor {
    pub ident: String,
    pub optional: bool,
    pub ts_ty: String,
}

/// Whether `idx` is an index that `manager` knew beforehand.
pub open spec fn is_known(manager: DescriptorManager, idx: usize) -> bool {
    exists|key: TypeId| #[trigger]
        manager.id_map@.contains_key(key) && manager.id_map@[key] == idx
}

/// Whether `after` has come out of `before` by registering one descriptor
/// that meets `fits`: either the type was known beforehand and nothing has
/// changed, or exactly that descriptor stands at the end, under the index
/// `idx`.
pub open spec fn registered_one(
    before: DescriptorManager,
    after: DescriptorManager,
    idx: usize,
    fits: spec_fn(Descriptor) -> bool,
) -> bool {
    &&& after.id_map == before.id_map
    &&& {
        ||| after.descriptors@ == before.descriptors@ && is_known(before, idx)
        ||| {
            &&& after.descriptors@.len() == before.descriptors@.len() + 1
            &&& after.descriptors@.drop_last() == before.descriptors@
            &&& fits(after.descriptors@.last())
            &&& idx == before.descriptors@.len()
        }
    }
}

/// Whether `d` describes the built-in type of the name `name`.
pub open spec fn is_builtin(d: Descriptor, name: Seq<char>) -> bool {
    d matches Descriptor::BuiltinType(b) && b.ts_name@ == name
}

/// Whether `d` describes a generic type of the name `name` that is built
/// from the types at `dependencies`.
pub open spec fn is_generic(
    d: Descriptor,
    name: Seq<char>,
    dependencies: Seq<usize>,
    optional: bool,
) -> bool {
    d matches Descriptor::Generics(g) && g.ts_name@ == name && g.dependencies@ == dependencies
        && g.optional == optional
}

/// Registers the built-in type `T` under the name `name`.
fn register_builtin<T: 'static>(manager: &mut DescriptorManager, name: &'static str) -> (idx: usize)
    ensures
        registered_one(*old(manager), *final(manager), idx, |d: Descriptor| is_builtin(d, name@)),
        knows_nothing(*old(manager)) ==> added(
            old(manager).descriptors@,
            final(manager).descriptors@,
            seq![Described::Builtin { ts_name: name@ }],
        ),
        knows_nothing(*old(manager)) ==> idx == final(manager).descriptors@.len() - 1,
{
    let type_id = TypeId::of::<T>();
    let descriptor = BuiltinTypeDescriptor { ts_name: String::from_str(name) };
    let ghost before = manager.descriptors@;
    let ghost knew = manager.id_map@.contains_key(type_id);
    let idx = manager.registry(type_id, Descriptor::BuiltinType(descriptor));
    proof {
        if !knew {
            assert(manager.descriptors@.drop_last() =~= before);
            assert(manager.descriptors@[before.len() as int] == manager.descriptors@.last());
        }
    }
    idx
}

/// Whether the registry ends in the descriptor of a generic type of the name
/// `name` that is built from `parts` types, under the index `idx`.
pub open spec fn ends_in_generic(
    descriptors: Seq<Descriptor>,
    idx: usize,
    name: Seq<char>,
    parts: nat,
    optional: bool,
) -> bool {
    &&& descriptors.len() > 0
    &&& idx == descriptors.len() - 1
    &&& descriptors.last() matches Descriptor::Generics(g)
    &&& g.ts_name@ == name
    &&& g.dependencies@.len() == parts
    &&& g.optional == optional
}

/// Registers the generic type `T`, whose parts have been registered.
fn register_generic<T: 'static>(
    manager: &mut DescriptorManager,
    dependencies: Vec<usize>,
    ts_name: String,
    optional: bool,
) -> (idx: usize)
    ensures
        registered_one(
            *old(manager),
            *final(manager),
            idx,
            |d: Descriptor| is_generic(d, ts_name@, dependencies@, optional),
        ),
        knows_nothing(*old(manager)) ==> added(
            old(manager).descriptors@,
            final(manager).descriptors@,
            seq![
                Described::Generic { dependencies: dependencies@, ts_name: ts_name@, optional },
            ],
        ),
        knows_nothing(*old(manager)) ==> idx == final(manager).descriptors@.len() - 1,
{
    let type_id = TypeId::of::<T>();
    let descriptor = GenericDescriptor { dependencies, ts_name, optional };
    let ghost before = manager.descriptors@;
    let ghost knew = manager.id_map@.contains_key(type_id);
    let idx = manager.registry(type_id, Descriptor::Generics(descriptor));
    proof {
        if !knew {
            assert(manager.descriptors@.drop_last() =~= before);
            assert(manager.descriptors@[before.len() as int] == manager.descriptors@.last());
        }
    }
    idx
}

/// What was added in two steps was added in one: first `first`, then one
/// descriptor more.
proof fn lemma_added_then_one(
    before: Seq<Descriptor>,
    middle: Seq<Descriptor>,
    after: Seq<Descriptor>,
    first: Seq<Described>,
    last: Described,
)
    requires
        added(before, middle, first),
        added(middle, after, seq![last]),
    ensures
        added(before, after, first.push(last)),
{
    let more = first.push(last);
    assert(seq![last][0] == last);
    assert forall|i: int| 0 <= i < more.len() implies describes(
        after[before.len() + i],
        #[trigger] more[i],
    ) by {
        if i < first.len() {
            assert(more[i] == first[i]);
            assert(after[before.len() + i] == middle[before.len() + i]);
        } else {
            assert(after[middle.len() + 0int] == after[before.len() + i]);
        }
    }
}

/// What was added in two steps was added in one: first `first`, then
/// `second`.
proof fn lemma_added_twice(
    before: Seq<Descriptor>,
    middle: Seq<Descriptor>,
    after: Seq<Descriptor>,
    first: Seq<Described>,
    second: Seq<Described>,
)
    requires
        added(before, middle, first),
        added(middle, after, second),
    ensures
        added(before, after, first + second),
{
    let more = first + second;
    assert forall|i: int| 0 <= i < more.len() implies describes(
        after[before.len() + i],
        #[trigger] more[i],
    ) by {
        if i < first.len() {
            assert(more[i] == first[i]);
            assert(after[before.len() + i] == middle[before.len() + i]);
        } else {
            assert(more[i] == second[i - first.len()]);
            assert(after[middle.len() + (i - first.len())] == after[before.len() + i]);
        }
    }
}

impl TS for u8 {
    open spec fn ts_name() -> Seq<char> {
        "number"@
    }

    open spec fn described(base: nat) -> Seq<Described> {
        seq![Described::Builtin { ts_name: "number"@ }]
    }

    fn _register(manager: &mut DescriptorManager) -> (idx: usize)
        ensures
            registered_one(
                *old(manager),
                *final(manager),
                idx,
                |d: Descriptor| is_builtin(d, "number"@),
            ),
    {
        register_builtin::<u8>(manager, "number")
    }

    fn _ts_name() -> (name: String) {
        String::from_str("number")
    }
}

impl TS for u32 {
    open spec fn ts_name() -> Seq<char> {
        "number"@
    }

    open spec fn described(base: nat) -> Seq<Described> {
        seq![Described::Builtin { ts_name: "number"@ }]
    }

    fn _register(manager: &mut DescriptorManager) -> (idx: usize)
        ensures
            registered_one(
                *old(manager),
                *final(manager),
                idx,
                |d: Descriptor| is_builtin(d, "number"@),
            ),
    {
        register_builtin::<u32>(manager, "number")
    }

    fn _ts_name() -> (name: String) {
        String::from_str("number")
    }
}

impl TS for u64 {
    open spec fn ts_name() -> Seq<char> {
        "number"@
    }

    open spec fn described(base: nat) -> Seq<Described> {
        seq![Described::Builtin { ts_name: "number"@ }]
    }

    fn _register(manager: &mut DescriptorManager) -> (idx: usize)
        ensures
            registered_one(
                *old(manager),
                *final(manager),
                idx,
                |d: Descriptor| is_builtin(d, "number"@),
            ),
    {
        register_builtin::<u64>(manager, "number")
    }

    fn _ts_name() -> (name: String) {
        String::from_str("number")
    }
}

impl TS for i8 {
    open spec fn ts_name() -> Seq<char> {
        "number"@
    }

    open spec fn described(base: nat) -> Seq<Described> {
        seq![Described::Builtin { ts_name: "number"@ }]
    }

    fn _register(manager: &mut DescriptorManager) -> (idx: usize)
        ensures
            registered_one(
                *old(manager),
                *final(manager),
                idx,
                |d: Descriptor| is_builtin(d, "number"@),
            ),
    {
        register_builtin::<i8>(manager, "number")
    }

    fn _ts_name() -> (name: String) {
        String::from_str("number")
    }
}

impl TS for i32 {
    open spec fn ts_name() -> Seq<char> {
        "number"@
    }

    open spec fn described(base: nat) -> Seq<Described> {
        seq![Described::Builtin { ts_name: "number"@ }]
    }

    fn _register(manager: &mut DescriptorManager) -> (idx: usize)
        ensures
            registered_one(
                *old(manager),
                *final(manager),
                idx,
                |d: Descriptor| is_builtin(d, "number"@),
            ),
    {
        register_builtin::<i32>(manager, "number")
    }

    fn _ts_name() -> (name: String) {
        String::from_str("number")
    }
}

impl TS for i64 {
    open spec fn ts_name() -> Seq<char> {
        "number"@
    }

    open spec fn described(base: nat) -> Seq<Described> {
        seq![Described::Builtin { ts_name: "number"@ }]
    }

    fn _register(manager: &mut DescriptorManager) -> (idx: usize)
        ensures
            registered_one(
                *old(manager),
                *final(manager),
                idx,
                |d: Descriptor| is_builtin(d, "number"@),
            ),
    {
        register_builtin::<i64>(manager, "number")
    }

    fn _ts_name() -> (name: String) {
        String::from_str("number")
    }
}

impl TS for String {
    open spec fn ts_name() -> Seq<char> {
        "string"@
    }

    open spec fn described(base: nat) -> Seq<Described> {
        seq![Described::Builtin { ts_name: "string"@ }]
    }

    fn _register(manager: &mut DescriptorManager) -> (idx: usize)
        ensures
            registered_one(
                *old(manager),
                *final(manager),
                idx,
                |d: Descriptor| is_builtin(d, "string"@),
            ),
    {
        register_builtin::<String>(manager, "string")
    }

    fn _ts_name() -> (name: String) {
        String::from_str("string")
    }
}

impl TS for bool {
    open spec fn ts_name() -> Seq<char> {
        "boolean"@
    }

    open spec fn described(base: nat) -> Seq<Described> {
        seq![Described::Builtin { ts_name: "boolean"@ }]
    }

    fn _register(manager: &mut DescriptorManager) -> (idx: usize)
        ensures
            registered_one(
                *old(manager),
                *final(manager),
                idx,
                |d: Descriptor| is_builtin(d, "boolean"@),
            ),
    {
        register_builtin::<bool>(manager, "boolean")
    }

    fn _ts_name() -> (name: String) {
        String::from_str("boolean")
    }
}

impl<T: TS + 'static> TS for Vec<T> {
    open spec fn ts_name() -> Seq<char> {
        "readonly "@ + T::ts_name() + "[]"@
    }

    open spec fn described(base: nat) -> Seq<Described> {
        T::described(base).push(
            Described::Generic {
                dependencies: seq![(base + T::described(base).len() - 1) as usize],
                ts_name: Self::ts_name(),
                optional: false,
            },
        )
    }

    fn _register(manager: &mut DescriptorManager) -> (idx: usize)
        ensures
            is_known(*old(manager), idx) || ends_in_generic(
                final(manager).descriptors@,
                idx,
                Self::ts_name(),
                1,
                false,
            ),
    {
        let ghost before = manager.descriptors@;
        let ghost empty = knows_nothing(*manager);
        let part = T::_register(manager);
        let ghost middle = manager.descriptors@;
        let dependencies = vec![part];
        let ghost parts = dependencies@;
        let idx = register_generic::<Vec<T>>(manager, dependencies, Self::_ts_name(), false);
        proof {
            if manager.descriptors@ != middle {
                assert(manager.descriptors@.drop_last() =~= middle);
            }
            if empty {
                let last = Described::Generic {
                    dependencies: parts,
                    ts_name: Self::ts_name(),
                    optional: false,
                };
                lemma_added_then_one(
                    before,
                    middle,
                    manager.descriptors@,
                    T::described(before.len()),
                    last,
                );
                assert(parts =~= seq![(before.len() + T::described(before.len()).len() - 1) as usize]);
            }
        }
        idx
    }

    fn _ts_name() -> (name: String) {
        let mut name = String::from_str("readonly ");
        let part = T::_ts_name();
        name.append(part.as_str());
        name.append("[]");
        name
    }
}

impl<T: TS + 'static> TS for Option<T> {
    open spec fn ts_name() -> Seq<char> {
        T::ts_name()
    }

    open spec fn described(base: nat) -> Seq<Described> {
        T::described(base).push(
            Described::Generic {
                dependencies: seq![(base + T::described(base).len() - 1) as usize],
                ts_name: Self::ts_name(),
                optional: true,
            },
        )
    }

    fn _register(manager: &mut DescriptorManager) -> (idx: usize)
        ensures
            is_known(*old(manager), idx) || ends_in_generic(
                final(manager).descriptors@,
                idx,
                Self::ts_name(),
                1,
                true,
            ),
    {
        let ghost before = manager.descriptors@;
        let ghost empty = knows_nothing(*manager);
        let part = T::_register(manager);
        let ghost middle = manager.descriptors@;
        let dependencies = vec![part];
        let ghost parts = dependencies@;
        let idx = register_generic::<Option<T>>(manager, dependencies, Self::_ts_name(), true);
        proof {
            if manager.descriptors@ != middle {
                assert(manager.descriptors@.drop_last() =~= middle);
            }
            if empty {
                let last = Described::Generic {
                    dependencies: parts,
                    ts_name: Self::ts_name(),
                    optional: true,
                };
                lemma_added_then_one(
                    before,
                    middle,
                    manager.descriptors@,
                    T::described(before.len()),
                    last,
                );
                assert(parts =~= seq![(before.len() + T::described(before.len()).len() - 1) as usize]);
            }
        }
        idx
    }

    fn _ts_name() -> (name: String) {
        T::_ts_name()
    }
}

impl<K: TS + 'static, V: TS + 'static> TS for HashMap<K, V> {
    open spec fn ts_name() -> Seq<char> {
        "Map<"@ + K::ts_name() + ", "@ + V::ts_name() + ">"@
    }

    open spec fn described(base: nat) -> Seq<Described> {
        let keys = K::described(base);
        let values = V::described(base + keys.len());
        (keys + values).push(
            Described::Generic {
                dependencies: seq![
                    (base + keys.len() - 1) as usize,
                    (base + keys.len() + values.len() - 1) as usize,
                ],
                ts_name: Self::ts_name(),
                optional: false,
            },
        )
    }

    fn _register(manager: &mut DescriptorManager) -> (idx: usize)
        ensures
            is_known(*old(manager), idx) || ends_in_generic(
                final(manager).descriptors@,
                idx,
                Self::ts_name(),
                2,
                false,
            ),
    {
        let ghost before = manager.descriptors@;
        let ghost empty = knows_nothing(*manager);
        let k_dep = K::_register(manager);
        let ghost keyed = manager.descriptors@;
        let v_dep = V::_register(manager);
        let ghost middle = manager.descriptors@;
        let dependencies = vec![k_dep, v_dep];
        let ghost parts = dependencies@;
        let idx = register_generic::<HashMap<K, V>>(manager, dependencies, Self::_ts_name(), false);
        proof {
            if manager.descriptors@ != middle {
                assert(manager.descriptors@.drop_last() =~= middle);
            }
            if empty {
                let keys = K::described(before.len());
                let values = V::described(before.len() + keys.len());
                let last = Described::Generic {
                    dependencies: parts,
                    ts_name: Self::ts_name(),
                    optional: false,
                };
                lemma_added_twice(before, keyed, middle, keys, values);
                lemma_added_then_one(before, middle, manager.descriptors@, keys + values, last);
                assert(parts =~= seq![
                    (before.len() + keys.len() - 1) as usize,
                    (before.len() + keys.len() + values.len() - 1) as usize,
                ]);
            }
        }
        idx
    }

    fn _ts_name() -> (name: String) {
        let mut name = String::from_str("Map<");
        let key = K::_ts_name();
        let value = V::_ts_name();
        name.append(key.as_str());
        name.append(", ");
        name.append(value.as_str());
        name.append(">");
        name
    }
}

} // verus!
