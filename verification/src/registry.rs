//! Compact registries mapping names and numeric ids to definitions.
//!
//! A registry is built once at world initialization and then read-only for
//! the lifetime of generation.  Ids are handed out densely starting at one;
//! zero is never a valid id, which packed block encodings rely on.

use vstd::prelude::*;

verus! {

/// A human-readable registry key.
#[derive(Clone, Debug, PartialEq, Eq, Hash)]
pub struct RegistryName {
    /// The unique name under which an object is registered.
    pub key: String,
}

impl RegistryName {
    /// Make a registry name from a string slice.
    pub fn of(key: &str) -> (r: RegistryName)
        ensures
            r.key@ == key@,
    {
        RegistryName { key: key.to_owned() }
    }
}

/// A compact numeric id for a registered object; always at least one.
#[derive(Clone, Copy, PartialEq, Eq, Structural, Debug, Hash)]
pub struct RegistryId {
    /// The raw id value.
    pub raw: u32,
}

/// What can go wrong when building a registry.
#[derive(Clone, Copy, PartialEq, Eq, Structural, Debug)]
pub enum RegistryError {
    /// An object with the same name is already registered.
    DuplicateName,
}

/// An object that carries its own registry name.
pub trait RegistryObject: Sized {
    /// The name, at the specification level.
    spec fn spec_name(&self) -> Seq<char>;

    /// The unique registry name of this object.
    fn registry_name(&self) -> (r: &RegistryName)
        ensures
            r.key@ == self.spec_name(),
    ;
}

/// Index of the first object with the given name, if any.
pub open spec fn spec_find_name<T: RegistryObject>(s: Seq<T>, name: Seq<char>, i: int)
    -> Option<int>
    decreases s.len() - i,
{
    if i < 0 || i >= s.len() {
        None
    } else if s[i].spec_name() == name {
        Some(i)
    } else {
        spec_find_name(s, name, i + 1)
    }
}

/// What a successful name search means: the index is in range and holds
/// the name searched for.
pub proof fn lemma_find_name_props<T: RegistryObject>(s: Seq<T>, name: Seq<char>, i: int,
    j: int)
    requires
        spec_find_name(s, name, i) == Some(j),
        0 <= i,
    ensures
        i <= j < s.len(),
        s[j].spec_name() == name,
    decreases s.len() - i,
{
    if i < s.len() && s[i].spec_name() != name {
        lemma_find_name_props(s, name, i + 1, j);
    }
}

/// A name that no object carries is not found.
pub proof fn lemma_find_name_none<T: RegistryObject>(s: Seq<T>, name: Seq<char>, i: int)
    requires
        0 <= i,
        forall|j: int| i <= j < s.len() ==> (#[trigger] s[j]).spec_name() != name,
    ensures
        spec_find_name(s, name, i) is None,
    decreases s.len() - i,
{
    if i < s.len() {
        lemma_find_name_none(s, name, i + 1);
    }
}

/// A named registry of definitions; the id of an object is its position
/// plus one.
#[derive(Clone, Debug)]
pub struct Registry<T> {
    /// The registered objects, in registration order.
    pub objects: Vec<T>,
}

impl<T> View for Registry<T> {
    type V = Seq<T>;

    open spec fn view(&self) -> Seq<T> {
        self.objects@
    }
}

impl<T: RegistryObject> Registry<T> {
    /// An empty registry.
    pub fn new() -> (r: Registry<T>)
        ensures
            r@.len() == 0,
    {
        Registry { objects: Vec::new() }
    }

    /// How many objects are registered.
    pub fn len(&self) -> (r: usize)
        ensures
            r == self@.len(),
    {
        self.objects.len()
    }

    /// The object at a registration index (zero-based).
    pub fn get_at(&self, index: usize) -> (r: &T)
        requires
            index < self@.len(),
        ensures
            *r == self@[index as int],
    {
        &self.objects[index]
    }

    /// Register an object under a fresh id; fails if the name is taken.
    pub fn push_object(&mut self, obj: T) -> (r: Result<RegistryId, RegistryError>)
        requires
            old(self)@.len() < 0xFFFF_FFFF,
        ensures
            match spec_find_name(old(self)@, obj.spec_name(), 0) {
                Some(_) => r == Result::<RegistryId, RegistryError>::Err(
                    RegistryError::DuplicateName) && *final(self) == *old(self),
                None => {
                    &&& r matches Ok(id)
                    &&& (r matches Ok(id) ==> id.raw == old(self)@.len() + 1)
                    &&& final(self)@ == old(self)@.push(obj)
                },
            },
    {
        let name = obj.registry_name();
        let mut i: usize = 0;
        let n: usize = self.objects.len();
        while i < n
            invariant
                n == self@.len(),
                i <= n,
                spec_find_name(self@, obj.spec_name(), 0)
                    == spec_find_name(self@, obj.spec_name(), i as int),
            decreases n - i,
        {
            let same: bool = self.objects[i].registry_name().key.eq(&name.key);
            if same {
                proof {
                    assert(spec_find_name(self@, obj.spec_name(), i as int)
                        == Some(i as int));
                }
                return Err(RegistryError::DuplicateName);
            }
            proof {
                assert(spec_find_name(self@, obj.spec_name(), i as int)
                    == spec_find_name(self@, obj.spec_name(), i + 1));
            }
            i = i + 1;
        }
        let id = RegistryId { raw: (self.objects.len() as u32) + 1 };
        self.objects.push(obj);
        Ok(id)
    }

    /// Look an id up; `Some` exactly when the id is in range.
    pub fn lookup_id_to_object(&self, id: RegistryId) -> (r: Option<&T>)
        ensures
            1 <= id.raw <= self@.len() ==> (r matches Some(obj) && *obj == self@[id.raw - 1]),
            !(1 <= id.raw <= self@.len()) ==> r is None,
    {
        if id.raw >= 1 && (id.raw as usize) <= self.objects.len() {
            Some(&self.objects[(id.raw as usize) - 1])
        } else {
            None
        }
    }

    /// Look a name up; returns the first object registered under it,
    /// together with its id, and `None` exactly when no object has it.
    pub fn lookup_name_to_object(&self, name: &str) -> (r: Option<(RegistryId, &T)>)
        requires
            self@.len() < 0xFFFF_FFFF,
        ensures
            match spec_find_name(self@, name@, 0) {
                Some(j) => {
                    &&& r matches Some(p)
                    &&& (r matches Some(p) ==> p.0.raw == j + 1 && *p.1 == self@[j])
                },
                None => r is None,
            },
    {
        let owned: String = name.to_owned();
        let mut i: usize = 0;
        let n: usize = self.objects.len();
        while i < n
            invariant
                n == self@.len() < 0xFFFF_FFFF,
                i <= n,
                owned@ == name@,
                spec_find_name(self@, name@, 0) == spec_find_name(self@, name@, i as int),
            decreases n - i,
        {
            if self.objects[i].registry_name().key.eq(&owned) {
                proof {
                    assert(spec_find_name(self@, name@, i as int) == Some(i as int));
                }
                return Some((RegistryId { raw: (i as u32) + 1 }, &self.objects[i]));
            }
            proof {
                assert(spec_find_name(self@, name@, i as int)
                    == spec_find_name(self@, name@, i + 1));
            }
            i = i + 1;
        }
        None
    }
}

} // verus!
