//! Materials: named shader properties, and shared handles to materials.
//!
//! A material's contents matter to batching only through one operation:
//! setting a sampler property by name, which fails when the name is absent
//! or names a property of another kind. Geometry buffers and textures are
//! opaque resources; here they appear as stable numeric identities.

use vstd::prelude::*;

verus! {

/// The value of one material property. Batching only ever assigns sampler
/// values (a mask texture identity), but a material may hold other kinds,
/// and assigning across kinds is a type mismatch.
#[derive(Clone, Copy, PartialEq, Eq, Structural, Debug)]
pub enum PropertyValue {
    /// A texture sampler; `None` means no texture is bound.
    Sampler(Option<u64>),
    /// A plain scalar parameter.
    Scalar(i64),
}

/// One named property of a material.
pub struct MaterialProperty {
    pub name: Vec<u8>,
    pub value: PropertyValue,
}

/// A material: an ordered list of named shader properties.
pub struct Material {
    pub properties: Vec<MaterialProperty>,
}

/// Why setting a material property failed.
#[derive(Clone, Copy, PartialEq, Eq, Structural, Debug)]
pub enum MaterialError {
    /// The material's shader has no property of the given name.
    NoSuchProperty,
    /// The property exists but holds a value of another kind.
    TypeMismatch,
}

impl View for Material {
    type V = Seq<(Seq<u8>, PropertyValue)>;

    open spec fn view(&self) -> Seq<(Seq<u8>, PropertyValue)> {
        self.properties@.map_values(|p: MaterialProperty| (p.name@, p.value))
    }
}

/// A shared handle to a material: a stable numeric identity plus the
/// material it designates. Cloning the handle shares the identity; cloning
/// the material deep-copies the contents.
pub struct MaterialHandle {
    pub id: u64,
    pub value: Material,
}

/// The index of the first property named `name`, or -1 when there is none,
/// scanning from position `from`.
pub open spec fn find_property(props: Seq<(Seq<u8>, PropertyValue)>, name: Seq<u8>, from: int) -> int
    decreases props.len() - from,
{
    if from < 0 || from >= props.len() {
        -1
    } else if props[from].0 == name {
        from
    } else {
        find_property(props, name, from + 1)
    }
}

/// Whether two property values are of the same kind.
pub open spec fn same_kind(a: PropertyValue, b: PropertyValue) -> bool {
    match (a, b) {
        (PropertyValue::Sampler(_), PropertyValue::Sampler(_)) => true,
        (PropertyValue::Scalar(_), PropertyValue::Scalar(_)) => true,
        _ => false,
    }
}

/// What setting property `name` to `value` does to a material: the updated
/// material on success, or the exact error otherwise.
pub open spec fn set_prop_spec(
    props: Seq<(Seq<u8>, PropertyValue)>,
    name: Seq<u8>,
    value: PropertyValue,
) -> Result<Seq<(Seq<u8>, PropertyValue)>, MaterialError> {
    let i = find_property(props, name, 0);
    if i < 0 {
        Err(MaterialError::NoSuchProperty)
    } else if !same_kind(props[i].1, value) {
        Err(MaterialError::TypeMismatch)
    } else {
        Ok(props.update(i, (props[i].0, value)))
    }
}

/// Compares two byte strings for equality.
pub fn bytes_eq(a: &Vec<u8>, b: &Vec<u8>) -> (r: bool)
    ensures
        r == (a@ == b@),
{
    if a.len() != b.len() {
        return false;
    }
    let mut i: usize = 0;
    while i < a.len()
        invariant
            a@.len() == b@.len(),
            i <= a@.len(),
            forall|k: int| 0 <= k < i ==> a@[k] == b@[k],
        decreases a@.len() - i,
    {
        if a[i] != b[i] {
            return false;
        }
        i += 1;
    }
    proof {
        assert(a@ =~= b@);
    }
    true
}

fn copy_bytes(v: &Vec<u8>) -> (r: Vec<u8>)
    ensures
        r@ == v@,
{
    let mut r: Vec<u8> = Vec::new();
    let mut i: usize = 0;
    while i < v.len()
        invariant
            i <= v@.len(),
            r@ == v@.subrange(0, i as int),
        decreases v@.len() - i,
    {
        r.push(v[i]);
        proof {
            assert(r@ =~= v@.subrange(0, i + 1));
        }
        i += 1;
    }
    proof {
        assert(r@ =~= v@);
    }
    r
}

impl Material {
    /// A deep copy of this material.
    pub fn duplicate(&self) -> (r: Material)
        ensures
            r@ == self@,
    {
        let mut properties: Vec<MaterialProperty> = Vec::new();
        let mut i: usize = 0;
        while i < self.properties.len()
            invariant
                i <= self.properties@.len(),
                properties@.map_values(|p: MaterialProperty| (p.name@, p.value))
                    == self@.subrange(0, i as int),
            decreases self.properties@.len() - i,
        {
            let ghost before = properties@.map_values(|p: MaterialProperty| (p.name@, p.value));
            let p = &self.properties[i];
            properties.push(MaterialProperty { name: copy_bytes(&p.name), value: p.value });
            proof {
                assert(properties@.map_values(|p: MaterialProperty| (p.name@, p.value))
                    =~= before.push((self.properties@[i as int].name@, self.properties@[i as int].value)));
                assert(properties@.map_values(|p: MaterialProperty| (p.name@, p.value))
                    =~= self@.subrange(0, i + 1));
            }
            i += 1;
        }
        proof {
            assert(properties@.map_values(|p: MaterialProperty| (p.name@, p.value)) =~= self@);
        }
        Material { properties }
    }

    /// Sets the property called `name` to `value`. Fails, leaving the
    /// material unchanged, when no property has that name or when the named
    /// property holds a value of another kind.
    pub fn set_property(&mut self, name: &Vec<u8>, value: PropertyValue) -> (r: Result<(), MaterialError>)
        ensures
            match set_prop_spec(old(self)@, name@, value) {
                Ok(m) => r is Ok && final(self)@ == m,
                Err(e) => r == Err::<(), MaterialError>(e) && final(self)@ == old(self)@,
            },
    {
        let n = self.properties.len();
        let mut i: usize = 0;
        while i < n
            invariant
                n == self.properties@.len(),
                i <= n,
                self@ == old(self)@,
                self.properties == old(self).properties,
                find_property(self@, name@, 0) == find_property(self@, name@, i as int),
            decreases n - i,
        {
            if bytes_eq(&self.properties[i].name, name) {
                proof {
                    assert(self@[i as int].0 == name@);
                    assert(find_property(self@, name@, i as int) == i);
                }
                let matches_kind = match (&self.properties[i].value, &value) {
                    (PropertyValue::Sampler(_), PropertyValue::Sampler(_)) => true,
                    (PropertyValue::Scalar(_), PropertyValue::Scalar(_)) => true,
                    _ => false,
                };
                if !matches_kind {
                    return Err(MaterialError::TypeMismatch);
                }
                self.properties[i].value = value;
                proof {
                    assert(self@ =~= old(self)@.update(i as int, (old(self)@[i as int].0, value)));
                }
                return Ok(());
            }
            proof {
                assert(self@[i as int].0 != name@);
            }
            i += 1;
        }
        proof {
            assert(find_property(self@, name@, i as int) == -1);
        }
        Err(MaterialError::NoSuchProperty)
    }
}

impl MaterialHandle {
    /// Another handle to the same material: same identity, equal contents.
    pub fn duplicate(&self) -> (r: MaterialHandle)
        ensures
            r.id == self.id,
            r.value@ == self.value@,
    {
        MaterialHandle { id: self.id, value: self.value.duplicate() }
    }
}

} // verus!
