//! Interfaces between shader stages: the input or output variables an entry
//! point exposes at a stage boundary, addressed by location.

use vstd::prelude::*;

use crate::formats::NumericType;

verus! {

/// The type of a variable in a shader interface.
#[derive(Clone, Copy, Debug, PartialEq, Eq, Structural)]
pub struct ShaderInterfaceEntryType {
    /// The base numeric type.
    pub base_type: NumericType,

    /// The number of vector components. Must be in the range 1..=4.
    pub num_components: u32,

    /// The number of array elements or matrix columns.
    pub num_elements: u32,

    /// Whether the base type is 64 bits wide. If true, each item of the base
    /// type takes up two component slots instead of one.
    pub is_64bit: bool,
}

impl ShaderInterfaceEntryType {
    /// The number of location slots the variable occupies.
    ///
    /// 64-bit types can occupy two slots per element; they are not supported
    /// here, so callers must rule them out first.
    pub fn num_locations(&self) -> (r: u32)
        requires
            !self.is_64bit,
        ensures
            r == self.num_elements,
    {
        self.num_elements
    }
}

/// Entry of a shader interface definition.
#[derive(Debug)]
pub struct ShaderInterfaceEntry {
    /// The location slot that the variable starts at.
    pub location: u32,

    /// The index within the location slot that the variable is located.
    /// Only meaningful for fragment outputs.
    pub index: u32,

    /// The component slot that the variable starts at. Must be in the range
    /// 0..=3.
    pub component: u32,

    /// Name of the element as raw UTF-8 bytes, or `None` if the name is
    /// unknown.
    pub name: Option<Vec<u8>>,

    /// The type of the variable.
    pub ty: ShaderInterfaceEntryType,
}

/// The mathematical content of an interface entry.
#[verifier::ext_equal]
pub struct ShaderInterfaceEntryView {
    pub location: u32,
    pub index: u32,
    pub component: u32,
    pub name: Option<Seq<u8>>,
    pub ty: ShaderInterfaceEntryType,
}

impl View for ShaderInterfaceEntry {
    type V = ShaderInterfaceEntryView;

    open spec fn view(&self) -> ShaderInterfaceEntryView {
        ShaderInterfaceEntryView {
            location: self.location,
            index: self.index,
            component: self.component,
            name: match self.name {
                Some(ref n) => Some(n@),
                None => None,
            },
            ty: self.ty,
        }
    }
}

impl ShaderInterfaceEntryView {
    /// Whether this entry occupies location slot `loc`.
    pub open spec fn occupies(self, loc: int) -> bool {
        self.location <= loc < self.location + self.ty.num_elements
    }
}

/// The definition of an interface between two shader stages, or between the
/// outside and a shader stage.
#[derive(Debug)]
pub struct ShaderInterface {
    elements: Vec<ShaderInterfaceEntry>,
}

impl View for ShaderInterface {
    type V = Seq<ShaderInterfaceEntryView>;

    closed spec fn view(&self) -> Seq<ShaderInterfaceEntryView> {
        self.elements@.map_values(|e: ShaderInterfaceEntry| e@)
    }
}

impl ShaderInterface {
    /// Every element's occupied location range stays within `u32`.
    pub open spec fn locations_in_range(self) -> bool {
        forall|i: int|
            0 <= i < self@.len() ==> (#[trigger] self@[i]).location + self@[i].ty.num_elements
                <= u32::MAX
    }

    /// No element uses a 64-bit base type.
    pub open spec fn no_64bit(self) -> bool {
        forall|i: int| 0 <= i < self@.len() ==> !(#[trigger] self@[i]).ty.is_64bit
    }

    /// Constructs a new `ShaderInterface`.
    ///
    /// Callers must provide at most one entry per location, and every entry's
    /// location range must stay within `u32`; this is not re-checked here.
    pub fn new_unchecked(elements: Vec<ShaderInterfaceEntry>) -> (r: ShaderInterface)
        requires
            forall|i: int|
                0 <= i < elements@.len() ==> (#[trigger] elements@[i]).location
                    + elements@[i].ty.num_elements <= u32::MAX,
        ensures
            r@ == elements@.map_values(|e: ShaderInterfaceEntry| e@),
            r.locations_in_range(),
    {
        let r = ShaderInterface { elements };
        proof {
            assert forall|i: int| 0 <= i < r@.len() implies (#[trigger] r@[i]).location
                + r@[i].ty.num_elements <= u32::MAX by {
                assert(r@[i] == r.elements@[i]@);
            }
        }
        r
    }

    /// Creates a description of an empty shader interface.
    pub fn empty() -> (r: ShaderInterface)
        ensures
            r@ == Seq::<ShaderInterfaceEntryView>::empty(),
            r.locations_in_range(),
            r.no_64bit(),
    {
        let r = ShaderInterface { elements: Vec::new() };
        proof {
            assert(r@ =~= Seq::<ShaderInterfaceEntryView>::empty());
        }
        r
    }

    /// Returns a slice containing the elements of the interface.
    pub fn elements(&self) -> (r: &[ShaderInterfaceEntry])
        ensures
            r@.map_values(|e: ShaderInterfaceEntry| e@) == self@,
    {
        self.elements.as_slice()
    }

    /// Checks whether the interface is potentially compatible with another
    /// one: the interfaces have the same number of elements, and every
    /// location slot occupied by an element of `self` is occupied by an
    /// element of `other` of the same type. Names are deliberately not
    /// compared; the location is the binding contract.
    pub fn matches(&self, other: &ShaderInterface) -> (r: Result<(), InterfaceMatchError>)
        requires
            self.locations_in_range(),
            self.no_64bit(),
            other.locations_in_range(),
            other.no_64bit(),
        ensures
            r == spec_interface_matches(self@, other@),
    {
        let n = self.elements.len();
        proof {
            assert(self@.len() == self.elements@.len());
            assert(other@.len() == other.elements@.len());
        }
        if n != other.elements.len() {
            return Err(
                InterfaceMatchError::ElementCountMismatch {
                    first: n,
                    second: other.elements.len(),
                },
            );
        }
        let mut i: usize = 0;
        while i < n
            invariant
                n == self@.len(),
                n == self.elements@.len(),
                self@.len() == other@.len(),
                i <= n,
                self.locations_in_range(),
                self.no_64bit(),
                other.locations_in_range(),
                other.no_64bit(),
                spec_check_entries(self@, other@, i as int) == spec_interface_matches(
                    self@,
                    other@,
                ),
            decreases n - i,
        {
            let a = &self.elements[i];
            proof {
                assert(a@ == self@[i as int]);
            }
            let count = a.ty.num_locations();
            let mut k: u32 = 0;
            while k < count
                invariant
                    n == self@.len(),
                    n == self.elements@.len(),
                    self@.len() == other@.len(),
                    i < n,
                    a == &self.elements@[i as int],
                    a@ == self@[i as int],
                    count == a.ty.num_elements,
                    k <= count,
                    a.location + count <= u32::MAX,
                    other.locations_in_range(),
                    other.no_64bit(),
                    spec_check_entries(self@, other@, i as int) == spec_interface_matches(
                        self@,
                        other@,
                    ),
                    spec_check_locations(self@[i as int], other@, k as int)
                        == spec_check_locations(self@[i as int], other@, 0),
                decreases count - k,
            {
                let loc = a.location + k;
                match Self::find_occupying(other, loc) {
                    None => {
                        return Err(InterfaceMatchError::MissingElement { location: loc });
                    },
                    Some(b) => {
                        if !(a.ty == b.ty) {
                            return Err(InterfaceMatchError::TypeMismatch { location: loc });
                        }
                    },
                }
                k = k + 1;
            }
            i = i + 1;
        }
        Ok(())
    }

    /// The first element of `other` that occupies location slot `loc`.
    fn find_occupying(other: &ShaderInterface, loc: u32) -> (r: Option<&ShaderInterfaceEntry>)
        requires
            other.locations_in_range(),
            other.no_64bit(),
        ensures
            match r {
                Some(b) => spec_first_occupying(other@, loc as int) == Some(b@),
                None => spec_first_occupying(other@, loc as int) is None,
            },
    {
        let n = other.elements.len();
        let mut j: usize = 0;
        proof {
            assert(other@.skip(0) =~= other@);
            assert(other@.len() == other.elements@.len());
        }
        while j < n
            invariant
                n == other@.len(),
                n == other.elements@.len(),
                j <= n,
                other.locations_in_range(),
                other.no_64bit(),
                spec_first_occupying(other@, loc as int) == spec_first_occupying(
                    other@.skip(j as int),
                    loc as int,
                ),
            decreases n - j,
        {
            proof {
                assert(other@.skip(j as int)[0] == other@[j as int]);
                assert(other@.skip(j as int).drop_first() =~= other@.skip(j as int + 1));
                assert(other.elements@[j as int]@ == other@[j as int]);
            }
            let e = &other.elements[j];
            if loc >= e.location && loc < e.location + e.ty.num_locations() {
                return Some(e);
            }
            j = j + 1;
        }
        proof {
            assert(other@.skip(n as int) =~= Seq::<ShaderInterfaceEntryView>::empty());
        }
        None
    }
}

/// The outcome of matching two shader interfaces.
#[derive(Clone, Copy, Debug, PartialEq, Eq, Structural)]
pub enum InterfaceMatchError {
    /// The numbers of elements in the two interfaces are not equal.
    ElementCountMismatch { first: usize, second: usize },
    /// The second interface has no element at a location the first occupies.
    MissingElement { location: u32 },
    /// The element at this location does not have the same type in both
    /// interfaces.
    TypeMismatch { location: u32 },
}

/// The first entry of `s` that occupies location slot `loc`.
pub open spec fn spec_first_occupying(
    s: Seq<ShaderInterfaceEntryView>,
    loc: int,
) -> Option<ShaderInterfaceEntryView>
    decreases s.len(),
{
    if s.len() == 0 {
        None
    } else if s[0].occupies(loc) {
        Some(s[0])
    } else {
        spec_first_occupying(s.drop_first(), loc)
    }
}

/// Checks the location slots of entry `a` starting at slot offset `k`
/// against the entries of `other`.
pub open spec fn spec_check_locations(
    a: ShaderInterfaceEntryView,
    other: Seq<ShaderInterfaceEntryView>,
    k: int,
) -> Result<(), InterfaceMatchError>
    decreases a.ty.num_elements - k,
{
    if k < 0 || k >= a.ty.num_elements {
        Ok(())
    } else {
        let loc = a.location + k;
        match spec_first_occupying(other, loc) {
            None => Err(InterfaceMatchError::MissingElement { location: loc as u32 }),
            Some(b) => if b.ty != a.ty {
                Err(InterfaceMatchError::TypeMismatch { location: loc as u32 })
            } else {
                spec_check_locations(a, other, k + 1)
            },
        }
    }
}

/// Checks the entries of `s` from index `i` on against the entries of
/// `other`.
pub open spec fn spec_check_entries(
    s: Seq<ShaderInterfaceEntryView>,
    other: Seq<ShaderInterfaceEntryView>,
    i: int,
) -> Result<(), InterfaceMatchError>
    decreases s.len() - i,
{
    if i < 0 || i >= s.len() {
        Ok(())
    } else {
        match spec_check_locations(s[i], other, 0) {
            Err(e) => Err(e),
            Ok(()) => spec_check_entries(s, other, i + 1),
        }
    }
}

/// What matching interface `s` against interface `other` returns: an
/// element-count mismatch when the lengths differ, otherwise the first
/// missing or type-mismatched location in element order, otherwise success.
pub open spec fn spec_interface_matches(
    s: Seq<ShaderInterfaceEntryView>,
    other: Seq<ShaderInterfaceEntryView>,
) -> Result<(), InterfaceMatchError> {
    if s.len() != other.len() {
        Err(
            InterfaceMatchError::ElementCountMismatch {
                first: s.len() as usize,
                second: other.len() as usize,
            },
        )
    } else {
        spec_check_entries(s, other, 0)
    }
}

} // verus!
