use shader_reflect::InterfaceMatchError;
use shader_reflect::NumericType;
use shader_reflect::ShaderInterface;
use shader_reflect::ShaderInterfaceEntry;
use shader_reflect::ShaderInterfaceEntryType;

fn vec_entry(location: u32, num_components: u32) -> ShaderInterfaceEntry {
    ShaderInterfaceEntry {
        location,
        index: 0,
        component: 0,
        name: None,
        ty: ShaderInterfaceEntryType {
            base_type: NumericType::Float,
            num_components,
            num_elements: 1,
            is_64bit: false,
        },
    }
}

#[test]
fn empty_interface_has_no_elements() {
    let i = ShaderInterface::empty();
    assert_eq!(i.elements().len(), 0);
}

#[test]
fn elements_returns_what_was_provided() {
    let i = ShaderInterface::new_unchecked(vec![vec_entry(0, 4), vec_entry(1, 2)]);
    assert_eq!(i.elements().len(), 2);
    assert_eq!(i.elements()[0].location, 0);
    assert_eq!(i.elements()[1].location, 1);
    assert_eq!(i.elements()[1].ty.num_components, 2);
}

#[test]
fn matching_identical_single_entry_interfaces_succeeds() {
    let out = ShaderInterface::new_unchecked(vec![vec_entry(0, 4)]);
    let inp = ShaderInterface::new_unchecked(vec![vec_entry(0, 4)]);
    assert!(out.matches(&inp).is_ok());
}

#[test]
fn matching_fails_on_component_count_mismatch() {
    let out = ShaderInterface::new_unchecked(vec![vec_entry(0, 4)]);
    let inp = ShaderInterface::new_unchecked(vec![vec_entry(0, 3)]);
    assert_eq!(
        out.matches(&inp).unwrap_err(),
        InterfaceMatchError::TypeMismatch { location: 0 }
    );
}

#[test]
fn matching_fails_against_empty_interface() {
    let out = ShaderInterface::new_unchecked(vec![vec_entry(0, 4)]);
    let inp = ShaderInterface::empty();
    assert_eq!(
        out.matches(&inp).unwrap_err(),
        InterfaceMatchError::ElementCountMismatch { first: 1, second: 0 }
    );
}

#[test]
fn matching_fails_on_missing_location() {
    let out = ShaderInterface::new_unchecked(vec![vec_entry(0, 4), vec_entry(1, 4)]);
    let inp = ShaderInterface::new_unchecked(vec![vec_entry(0, 4), vec_entry(2, 4)]);
    assert_eq!(
        out.matches(&inp).unwrap_err(),
        InterfaceMatchError::MissingElement { location: 1 }
    );
}

#[test]
fn matching_ignores_names() {
    let mut a = vec_entry(0, 4);
    a.name = Some(b"color".to_vec());
    let mut b = vec_entry(0, 4);
    b.name = Some(b"tint".to_vec());
    let out = ShaderInterface::new_unchecked(vec![a]);
    let inp = ShaderInterface::new_unchecked(vec![b]);
    assert!(out.matches(&inp).is_ok());
}

#[test]
fn matching_covers_multi_slot_elements() {
    // An element of four array elements occupies locations 0 through 3.
    let wide = |location: u32| ShaderInterfaceEntry {
        location,
        index: 0,
        component: 0,
        name: None,
        ty: ShaderInterfaceEntryType {
            base_type: NumericType::Float,
            num_components: 4,
            num_elements: 4,
            is_64bit: false,
        },
    };
    let out = ShaderInterface::new_unchecked(vec![wide(0)]);
    // The same multi-slot element downstream covers every occupied slot.
    let inp = ShaderInterface::new_unchecked(vec![wide(0)]);
    assert!(out.matches(&inp).is_ok());
    // A single-slot element of a different element count is a type
    // mismatch at the first covered location.
    let inp2 = ShaderInterface::new_unchecked(vec![vec_entry(0, 4)]);
    assert_eq!(
        out.matches(&inp2).unwrap_err(),
        InterfaceMatchError::TypeMismatch { location: 0 }
    );
    // A downstream element that starts past the first occupied slot leaves
    // that slot uncovered.
    let inp3 = ShaderInterface::new_unchecked(vec![wide(2)]);
    assert_eq!(
        out.matches(&inp3).unwrap_err(),
        InterfaceMatchError::MissingElement { location: 0 }
    );
}

#[test]
fn num_locations_is_element_count() {
    let ty = ShaderInterfaceEntryType {
        base_type: NumericType::Uint,
        num_components: 2,
        num_elements: 3,
        is_64bit: false,
    };
    assert_eq!(ty.num_locations(), 3);
}
