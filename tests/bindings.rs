use terrain_flow::bindings::{
    check_binding_layout, check_shader_bindings, compute_layout, fragment_layout, sampled_texture_layout,
    storage_texture_layout, uniform_layout, BindingEntry, LayoutError, LinkError, ResourceKind, Visibility,
};

fn entry(binding: u32, kind: ResourceKind, min_size: u64) -> BindingEntry {
    BindingEntry {
        binding,
        visibility: Visibility { vertex: false, fragment: true, compute: true },
        kind,
        min_size,
    }
}

fn storage(binding: u32, min_size: u64) -> BindingEntry {
    entry(binding, ResourceKind::StorageBuffer { read_only: false }, min_size)
}

#[test]
fn distinct_bindings_make_a_layout() {
    let layout = vec![storage(0, 12), storage(1, 8), storage(7, 16), storage(8, 8192), storage(9, 16)];
    assert_eq!(check_binding_layout(&layout), Ok(()));
    assert_eq!(check_binding_layout(&Vec::new()), Ok(()));
}

#[test]
fn duplicate_binding_is_a_configuration_error() {
    let layout = vec![storage(0, 12), storage(7, 16), storage(3, 4), storage(7, 8)];
    assert_eq!(check_binding_layout(&layout), Err(LayoutError::DuplicateBinding(7)));
}

#[test]
fn shader_bindings_link_against_layout() {
    let layout = vec![storage(0, 12), storage(1, 8), entry(2, ResourceKind::Sampler, 0)];
    let declared = vec![entry(2, ResourceKind::Sampler, 0), storage(0, 12)];
    assert_eq!(check_shader_bindings(&layout, &declared), Ok(()));
    assert_eq!(check_shader_bindings(&layout, &Vec::new()), Ok(()));
}

#[test]
fn missing_binding_is_a_link_error() {
    let layout = vec![storage(0, 12), storage(1, 8)];
    let declared = vec![storage(0, 12), storage(5, 8)];
    assert_eq!(check_shader_bindings(&layout, &declared), Err(LinkError::MissingBinding(5)));
}

#[test]
fn mismatched_binding_is_a_link_error() {
    let layout = vec![storage(0, 12), storage(1, 8)];
    let declared = vec![storage(1, 16)];
    assert_eq!(check_shader_bindings(&layout, &declared), Err(LinkError::MismatchedBinding(1)));
    let declared = vec![entry(0, ResourceKind::UniformBuffer, 12)];
    assert_eq!(check_shader_bindings(&layout, &declared), Err(LinkError::MismatchedBinding(0)));
}

#[test]
fn fragment_table_rows() {
    let t = fragment_layout(12, 28);
    let expected = vec![storage(0, 12), storage(1, 28), storage(7, 8192), storage(8, 8192), storage(9, 16)];
    assert_eq!(t, expected);
    assert_eq!(check_binding_layout(&t), Ok(()));
}

#[test]
fn compute_table_rows() {
    let t = compute_layout(4);
    assert_eq!(t, vec![storage(0, 4), storage(7, 8192), storage(8, 8192), storage(9, 16)]);
}

#[test]
fn uniform_table_row() {
    assert_eq!(uniform_layout(), vec![entry(0, ResourceKind::UniformBuffer, 4)]);
}

#[test]
fn texture_tables_rows() {
    let compute = Visibility { vertex: false, fragment: false, compute: true };
    let fragment = Visibility { vertex: false, fragment: true, compute: false };
    let row = |binding, visibility, kind| BindingEntry { binding, visibility, kind, min_size: 0 };
    assert_eq!(
        storage_texture_layout(),
        vec![row(0, compute, ResourceKind::StorageTexture), row(1, compute, ResourceKind::StorageTexture)]
    );
    assert_eq!(
        sampled_texture_layout(),
        vec![
            row(0, fragment, ResourceKind::SampledTexture),
            row(1, fragment, ResourceKind::Sampler),
            row(2, fragment, ResourceKind::SampledTexture),
            row(3, fragment, ResourceKind::Sampler),
        ]
    );
}
