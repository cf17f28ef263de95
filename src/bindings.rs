//! Binding layouts: the table of (binding index, visible stages, resource
//! kind, minimum byte size) that a pipeline's host side and its shader must
//! agree on, and the checks made on it when pipelines are built.
use vstd::prelude::*;

verus! {

/// Shader stages that can see a binding.
#[derive(Clone, Copy, Debug, PartialEq, Eq, Structural)]
pub struct Visibility {
    pub vertex: bool,
    pub fragment: bool,
    pub compute: bool,
}

/// What a binding holds.
#[derive(Clone, Copy, Debug, PartialEq, Eq, Structural)]
pub enum ResourceKind {
    UniformBuffer,
    StorageBuffer { read_only: bool },
    StorageTexture,
    SampledTexture,
    Sampler,
}

/// One row of a binding table.
#[derive(Clone, Copy, Debug, PartialEq, Eq, Structural)]
pub struct BindingEntry {
    pub binding: u32,
    pub visibility: Visibility,
    pub kind: ResourceKind,
    pub min_size: u64,
}

/// A binding table that cannot become a layout.
#[derive(Clone, Copy, Debug, PartialEq, Eq, Structural)]
pub enum LayoutError {
    /// Two entries claim this binding index.
    DuplicateBinding(u32),
}

/// A shader that does not fit the layout supplied for it.
#[derive(Clone, Copy, Debug, PartialEq, Eq, Structural)]
pub enum LinkError {
    /// The shader declares this binding index and the layout has no entry for it.
    MissingBinding(u32),
    /// The layout has this binding index, but with other stages, kind or size.
    MismatchedBinding(u32),
}

/// Some entry of `entries` has binding index `b`.
pub open spec fn has_binding(entries: Seq<BindingEntry>, b: u32) -> bool {
    exists|i: int| 0 <= i < entries.len() && entries[i].binding == b
}

/// No two entries share a binding index.
pub open spec fn distinct_bindings(entries: Seq<BindingEntry>) -> bool {
    forall|i: int, j: int|
        0 <= i < j < entries.len() ==> entries[i].binding != entries[j].binding
}

/// Binding index `b` is claimed by two different entries.
pub open spec fn duplicated(entries: Seq<BindingEntry>, b: u32) -> bool {
    exists|i: int, j: int|
        0 <= i < j < entries.len() && entries[i].binding == b && entries[j].binding == b
}

/// Every binding the shader declares stands in the layout as declared.
pub open spec fn links(layout: Seq<BindingEntry>, declared: Seq<BindingEntry>) -> bool {
    forall|i: int| 0 <= i < declared.len() ==> layout.contains(#[trigger] declared[i])
}

/// Checks that a binding table can become a layout: its binding indices
/// are pairwise distinct.
pub fn check_binding_layout(entries: &Vec<BindingEntry>) -> (r: Result<(), LayoutError>)
    ensures
        r is Ok <==> distinct_bindings(entries@),
        r matches Err(LayoutError::DuplicateBinding(b)) ==> duplicated(entries@, b),
{
    let n: usize = entries.len();
    for j in 0..n
        invariant
            n == entries@.len(),
            forall|a: int, c: int| 0 <= a < c < j ==> entries@[a].binding != entries@[c].binding,
    {
        for i in 0..j
            invariant
                j < n,
                n == entries@.len(),
                forall|a: int| 0 <= a < i ==> entries@[a].binding != entries@[j as int].binding,
        {
            if entries[i].binding == entries[j].binding {
                return Err(LayoutError::DuplicateBinding(entries[j].binding));
            }
        }
    }
    Ok(())
}

/// Checks a shader's declared bindings against the layout supplied for
/// it: each declared entry must stand in the layout exactly as declared.
pub fn check_shader_bindings(layout: &Vec<BindingEntry>, declared: &Vec<BindingEntry>) -> (r: Result<(), LinkError>)
    ensures
        r is Ok <==> links(layout@, declared@),
        r matches Err(LinkError::MissingBinding(b)) ==> exists|i: int|
            0 <= i < declared@.len() && declared@[i].binding == b && !has_binding(layout@, b),
        r matches Err(LinkError::MismatchedBinding(b)) ==> exists|i: int|
            0 <= i < declared@.len() && declared@[i].binding == b && has_binding(layout@, b)
                && !layout@.contains(declared@[i]),
{
    for k in 0..declared.len()
        invariant
            forall|a: int| 0 <= a < k ==> layout@.contains(#[trigger] declared@[a]),
    {
        let d = declared[k];
        let mut found_index = false;
        let mut found_entry = false;
        for i in 0..layout.len()
            invariant
                d == declared@[k as int],
                found_index <==> has_binding(layout@.subrange(0, i as int), d.binding),
                found_entry <==> layout@.subrange(0, i as int).contains(d),
        {
            let l = layout[i];
            assert(layout@.subrange(0, i + 1) =~= layout@.subrange(0, i as int).push(l));
            if l.binding == d.binding {
                found_index = true;
                if l == d {
                    found_entry = true;
                }
            }
            proof {
                let pre = layout@.subrange(0, i as int);
                let post = layout@.subrange(0, i + 1);
                if has_binding(pre, d.binding) {
                    let w = choose|w: int| 0 <= w < pre.len() && pre[w].binding == d.binding;
                    assert(post[w] == pre[w]);
                }
                if pre.contains(d) {
                    let w = choose|w: int| 0 <= w < pre.len() && pre[w] == d;
                    assert(post[w] == pre[w]);
                }
                if l.binding == d.binding {
                    assert(post[i as int] == l);
                }
                if l == d {
                    assert(post[i as int] == l);
                }
            }
        }
        assert(layout@.subrange(0, layout@.len() as int) =~= layout@);
        if !found_index {
            return Err(LinkError::MissingBinding(d.binding));
        }
        if !found_entry {
            return Err(LinkError::MismatchedBinding(d.binding));
        }
    }
    Ok(())
}

/// Bytes of the generic debug array: 512 texels of four 32-bit floats.
pub const DEBUG_ARRAY_BYTES: u64 = 8192;

/// Bytes of one four-float debug value.
pub const DEBUG_VALUE_BYTES: u64 = 16;

/// Bytes of the time uniform: one 32-bit float.
pub const TIME_UNIFORM_BYTES: u64 = 4;

/// Stages of a binding that both the fragment and compute stages see.
pub open spec fn fragment_and_compute() -> Visibility {
    Visibility { vertex: false, fragment: true, compute: true }
}

/// Stages of a binding only the fragment stage sees.
pub open spec fn fragment_only() -> Visibility {
    Visibility { vertex: false, fragment: true, compute: false }
}

/// Stages of a binding only the compute stage sees.
pub open spec fn compute_only() -> Visibility {
    Visibility { vertex: false, fragment: false, compute: true }
}

/// A writable storage buffer of at least `size` bytes at binding `b`, seen
/// by the fragment and compute stages.
pub open spec fn shared_row(b: u32, size: u64) -> BindingEntry {
    BindingEntry {
        binding: b,
        visibility: fragment_and_compute(),
        kind: ResourceKind::StorageBuffer { read_only: false },
        min_size: size,
    }
}

/// A binding of kind `kind`, with no byte size, at `b` for the stages `v`.
pub open spec fn plain_row(b: u32, v: Visibility, kind: ResourceKind) -> BindingEntry {
    BindingEntry { binding: b, visibility: v, kind, min_size: 0 }
}

fn shared_storage(binding: u32, min_size: u64) -> (e: BindingEntry)
    ensures
        e == shared_row(binding, min_size),
{
    BindingEntry {
        binding,
        visibility: Visibility { vertex: false, fragment: true, compute: true },
        kind: ResourceKind::StorageBuffer { read_only: false },
        min_size,
    }
}

/// The time uniform, seen by the fragment and compute stages.
pub fn uniform_layout() -> (t: Vec<BindingEntry>)
    ensures
        t@ == seq![
            BindingEntry {
                binding: 0,
                visibility: fragment_and_compute(),
                kind: ResourceKind::UniformBuffer,
                min_size: TIME_UNIFORM_BYTES,
            },
        ],
        distinct_bindings(t@),
{
    let mut t: Vec<BindingEntry> = Vec::new();
    t.push(BindingEntry {
        binding: 0,
        visibility: Visibility { vertex: false, fragment: true, compute: true },
        kind: ResourceKind::UniformBuffer,
        min_size: TIME_UNIFORM_BYTES,
    });
    assert(t@ =~= seq![
        BindingEntry {
            binding: 0,
            visibility: fragment_and_compute(),
            kind: ResourceKind::UniformBuffer,
            min_size: TIME_UNIFORM_BYTES,
        },
    ]);
    t
}

/// Ray and view parameters and the debug buffers, for the fragment stage;
/// each buffer's minimum size is the size of what it holds.
pub fn fragment_layout(ray_params_bytes: u64, view_params_bytes: u64) -> (t: Vec<BindingEntry>)
    ensures
        t@ == seq![
            shared_row(0, ray_params_bytes),
            shared_row(1, view_params_bytes),
            shared_row(7, DEBUG_ARRAY_BYTES),
            shared_row(8, DEBUG_ARRAY_BYTES),
            shared_row(9, DEBUG_VALUE_BYTES),
        ],
        distinct_bindings(t@),
{
    let mut t: Vec<BindingEntry> = Vec::new();
    t.push(shared_storage(0, ray_params_bytes));
    t.push(shared_storage(1, view_params_bytes));
    t.push(shared_storage(7, DEBUG_ARRAY_BYTES));
    t.push(shared_storage(8, DEBUG_ARRAY_BYTES));
    t.push(shared_storage(9, DEBUG_VALUE_BYTES));
    assert(t@ =~= seq![
        shared_row(0, ray_params_bytes),
        shared_row(1, view_params_bytes),
        shared_row(7, DEBUG_ARRAY_BYTES),
        shared_row(8, DEBUG_ARRAY_BYTES),
        shared_row(9, DEBUG_VALUE_BYTES),
    ]);
    t
}

/// Terrain parameters and the debug buffers, for the compute stage; each
/// buffer's minimum size is the size of what it holds.
pub fn compute_layout(terrain_params_bytes: u64) -> (t: Vec<BindingEntry>)
    ensures
        t@ == seq![
            shared_row(0, terrain_params_bytes),
            shared_row(7, DEBUG_ARRAY_BYTES),
            shared_row(8, DEBUG_ARRAY_BYTES),
            shared_row(9, DEBUG_VALUE_BYTES),
        ],
        distinct_bindings(t@),
{
    let mut t: Vec<BindingEntry> = Vec::new();
    t.push(shared_storage(0, terrain_params_bytes));
    t.push(shared_storage(7, DEBUG_ARRAY_BYTES));
    t.push(shared_storage(8, DEBUG_ARRAY_BYTES));
    t.push(shared_storage(9, DEBUG_VALUE_BYTES));
    assert(t@ =~= seq![
        shared_row(0, terrain_params_bytes),
        shared_row(7, DEBUG_ARRAY_BYTES),
        shared_row(8, DEBUG_ARRAY_BYTES),
        shared_row(9, DEBUG_VALUE_BYTES),
    ]);
    t
}

/// The planet and moon heightmaps as storage textures the compute stage
/// writes.
pub fn storage_texture_layout() -> (t: Vec<BindingEntry>)
    ensures
        t@ == seq![
            plain_row(0, compute_only(), ResourceKind::StorageTexture),
            plain_row(1, compute_only(), ResourceKind::StorageTexture),
        ],
        distinct_bindings(t@),
{
    let vis = Visibility { vertex: false, fragment: false, compute: true };
    let mut t: Vec<BindingEntry> = Vec::new();
    t.push(BindingEntry { binding: 0, visibility: vis, kind: ResourceKind::StorageTexture, min_size: 0 });
    t.push(BindingEntry { binding: 1, visibility: vis, kind: ResourceKind::StorageTexture, min_size: 0 });
    assert(t@ =~= seq![
        plain_row(0, compute_only(), ResourceKind::StorageTexture),
        plain_row(1, compute_only(), ResourceKind::StorageTexture),
    ]);
    t
}

/// The planet and moon heightmaps, each with its sampler, as the fragment
/// stage samples them.
pub fn sampled_texture_layout() -> (t: Vec<BindingEntry>)
    ensures
        t@ == seq![
            plain_row(0, fragment_only(), ResourceKind::SampledTexture),
            plain_row(1, fragment_only(), ResourceKind::Sampler),
            plain_row(2, fragment_only(), ResourceKind::SampledTexture),
            plain_row(3, fragment_only(), ResourceKind::Sampler),
        ],
        distinct_bindings(t@),
{
    let vis = Visibility { vertex: false, fragment: true, compute: false };
    let mut t: Vec<BindingEntry> = Vec::new();
    t.push(BindingEntry { binding: 0, visibility: vis, kind: ResourceKind::SampledTexture, min_size: 0 });
    t.push(BindingEntry { binding: 1, visibility: vis, kind: ResourceKind::Sampler, min_size: 0 });
    t.push(BindingEntry { binding: 2, visibility: vis, kind: ResourceKind::SampledTexture, min_size: 0 });
    t.push(BindingEntry { binding: 3, visibility: vis, kind: ResourceKind::Sampler, min_size: 0 });
    assert(t@ =~= seq![
        plain_row(0, fragment_only(), ResourceKind::SampledTexture),
        plain_row(1, fragment_only(), ResourceKind::Sampler),
        plain_row(2, fragment_only(), ResourceKind::SampledTexture),
        plain_row(3, fragment_only(), ResourceKind::Sampler),
    ]);
    t
}

} // verus!
