//! Plain descriptions of what the graphics device is asked to do. The caller
//! turns each into the device call it stands for.

use vstd::prelude::*;

verus! {

/// What a buffer may be used for.
#[derive(Clone, Copy, Debug, PartialEq, Eq)]
pub struct BufferUsage {
    /// Shaders read it as a uniform block.
    pub uniform: bool,
    /// The queue may write into it.
    pub copy_dst: bool,
}

impl BufferUsage {
    /// A uniform buffer that the queue can write to.
    pub fn uniform_copy_dst() -> (u: BufferUsage)
        ensures
            u == (BufferUsage { uniform: true, copy_dst: true }),
    {
        BufferUsage { uniform: true, copy_dst: true }
    }
}

/// A buffer to create, left unfilled.
#[derive(Clone, Copy, Debug, PartialEq, Eq)]
pub struct BufferDescriptor {
    pub label: &'static str,
    /// Size in bytes.
    pub size: u64,
    pub usage: BufferUsage,
    pub mapped_at_creation: bool,
}

/// A buffer to create with the given contents, as long as they are.
#[derive(Debug, PartialEq, Eq)]
pub struct BufferInitDescriptor {
    pub contents: Vec<u8>,
    pub usage: BufferUsage,
}

/// One transfer to a buffer: `data` goes to `buffer`, starting `offset` bytes
/// into it.
#[derive(Debug)]
pub struct BufferWrite<'a, B> {
    pub buffer: &'a B,
    pub offset: u64,
    pub data: Vec<u8>,
}

/// The shader stages that can see a binding.
#[derive(Clone, Copy, Debug, PartialEq, Eq)]
pub struct ShaderStage {
    pub vertex: bool,
    pub fragment: bool,
    pub compute: bool,
}

impl ShaderStage {
    /// The fragment stage alone.
    pub fn fragment() -> (stage: ShaderStage)
        ensures
            stage == (ShaderStage { vertex: false, fragment: true, compute: false }),
    {
        ShaderStage { vertex: false, fragment: true, compute: false }
    }
}

/// The shape in which a shader sees a texture.
#[derive(Clone, Copy, Debug, PartialEq, Eq)]
pub enum TextureViewDimension {
    D1,
    D2,
    D2Array,
    Cube,
    CubeArray,
    D3,
}

/// The kind of number that sampling a texture gives.
#[derive(Clone, Copy, Debug, PartialEq, Eq)]
pub enum TextureComponentType {
    Float,
    Sint,
    Uint,
}

/// What a binding of a bind group layout takes.
#[derive(Clone, Copy, Debug, PartialEq, Eq)]
pub enum BindingType {
    /// A sampler; `comparison` says whether it compares depths.
    Sampler { comparison: bool },
    /// A texture to sample.
    SampledTexture {
        dimension: TextureViewDimension,
        component_type: TextureComponentType,
        multisampled: bool,
    },
    /// A buffer read as a uniform block: bound at an offset given with each
    /// draw if `dynamic`, and of `min_binding_size` bytes at least if that is
    /// given.
    UniformBuffer { dynamic: bool, min_binding_size: Option<u64> },
}

/// One binding of a bind group layout.
#[derive(Clone, Copy, Debug, PartialEq, Eq)]
pub struct BindGroupLayoutEntry {
    pub binding: u32,
    pub visibility: ShaderStage,
    pub ty: BindingType,
}

/// A bind group layout to create.
#[derive(Debug, PartialEq, Eq)]
pub struct BindGroupLayoutDescriptor {
    pub label: &'static str,
    pub entries: Vec<BindGroupLayoutEntry>,
}

/// What is bound at one binding of a bind group.
#[derive(Debug)]
pub enum BindingResource<'a, S, V, B> {
    Sampler(&'a S),
    TextureView(&'a V),
    /// The whole of a buffer.
    Buffer(&'a B),
}

/// One binding of a bind group.
#[derive(Debug)]
pub struct BindGroupEntry<'a, S, V, B> {
    pub binding: u32,
    pub resource: BindingResource<'a, S, V, B>,
}

/// A bind group to create.
#[derive(Debug)]
pub struct BindGroupDescriptor<'a, L, S, V, B> {
    pub label: &'static str,
    pub layout: &'a L,
    pub entries: Vec<BindGroupEntry<'a, S, V, B>>,
}

/// One step of drawing into a render pass.
#[derive(Debug)]
pub enum RenderCommand<'a, P, B, G> {
    /// Have the queue carry out a transfer before the pass runs.
    WriteBuffer(BufferWrite<'a, B>),
    SetPipeline(&'a P),
    /// Bind the whole of a buffer as vertex buffer `slot`.
    SetVertexBuffer { slot: u32, buffer: &'a B },
    /// Bind a group at `index`, with the offsets of its dynamic bindings.
    SetBindGroup { index: u32, bind_group: &'a G, offsets: Vec<u32> },
    /// Draw the vertices from `vertex_start` up to, not including,
    /// `vertex_end`, for the instances numbered likewise.
    Draw { vertex_start: u32, vertex_end: u32, instance_start: u32, instance_end: u32 },
}

} // verus!
