//! The deferred lighting pass: the layout of its uniforms, what it binds,
//! and what it draws.

use crate::gpu::{
    BindGroupDescriptor, BindGroupEntry, BindGroupLayoutDescriptor, BindGroupLayoutEntry,
    BindingResource, BindingType, BufferInitDescriptor, BufferUsage, BufferWrite, RenderCommand,
    ShaderStage, TextureComponentType, TextureViewDimension,
};
use crate::pod::{
    encode_words, lemma_word_round_trip, pad_with_zeros, word_bytes, words_bytes, zero_padded, Pod,
};
use vstd::prelude::*;

verus! {

/// The most point lights that one frame can pass to the lighting shader.
pub const MAX_LIGHTS: usize = 32;

/// The number one as a single-precision bit pattern.
pub const ONE_BITS: u32 = 0x3f80_0000;

/// The number of words that the fields of the lighting uniforms take.
pub const DEFERRED_UNIFORMS_WORDS: usize = 148;

/// Size in bytes of the encoded lighting uniforms, padding included.
pub const DEFERRED_UNIFORMS_SIZE: usize = 768;

/// Alignment in bytes of the lighting uniforms.
pub const DEFERRED_UNIFORMS_ALIGNMENT: usize = 256;

/// A point light. Each number is held as the bit pattern of a
/// single-precision float.
#[derive(Clone, Copy, Debug, PartialEq, Eq)]
pub struct PointLight {
    /// Where the light is, in view space.
    pub origin: [u32; 3],
    /// How far the light reaches.
    pub radius: u32,
}

/// What the lighting shader reads each frame. Each fractional number is held
/// as the bit pattern of a single-precision float.
#[derive(Clone, Copy, Debug, PartialEq, Eq)]
pub struct DeferredUniforms {
    /// The inverse of the projection matrix, column by column.
    pub inv_projection: [[u32; 4]; 4],
    /// How many of `lights` are in use, from the first on: `MAX_LIGHTS` at
    /// most.
    pub light_count: u32,
    /// Fills the row of `light_count`, so that `lights` starts on a multiple
    /// of sixteen bytes.
    pub _pad: [u32; 3],
    pub lights: [PointLight; MAX_LIGHTS],
}

/// The words of a matrix: its columns one after another.
pub open spec fn matrix_words(m: [[u32; 4]; 4]) -> Seq<u32> {
    Seq::new(16, |k: int| m[k / 4][k % 4])
}

/// The words of a light: its origin, then its radius.
pub open spec fn light_words(light: PointLight) -> Seq<u32> {
    seq![light.origin[0], light.origin[1], light.origin[2], light.radius]
}

/// The words of a run of lights, one light after another.
pub open spec fn lights_words(lights: Seq<PointLight>) -> Seq<u32> {
    Seq::new(4 * lights.len(), |k: int| light_words(lights[k / 4])[k % 4])
}

/// The words of the uniforms that the pass starts with: one on the diagonal
/// of the matrix, zero everywhere else.
pub open spec fn identity_words() -> Seq<u32> {
    Seq::new(
        DEFERRED_UNIFORMS_WORDS as nat,
        |k: int|
            if k < 16 && k / 4 == k % 4 {
                ONE_BITS
            } else {
                0u32
            },
    )
}

impl DeferredUniforms {
    /// The words of the uniforms: the fields in the order in which they are
    /// declared.
    pub open spec fn words(&self) -> Seq<u32> {
        matrix_words(self.inv_projection) + seq![self.light_count] + self._pad@ + lights_words(
            self.lights@,
        )
    }

    /// The uniforms that the pass starts with: the identity as inverse
    /// projection, and no light.
    pub fn identity() -> (uniforms: DeferredUniforms)
        ensures
            forall|c: int, r: int|
                0 <= c < 4 && 0 <= r < 4 ==> #[trigger] uniforms.inv_projection[c][r] == if c
                    == r {
                    ONE_BITS
                } else {
                    0u32
                },
            uniforms.light_count == 0,
            uniforms._pad@ == seq![0u32, 0u32, 0u32],
            forall|i: int|
                0 <= i < MAX_LIGHTS ==> #[trigger] uniforms.lights[i] == (PointLight {
                    origin: [0u32, 0u32, 0u32],
                    radius: 0,
                }),
            uniforms.words() == identity_words(),
    {
        DeferredUniforms {
            inv_projection: [[ONE_BITS, 0, 0, 0], [0, ONE_BITS, 0, 0], [0, 0, ONE_BITS, 0], [0, 0, 0, ONE_BITS]],
            light_count: 0,
            _pad: [0; 3],
            lights: [PointLight { origin: [0, 0, 0], radius: 0 };MAX_LIGHTS],
        }
    }
}

impl Pod for DeferredUniforms {
    open spec fn size_spec() -> nat {
        DEFERRED_UNIFORMS_SIZE as nat
    }

    open spec fn align_spec() -> nat {
        DEFERRED_UNIFORMS_ALIGNMENT as nat
    }

    /// The words, each least significant byte first, then zeros up to the
    /// size.
    open spec fn bytes(&self) -> Seq<u8> {
        zero_padded(words_bytes(self.words()), DEFERRED_UNIFORMS_SIZE as nat)
    }

    proof fn lemma_layout() {
    }

    proof fn lemma_bytes_len(&self) {
    }

    fn size() -> (n: usize) {
        DEFERRED_UNIFORMS_SIZE
    }

    fn align() -> (n: usize) {
        DEFERRED_UNIFORMS_ALIGNMENT
    }

    fn to_bytes(&self) -> (b: Vec<u8>) {
        let mut words: Vec<u32> = Vec::new();
        let mut k: usize = 0;
        while k < 16
            invariant
                k <= 16,
                words@ == matrix_words(self.inv_projection).subrange(0, k as int),
            decreases 16 - k,
        {
            words.push(self.inv_projection[k / 4][k % 4]);
            k += 1;
        }
        words.push(self.light_count);
        words.push(self._pad[0]);
        words.push(self._pad[1]);
        words.push(self._pad[2]);
        let ghost head = matrix_words(self.inv_projection) + seq![self.light_count] + self._pad@;
        assert(words@ == head);
        let mut i: usize = 0;
        while i < MAX_LIGHTS
            invariant
                i <= MAX_LIGHTS,
                words@ == head + lights_words(self.lights@).subrange(0, 4 * i),
            decreases MAX_LIGHTS - i,
        {
            let light = &self.lights[i];
            words.push(light.origin[0]);
            words.push(light.origin[1]);
            words.push(light.origin[2]);
            words.push(light.radius);
            i += 1;
        }
        assert(words@ == self.words());
        let mut b = encode_words(&words);
        pad_with_zeros(&mut b, DEFERRED_UNIFORMS_SIZE);
        b
    }
}

/// The index of the word that holds row `r` of column `c` of the matrix.
pub open spec fn matrix_word(c: int, r: int) -> int {
    4 * c + r
}

/// The index of word `j` of light `i`: the origin in its first three words,
/// the radius in the fourth.
pub open spec fn light_word(i: int, j: int) -> int {
    20 + 4 * i + j
}

/// Where the fields of the uniforms lie: the matrix from the first word on,
/// the count of lights in word 16, and each light in four words of its own
/// from word 20 on, so that the lights start on a multiple of sixteen bytes.
pub proof fn lemma_uniforms_words(uniforms: DeferredUniforms)
    ensures
        uniforms.words().len() == DEFERRED_UNIFORMS_WORDS,
        forall|c: int, r: int|
            0 <= c < 4 && 0 <= r < 4 ==> uniforms.words()[#[trigger] matrix_word(c, r)]
                == uniforms.inv_projection[c][r],
        uniforms.words()[16] == uniforms.light_count,
        uniforms.words().subrange(17, 20) == uniforms._pad@,
        forall|i: int, j: int|
            0 <= i < MAX_LIGHTS && 0 <= j < 4 ==> uniforms.words()[#[trigger] light_word(i, j)]
                == light_words(uniforms.lights[i])[j],
{
    let words = uniforms.words();
    let head = matrix_words(uniforms.inv_projection) + seq![uniforms.light_count] + uniforms._pad@;
    let lights = lights_words(uniforms.lights@);
    assert(words == head + lights);
    assert forall|c: int, r: int| 0 <= c < 4 && 0 <= r < 4 implies words[#[trigger] matrix_word(
        c,
        r,
    )] == uniforms.inv_projection[c][r] by {
        let k = matrix_word(c, r);
        assert(k / 4 == c && k % 4 == r);
        assert(words[k] == matrix_words(uniforms.inv_projection)[k]);
    }
    assert(words.subrange(17, 20) =~= uniforms._pad@);
    assert forall|i: int, j: int| 0 <= i < MAX_LIGHTS && 0 <= j < 4 implies words[#[trigger] light_word(
        i,
        j,
    )] == light_words(uniforms.lights[i])[j] by {
        let k = 4 * i + j;
        assert(k / 4 == i && k % 4 == j);
        assert(words[20 + k] == lights[k]);
    }
}

/// The encoding is the words of the fields, then zeros: less than one
/// alignment of them.
pub proof fn lemma_uniforms_padding(uniforms: DeferredUniforms)
    ensures
        4 * DEFERRED_UNIFORMS_WORDS <= DEFERRED_UNIFORMS_SIZE < 4 * DEFERRED_UNIFORMS_WORDS
            + DEFERRED_UNIFORMS_ALIGNMENT,
        uniforms.bytes().subrange(0, 4 * DEFERRED_UNIFORMS_WORDS) == words_bytes(uniforms.words()),
        forall|k: int|
            4 * DEFERRED_UNIFORMS_WORDS <= k < DEFERRED_UNIFORMS_SIZE ==> uniforms.bytes()[k] == 0,
{
    lemma_uniforms_words(uniforms);
    let encoded = words_bytes(uniforms.words());
    assert(encoded.len() == 4 * DEFERRED_UNIFORMS_WORDS);
    assert(uniforms.bytes().subrange(0, 4 * DEFERRED_UNIFORMS_WORDS) =~= encoded);
}

/// The encoding loses nothing: uniforms with the same bytes are the same.
pub proof fn lemma_uniforms_round_trip(a: DeferredUniforms, b: DeferredUniforms)
    requires
        a.bytes() == b.bytes(),
    ensures
        a.words() == b.words(),
        a == b,
{
    lemma_uniforms_words(a);
    lemma_uniforms_words(b);
    assert forall|k: int| 0 <= k < DEFERRED_UNIFORMS_WORDS implies a.words()[k] == b.words()[k] by {
        assert forall|j: int| 0 <= j < 4 implies word_bytes(a.words()[k])[j] == word_bytes(
            b.words()[k],
        )[j] by {
            let i = 4 * k + j;
            assert(i / 4 == k && i % 4 == j);
            assert(a.bytes()[i] == word_bytes(a.words()[k])[j]);
            assert(b.bytes()[i] == word_bytes(b.words()[k])[j]);
        }
        assert(word_bytes(a.words()[k]) =~= word_bytes(b.words()[k]));
        lemma_word_round_trip(a.words()[k]);
        lemma_word_round_trip(b.words()[k]);
    }
    assert(a.words() =~= b.words());
    assert forall|c: int| 0 <= c < 4 implies a.inv_projection[c] == b.inv_projection[c] by {
        assert forall|r: int| 0 <= r < 4 implies a.inv_projection[c][r] == b.inv_projection[c][r] by {
            assert(a.words()[matrix_word(c, r)] == b.words()[matrix_word(c, r)]);
        }
        assert(a.inv_projection[c] =~= b.inv_projection[c]);
    }
    assert(a.inv_projection =~= b.inv_projection);
    assert(a.words()[16] == b.words()[16]);
    assert(a.words().subrange(17, 20) == b.words().subrange(17, 20));
    assert forall|j: int| 0 <= j < 3 implies a._pad[j] == b._pad[j] by {
        assert(a._pad@[j] == a.words().subrange(17, 20)[j]);
        assert(b._pad@[j] == b.words().subrange(17, 20)[j]);
    }
    assert(a._pad =~= b._pad);
    assert forall|i: int| 0 <= i < MAX_LIGHTS implies a.lights[i] == b.lights[i] by {
        assert forall|j: int| 0 <= j < 4 implies light_words(a.lights[i])[j] == light_words(
            b.lights[i],
        )[j] by {
            assert(a.words()[light_word(i, j)] == light_words(a.lights[i])[j]);
            assert(b.words()[light_word(i, j)] == light_words(b.lights[i])[j]);
        }
        let x = a.lights[i];
        let y = b.lights[i];
        assert(light_words(x)[0] == light_words(y)[0]);
        assert(light_words(x)[1] == light_words(y)[1]);
        assert(light_words(x)[2] == light_words(y)[2]);
        assert(light_words(x)[3] == light_words(y)[3]);
        assert(x.origin =~= y.origin);
    }
    assert(a.lights =~= b.lights);
}

/// The bindings of the pass, by index: a sampler, the four multisampled
/// buffers of the earlier passes (diffuse, normal, light, depth), and the
/// lighting uniforms. Only the fragment stage sees them.
pub open spec fn layout_entries() -> Seq<BindGroupLayoutEntry> {
    Seq::new(
        6,
        |i: int|
            BindGroupLayoutEntry {
                binding: i as u32,
                visibility: ShaderStage { vertex: false, fragment: true, compute: false },
                ty: if i == 0 {
                    BindingType::Sampler { comparison: false }
                } else if i <= 4 {
                    BindingType::SampledTexture {
                        dimension: TextureViewDimension::D2,
                        component_type: TextureComponentType::Float,
                        multisampled: true,
                    }
                } else {
                    BindingType::UniformBuffer {
                        dynamic: false,
                        min_binding_size: Some(DEFERRED_UNIFORMS_SIZE as u64),
                    }
                },
            },
    )
}

/// The name of the pass.
pub fn name() -> (name: &'static str)
    ensures
        name@ == "deferred"@,
{
    "deferred"
}

/// The depth and stencil test of the pass: none. The pass writes its color
/// target and tests nothing.
pub fn depth_stencil_state_descriptor<D>() -> (state: Option<D>)
    ensures
        state is None,
{
    None
}

/// The bind group layouts of the pass: one, with the six bindings.
pub fn bind_group_layout_descriptors() -> (descs: Vec<BindGroupLayoutDescriptor>)
    ensures
        descs@.len() == 1,
        descs@[0].label@ == "deferred bind group"@,
        descs@[0].entries@ == layout_entries(),
{
    let texture = BindingType::SampledTexture {
        dimension: TextureViewDimension::D2,
        component_type: TextureComponentType::Float,
        multisampled: true,
    };
    let mut entries: Vec<BindGroupLayoutEntry> = Vec::new();
    // sampler
    entries.push(
        BindGroupLayoutEntry {
            binding: 0,
            visibility: ShaderStage::fragment(),
            ty: BindingType::Sampler { comparison: false },
        },
    );
    // diffuse, normal, light and depth buffer
    let mut binding: u32 = 1;
    while binding <= 4
        invariant
            1 <= binding <= 5,
            entries@ == layout_entries().subrange(0, binding as int),
            texture == (BindingType::SampledTexture {
                dimension: TextureViewDimension::D2,
                component_type: TextureComponentType::Float,
                multisampled: true,
            }),
        decreases 5 - binding,
    {
        entries.push(
            BindGroupLayoutEntry { binding, visibility: ShaderStage::fragment(), ty: texture },
        );
        binding += 1;
    }
    // uniform buffer
    entries.push(
        BindGroupLayoutEntry {
            binding: 5,
            visibility: ShaderStage::fragment(),
            ty: BindingType::UniformBuffer {
                dynamic: false,
                min_binding_size: Some(DEFERRED_UNIFORMS_SIZE as u64),
            },
        },
    );
    assert(entries@ == layout_entries());
    let mut descs: Vec<BindGroupLayoutDescriptor> = Vec::new();
    descs.push(BindGroupLayoutDescriptor { label: "deferred bind group", entries });
    descs
}

/// The buffer that holds the lighting uniforms, as it is created: as large
/// as the uniforms, filled with the identity and no light.
pub fn uniform_buffer_descriptor() -> (desc: BufferInitDescriptor)
    ensures
        desc.contents@ == zero_padded(words_bytes(identity_words()), DEFERRED_UNIFORMS_SIZE as nat),
        desc.contents@.len() == DEFERRED_UNIFORMS_SIZE,
        desc.usage == (BufferUsage { uniform: true, copy_dst: true }),
{
    let initial = DeferredUniforms::identity();
    BufferInitDescriptor { contents: initial.to_bytes(), usage: BufferUsage::uniform_copy_dst() }
}

/// What the deferred pass owns on the device: its pipeline, its bind group
/// layout and the buffer of its uniforms.
///
/// `P`, `L` and `B` are the caller's handles to pipelines, bind group layouts
/// and buffers.
pub struct DeferredPipeline<P, L, B> {
    pipeline: P,
    bind_group_layouts: Vec<L>,
    uniform_buffer: B,
}

impl<P, L, B> DeferredPipeline<P, L, B> {
    /// There is one bind group layout.
    #[verifier::type_invariant]
    pub open spec fn wf(&self) -> bool {
        self.layouts().len() == 1
    }

    /// The pipeline to draw with.
    pub closed spec fn current_pipeline(&self) -> P {
        self.pipeline
    }

    /// The bind group layouts, one for each of `bind_group_layout_descriptors`.
    pub closed spec fn layouts(&self) -> Seq<L> {
        self.bind_group_layouts@
    }

    /// The buffer that holds the lighting uniforms.
    pub closed spec fn uniforms(&self) -> B {
        self.uniform_buffer
    }

    /// Takes over what was created for the pass: the pipeline, the layout
    /// made from `bind_group_layout_descriptors` and the buffer made from
    /// `uniform_buffer_descriptor`.
    pub fn new(pipeline: P, bind_group_layout: L, uniform_buffer: B) -> (deferred: Self)
        ensures
            deferred.wf(),
            deferred.current_pipeline() == pipeline,
            deferred.layouts() == seq![bind_group_layout],
            deferred.uniforms() == uniform_buffer,
    {
        let mut bind_group_layouts: Vec<L> = Vec::new();
        bind_group_layouts.push(bind_group_layout);
        DeferredPipeline { pipeline, bind_group_layouts, uniform_buffer }
    }

    /// Puts a pipeline built anew, as for another sample count, in place of
    /// the old one. The bind group layouts and the uniform buffer stay.
    pub fn rebuild(&mut self, pipeline: P)
        ensures
            final(self).current_pipeline() == pipeline,
            final(self).layouts() == old(self).layouts(),
            final(self).uniforms() == old(self).uniforms(),
    {
        proof {
            use_type_invariant(&*self);
        }
        self.pipeline = pipeline;
    }

    /// The pipeline to draw with.
    pub fn pipeline(&self) -> (pipeline: &P)
        ensures
            *pipeline == self.current_pipeline(),
    {
        &self.pipeline
    }

    /// The bind group layouts of the pass: one.
    pub fn bind_group_layouts(&self) -> (layouts: &[L])
        ensures
            layouts@ == self.layouts(),
            layouts@.len() == 1,
    {
        proof {
            use_type_invariant(self);
        }
        self.bind_group_layouts.as_slice()
    }

    /// The buffer that holds the lighting uniforms.
    pub fn uniform_buffer(&self) -> (buffer: &B)
        ensures
            *buffer == self.uniforms(),
    {
        &self.uniform_buffer
    }
}

/// What the bind group of the pass is made of: the sampler, the four buffers
/// of the earlier passes and the uniform buffer of `pipeline`, each at its
/// binding of `layout_entries`, under the layout of `pipeline`.
///
/// A bind group keeps the views it was made with; when one of them is
/// replaced, the group has to be made again.
pub fn bind_group_descriptor<'a, P, L, B, S, V>(
    pipeline: &'a DeferredPipeline<P, L, B>,
    sampler: &'a S,
    diffuse_buffer: &'a V,
    normal_buffer: &'a V,
    light_buffer: &'a V,
    depth_buffer: &'a V,
) -> (desc: BindGroupDescriptor<'a, L, S, V, B>)
    ensures
        desc.label@ == "deferred bind group"@,
        *desc.layout == pipeline.layouts()[0],
        desc.entries@.len() == 6,
        forall|i: int| 0 <= i < 6 ==> (#[trigger] desc.entries@[i]).binding == i,
        desc.entries@[0].resource matches BindingResource::Sampler(s) && s == sampler,
        desc.entries@[1].resource matches BindingResource::TextureView(v) && v == diffuse_buffer,
        desc.entries@[2].resource matches BindingResource::TextureView(v) && v == normal_buffer,
        desc.entries@[3].resource matches BindingResource::TextureView(v) && v == light_buffer,
        desc.entries@[4].resource matches BindingResource::TextureView(v) && v == depth_buffer,
        desc.entries@[5].resource matches BindingResource::Buffer(b) && *b == pipeline.uniforms(),
{
    let layouts = pipeline.bind_group_layouts();
    let mut entries: Vec<BindGroupEntry<'a, S, V, B>> = Vec::new();
    entries.push(BindGroupEntry { binding: 0, resource: BindingResource::Sampler(sampler) });
    entries.push(
        BindGroupEntry { binding: 1, resource: BindingResource::TextureView(diffuse_buffer) },
    );
    entries.push(
        BindGroupEntry { binding: 2, resource: BindingResource::TextureView(normal_buffer) },
    );
    entries.push(
        BindGroupEntry { binding: 3, resource: BindingResource::TextureView(light_buffer) },
    );
    entries.push(
        BindGroupEntry { binding: 4, resource: BindingResource::TextureView(depth_buffer) },
    );
    entries.push(
        BindGroupEntry { binding: 5, resource: BindingResource::Buffer(pipeline.uniform_buffer()) },
    );
    BindGroupDescriptor { label: "deferred bind group", layout: &layouts[0], entries }
}

/// Draws the lit image: holds the bind group of the pass.
///
/// `G` is the caller's handle to a bind group.
pub struct DeferredRenderer<G> {
    bind_group: G,
}

impl<G> DeferredRenderer<G> {
    /// The bind group that the pass draws with.
    pub closed spec fn group(&self) -> G {
        self.bind_group
    }

    /// A renderer over the bind group made from `bind_group_descriptor`.
    pub fn new(bind_group: G) -> (renderer: Self)
        ensures
            renderer.group() == bind_group,
    {
        DeferredRenderer { bind_group }
    }

    /// The transfer that replaces the uniforms on the device by `uniforms`:
    /// the whole buffer in one write.
    pub fn update_uniform_buffers<'a, P, L, B>(
        &self,
        pipeline: &'a DeferredPipeline<P, L, B>,
        uniforms: DeferredUniforms,
    ) -> (write: BufferWrite<'a, B>)
        ensures
            *write.buffer == pipeline.uniforms(),
            write.offset == 0,
            write.data@ == uniforms.bytes(),
            write.data@.len() == DEFERRED_UNIFORMS_SIZE,
    {
        BufferWrite { buffer: pipeline.uniform_buffer(), offset: 0, data: uniforms.to_bytes() }
    }

    /// What one frame of the pass does, in order: bring the uniforms up to
    /// date, bind the pipeline, the vertices of the full-screen quad and the
    /// bind group, and draw the two triangles of the quad once.
    ///
    /// The commands belong after the passes that fill the four buffers, and
    /// before whatever reads the lit image.
    pub fn record_draw<'a, P, L, B>(
        &'a self,
        pipeline: &'a DeferredPipeline<P, L, B>,
        quad_vertex_buffer: &'a B,
        uniforms: DeferredUniforms,
    ) -> (commands: Vec<RenderCommand<'a, P, B, G>>)
        ensures
            commands@.len() == 5,
            commands@[0] matches RenderCommand::WriteBuffer(write) && *write.buffer
                == pipeline.uniforms() && write.offset == 0 && write.data@ == uniforms.bytes(),
            commands@[1] matches RenderCommand::SetPipeline(p) && *p == pipeline.current_pipeline(),
            commands@[2] matches RenderCommand::SetVertexBuffer { slot, buffer } && slot == 0
                && buffer == quad_vertex_buffer,
            commands@[3] matches RenderCommand::SetBindGroup { index, bind_group, offsets } && index
                == 0 && *bind_group == self.group() && offsets@.len() == 0,
            commands@[4] matches RenderCommand::Draw {
                vertex_start,
                vertex_end,
                instance_start,
                instance_end,
            } && vertex_start == 0 && vertex_end == 6 && instance_start == 0 && instance_end == 1,
    {
        let mut commands: Vec<RenderCommand<'a, P, B, G>> = Vec::new();
        commands.push(RenderCommand::WriteBuffer(self.update_uniform_buffers(pipeline, uniforms)));
        commands.push(RenderCommand::SetPipeline(pipeline.pipeline()));
        commands.push(RenderCommand::SetVertexBuffer { slot: 0, buffer: quad_vertex_buffer });
        commands.push(
            RenderCommand::SetBindGroup {
                index: 0,
                bind_group: &self.bind_group,
                offsets: Vec::new(),
            },
        );
        commands.push(
            RenderCommand::Draw {
                vertex_start: 0,
                vertex_end: 6,
                instance_start: 0,
                instance_end: 1,
            },
        );
        commands
    }
}

} // verus!
