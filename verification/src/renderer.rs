//! The render-state model and the batch differ: batches are compared
//! field by field against the previously applied state, and only the
//! differing fields become GPU calls, followed by one indexed draw per
//! batch range.

use vstd::prelude::*;

verus! {

broadcast use vstd::array::group_array_axioms;

// OpenGL enumerant values, fixed by the API for every implementation.
pub const GL_ZERO: u32 = 0;
pub const GL_ONE: u32 = 1;
pub const GL_SRC_ALPHA: u32 = 0x0302;
pub const GL_ONE_MINUS_SRC_ALPHA: u32 = 0x0303;
pub const GL_DST_COLOR: u32 = 0x0306;
pub const GL_NEAREST: u32 = 0x2600;
pub const GL_LINEAR: u32 = 0x2601;
pub const GL_RGB: u32 = 0x1907;
pub const GL_RGBA: u32 = 0x1908;
pub const GL_RED: u32 = 0x1903;
pub const GL_RGBA16F: u32 = 0x881A;
pub const GL_RGBA32F: u32 = 0x8814;
pub const GL_TEXTURE0: u32 = 0x84C0;

/// One vertex attribute: how many channels it spans and how the GPU
/// reads them.
#[derive(Debug, Clone, Copy, PartialEq, Eq, Structural)]
pub enum GlowVertexAttrib {
    Float { channels: u8, normalized: bool },
    Integer { channels: u8 },
}

impl GlowVertexAttrib {
    /// The number of channels the attribute spans.
    pub fn channels(&self) -> (r: u8)
        ensures
            r == self.spec_channels(),
    {
        match self {
            Self::Float { channels, .. } => *channels,
            Self::Integer { channels } => *channels,
        }
    }

    /// The number of channels the attribute spans.
    pub open spec fn spec_channels(&self) -> u8 {
        match self {
            GlowVertexAttrib::Float { channels, .. } => *channels,
            GlowVertexAttrib::Integer { channels } => *channels,
        }
    }
}

/// A vertex type declares its attribute list out-of-band; the upload
/// step uses it to compute byte stride and per-attribute offsets.
pub trait GlowVertexAttribs {
    fn attribs() -> Vec<(&'static str, GlowVertexAttrib)>;
}

/// The byte offsets of the first `k` attributes: each attribute starts
/// where the previous one ended, four bytes per channel.
pub open spec fn spec_attrib_offset(attribs: Seq<GlowVertexAttrib>, k: int) -> int
    decreases k,
{
    if k <= 0 {
        0
    } else {
        spec_attrib_offset(attribs, k - 1) + attribs[k - 1].spec_channels() * 4
    }
}

/// The byte stride of a vertex together with the byte offset of each of
/// its attributes: the layout that the upload step hands to the GPU.
/// The stride is the total size, `r.0`; the offsets come in attribute
/// order.
pub fn vertex_layout(attribs: &[GlowVertexAttrib]) -> (r: (u32, Vec<u32>))
    requires
        attribs@.len() * 1020 <= u32::MAX,
    ensures
        r.0 == spec_attrib_offset(attribs@, attribs@.len() as int),
        r.1@.len() == attribs@.len(),
        forall|i: int| 0 <= i < attribs@.len() ==> r.1@[i] == spec_attrib_offset(attribs@, i),
    decreases attribs@.len(),
{
    let n = attribs.len();
    let mut offsets: Vec<u32> = Vec::new();
    let mut total: u32 = 0;
    let mut i: usize = 0;
    while i < n
        invariant
            i <= n,
            n == attribs@.len(),
            n * 1020 <= u32::MAX,
            offsets@.len() == i,
            total == spec_attrib_offset(attribs@, i as int),
            total <= i * 1020,
            forall|k: int| 0 <= k < i ==> offsets@[k] == spec_attrib_offset(attribs@, k),
        decreases n - i,
    {
        offsets.push(total);
        proof {
            assert((i + 1) * 1020 == i * 1020 + 1020) by (nonlinear_arith);
            assert(i * 1020 <= n * 1020) by (nonlinear_arith)
                requires
                    0 <= i < n,
            ;
        }
        total = total + (attribs[i].channels() as u32) * 4;
        i += 1;
    }
    (total, offsets)
}

/// Pixel blending: how a drawn fragment combines with what is already
/// in the target.
#[derive(Debug, Default, Clone, Copy, PartialEq, Eq, Structural)]
pub enum GlowBlending {
    #[default]
    Disabled,
    Alpha,
    Multiply,
    Additive,
}

impl GlowBlending {
    /// The GL source/destination blend factors, or `None` for no
    /// blending.
    pub fn into_gl(self) -> (r: Option<(u32, u32)>)
        ensures
            r == self.spec_into_gl(),
    {
        match self {
            Self::Disabled => None,
            Self::Alpha => Some((GL_SRC_ALPHA, GL_ONE_MINUS_SRC_ALPHA)),
            Self::Multiply => Some((GL_DST_COLOR, GL_ZERO)),
            Self::Additive => Some((GL_ONE, GL_ONE)),
        }
    }

    /// The GL source/destination blend factors, or `None` for no
    /// blending.
    pub open spec fn spec_into_gl(self) -> Option<(u32, u32)> {
        match self {
            GlowBlending::Disabled => None,
            GlowBlending::Alpha => Some((GL_SRC_ALPHA, GL_ONE_MINUS_SRC_ALPHA)),
            GlowBlending::Multiply => Some((GL_DST_COLOR, GL_ZERO)),
            GlowBlending::Additive => Some((GL_ONE, GL_ONE)),
        }
    }
}

/// How a sampled texture is filtered when scaled.
#[derive(Debug, Default, Clone, Copy, PartialEq, Eq, Structural)]
pub enum GlowTextureFiltering {
    #[default]
    Nearest,
    Linear,
}

impl GlowTextureFiltering {
    /// The GL minification and magnification filters.
    pub fn into_gl(self) -> (r: (i32, i32))
        ensures
            self == GlowTextureFiltering::Nearest ==> r == (
                GL_NEAREST as i32,
                GL_NEAREST as i32,
            ),
            self == GlowTextureFiltering::Linear ==> r == (GL_LINEAR as i32, GL_LINEAR as i32),
    {
        match self {
            Self::Nearest => (GL_NEAREST as i32, GL_NEAREST as i32),
            Self::Linear => (GL_LINEAR as i32, GL_LINEAR as i32),
        }
    }
}

/// The pixel layout of a texture's data.
#[derive(Debug, Default, Clone, Copy, PartialEq, Eq, Structural)]
pub enum GlowTextureFormat {
    #[default]
    Rgba,
    Rgb,
    Monochromatic,
    Data16,
    Data32,
}

impl GlowTextureFormat {
    /// The GL pixel-format enumerant.
    pub fn into_gl(self) -> (r: u32)
        ensures
            r == self.spec_into_gl(),
    {
        match self {
            Self::Rgba => GL_RGBA,
            Self::Rgb => GL_RGB,
            Self::Monochromatic => GL_RED,
            Self::Data16 => GL_RGBA16F,
            Self::Data32 => GL_RGBA32F,
        }
    }

    /// The GL pixel-format enumerant.
    pub open spec fn spec_into_gl(self) -> u32 {
        match self {
            GlowTextureFormat::Rgba => GL_RGBA,
            GlowTextureFormat::Rgb => GL_RGB,
            GlowTextureFormat::Monochromatic => GL_RED,
            GlowTextureFormat::Data16 => GL_RGBA16F,
            GlowTextureFormat::Data32 => GL_RGBA32F,
        }
    }
}

/// A uniform value as its GPU bit pattern: float data is carried as the
/// IEEE-754 bits of each component, so values compare by representation.
#[derive(Debug, Clone, Copy)]
pub enum GlowUniformValue {
    F1(u32),
    F2([u32; 2]),
    F3([u32; 3]),
    F4([u32; 4]),
    M2([u32; 4]),
    M3([u32; 9]),
    M4([u32; 16]),
    I1(i32),
    I2([i32; 2]),
    I3([i32; 3]),
    I4([i32; 4]),
}

/// Compares two fixed-size arrays of bit patterns element by element.
fn u32_array_eq<const N: usize>(a: &[u32; N], b: &[u32; N]) -> (r: bool)
    ensures
        r == (*a == *b),
{
    let mut i: usize = 0;
    while i < N
        invariant
            i <= N,
            forall|k: int| 0 <= k < i ==> a@[k] == b@[k],
        decreases N - i,
    {
        if a[i] != b[i] {
            return false;
        }
        i += 1;
    }
    proof {
        assert(*a =~= *b);
    }
    true
}

/// Compares two fixed-size arrays of integers element by element.
fn i32_array_eq<const N: usize>(a: &[i32; N], b: &[i32; N]) -> (r: bool)
    ensures
        r == (*a == *b),
{
    let mut i: usize = 0;
    while i < N
        invariant
            i <= N,
            forall|k: int| 0 <= k < i ==> a@[k] == b@[k],
        decreases N - i,
    {
        if a[i] != b[i] {
            return false;
        }
        i += 1;
    }
    proof {
        assert(*a =~= *b);
    }
    true
}

impl PartialEq for GlowUniformValue {
    /// Two uniform values are equal when they are the same variant with
    /// the same bit pattern.
    fn eq(&self, other: &Self) -> (r: bool) {
        match (self, other) {
            (Self::F1(a), Self::F1(b)) => a == b,
            (Self::F2(a), Self::F2(b)) => u32_array_eq(a, b),
            (Self::F3(a), Self::F3(b)) => u32_array_eq(a, b),
            (Self::F4(a), Self::F4(b)) => u32_array_eq(a, b),
            (Self::M2(a), Self::M2(b)) => u32_array_eq(a, b),
            (Self::M3(a), Self::M3(b)) => u32_array_eq(a, b),
            (Self::M4(a), Self::M4(b)) => u32_array_eq(a, b),
            (Self::I1(a), Self::I1(b)) => a == b,
            (Self::I2(a), Self::I2(b)) => i32_array_eq(a, b),
            (Self::I3(a), Self::I3(b)) => i32_array_eq(a, b),
            (Self::I4(a), Self::I4(b)) => i32_array_eq(a, b),
            _ => false,
        }
    }
}

impl vstd::std_specs::cmp::PartialEqSpecImpl for GlowUniformValue {
    open spec fn obeys_eq_spec() -> bool {
        true
    }

    open spec fn eq_spec(&self, other: &Self) -> bool {
        *self == *other
    }
}

/// A render-state descriptor paired with a triangle range by the
/// stream: program identity, uniform values, bound textures with their
/// filters, blending, scissor rectangle and wireframe flag.
///
/// Program and texture identities are the numeric handles the graphics
/// context assigned at creation. The uniforms behave as a map keyed by
/// name: equality ignores list order, and should a name repeat, its
/// first entry wins.
#[derive(Debug)]
pub struct GlowBatch {
    pub shader_program: Option<u32>,
    pub uniforms: Vec<(String, GlowUniformValue)>,
    /// `(texture object, texture target, min filter, mag filter)`
    pub textures: Vec<(u32, u32, i32, i32)>,
    /// `(source factor, destination factor)`, or no blending
    pub blending: Option<(u32, u32)>,
    /// `(x, y, width, height)`
    pub scissor: Option<(i32, i32, i32, i32)>,
    pub wireframe: bool,
}

/// The resolved render state of a batch, with the uniform names as
/// character sequences: what the differ compares batches by.
pub struct GlowBatchState {
    pub program: Option<u32>,
    pub uniforms: Seq<(Seq<char>, GlowUniformValue)>,
    pub textures: Seq<(u32, u32, i32, i32)>,
    pub blending: Option<(u32, u32)>,
    pub scissor: Option<(i32, i32, i32, i32)>,
    pub wireframe: bool,
}

/// The state every frame starts from: nothing bound, nothing enabled.
pub open spec fn spec_initial_state() -> GlowBatchState {
    GlowBatchState {
        program: None,
        uniforms: Seq::empty(),
        textures: Seq::empty(),
        blending: None,
        scissor: None,
        wireframe: false,
    }
}

impl GlowBatch {
    /// The resolved render state this batch asks for.
    pub open spec fn spec_state(&self) -> GlowBatchState {
        GlowBatchState {
            program: self.shader_program,
            uniforms: self.uniforms@.map_values(|p: (String, GlowUniformValue)| (p.0@, p.1)),
            textures: self.textures@,
            blending: self.blending,
            scissor: self.scissor,
            wireframe: self.wireframe,
        }
    }
}

impl Default for GlowBatch {
    /// A batch asking for the initial state: nothing bound, nothing
    /// enabled.
    fn default() -> (r: Self)
        ensures
            r.spec_state() == spec_initial_state(),
    {
        let r = GlowBatch {
            shader_program: None,
            uniforms: Vec::new(),
            textures: Vec::new(),
            blending: None,
            scissor: None,
            wireframe: false,
        };
        proof {
            assert(r.spec_state().uniforms =~= spec_initial_state().uniforms);
        }
        r
    }
}

/// Compares two optional pairs of blend factors.
fn opt_u32_pair_eq(a: &Option<(u32, u32)>, b: &Option<(u32, u32)>) -> (r: bool)
    ensures
        r == (*a == *b),
{
    match (a, b) {
        (None, None) => true,
        (Some(x), Some(y)) => x.0 == y.0 && x.1 == y.1,
        _ => false,
    }
}

/// Compares two optional scissor rectangles.
fn opt_scissor_eq(a: &Option<(i32, i32, i32, i32)>, b: &Option<(i32, i32, i32, i32)>) -> (r: bool)
    ensures
        r == (*a == *b),
{
    match (a, b) {
        (None, None) => true,
        (Some(x), Some(y)) => x.0 == y.0 && x.1 == y.1 && x.2 == y.2 && x.3 == y.3,
        _ => false,
    }
}

/// Compares two optional program handles.
fn opt_u32_eq(a: &Option<u32>, b: &Option<u32>) -> (r: bool)
    ensures
        r == (*a == *b),
{
    match (a, b) {
        (None, None) => true,
        (Some(x), Some(y)) => x == y,
        _ => false,
    }
}

impl PartialEq for GlowBatch {
    /// Two batches are equal when every field of their resolved states
    /// matches: same program, same uniform values name for name (as a
    /// map — list order does not matter, and for a repeated name the
    /// first entry wins), same textures, blending, scissor and
    /// wireframe flag.
    fn eq(&self, other: &Self) -> (r: bool) {
        if !opt_u32_eq(&self.shader_program, &other.shader_program) {
            return false;
        }
        if !uniforms_equivalent(&self.uniforms, &other.uniforms) {
            return false;
        }
        if self.textures.len() != other.textures.len() {
            return false;
        }
        let m = self.textures.len();
        let mut j: usize = 0;
        while j < m
            invariant
                j <= m,
                m == self.textures@.len(),
                m == other.textures@.len(),
                forall|k: int| 0 <= k < j ==> self.textures@[k] == other.textures@[k],
            decreases m - j,
        {
            let a = &self.textures[j];
            let b = &other.textures[j];
            if !(a.0 == b.0 && a.1 == b.1 && a.2 == b.2 && a.3 == b.3) {
                return false;
            }
            j += 1;
        }
        proof {
            assert(self.textures@ =~= other.textures@);
        }
        opt_u32_pair_eq(&self.blending, &other.blending) && opt_scissor_eq(
            &self.scissor,
            &other.scissor,
        ) && self.wireframe == other.wireframe
    }
}

impl vstd::std_specs::cmp::PartialEqSpecImpl for GlowBatch {
    open spec fn obeys_eq_spec() -> bool {
        true
    }

    open spec fn eq_spec(&self, other: &Self) -> bool {
        &&& self.shader_program == other.shader_program
        &&& spec_uniforms_equivalent(self.spec_state().uniforms, other.spec_state().uniforms)
        &&& self.textures@ == other.textures@
        &&& self.blending == other.blending
        &&& self.scissor == other.scissor
        &&& self.wireframe == other.wireframe
    }
}

/// One GPU call of the submission step: a state change or an indexed
/// draw. An executor plays a command list against a graphics context in
/// order.
#[derive(Debug, Clone, PartialEq)]
pub enum GlowCommand {
    /// Bind a shader program.
    UseProgram(u32),
    /// Upload a uniform value for the bound program.
    SetUniform { name: String, value: GlowUniformValue },
    /// Select a texture unit.
    ActiveTexture { unit: u32 },
    /// Bind a texture with its filters on the selected unit.
    BindTexture { target: u32, handle: u32, min_filter: i32, mag_filter: i32 },
    /// Enable blending with the given factors, or disable it.
    Blending(Option<(u32, u32)>),
    /// Enable the scissor test over the given rectangle, or disable it.
    Scissor(Option<(i32, i32, i32, i32)>),
    /// Switch between wireframe and filled polygons.
    Wireframe(bool),
    /// Draw `count` triangles starting at triangle index `start` of the
    /// uploaded buffer.
    DrawTriangles { start: usize, count: usize },
}

/// The value of the first uniform named `name`, or `None` when the list
/// has no such name.
pub open spec fn spec_uniform_lookup(
    uniforms: Seq<(Seq<char>, GlowUniformValue)>,
    name: Seq<char>,
) -> Option<GlowUniformValue>
    decreases uniforms.len(),
{
    if uniforms.len() == 0 {
        None
    } else if uniforms[0].0 == name {
        Some(uniforms[0].1)
    } else {
        spec_uniform_lookup(uniforms.drop_first(), name)
    }
}

/// The uniform-upload commands for the first `k` uniforms of a batch:
/// one per uniform whose value is not already in effect. With
/// `refresh_all` (a freshly bound program) every uniform is uploaded.
pub open spec fn spec_uniform_commands(
    uniforms: Seq<(String, GlowUniformValue)>,
    prev: Seq<(Seq<char>, GlowUniformValue)>,
    refresh_all: bool,
    k: int,
) -> Seq<GlowCommand>
    decreases k,
{
    if k <= 0 {
        Seq::empty()
    } else {
        let rest = spec_uniform_commands(uniforms, prev, refresh_all, k - 1);
        let entry = uniforms[k - 1];
        if refresh_all || spec_uniform_lookup(prev, entry.0@) != Some(entry.1) {
            rest.push(GlowCommand::SetUniform { name: entry.0, value: entry.1 })
        } else {
            rest
        }
    }
}

/// The texture commands for the first `k` texture slots of a batch: the
/// unit is always selected, and the texture is bound only when the slot
/// held something else before.
pub open spec fn spec_texture_commands(
    textures: Seq<(u32, u32, i32, i32)>,
    prev: Seq<(u32, u32, i32, i32)>,
    k: int,
) -> Seq<GlowCommand>
    decreases k,
{
    if k <= 0 {
        Seq::empty()
    } else {
        let rest = spec_texture_commands(textures, prev, k - 1);
        let entry = textures[k - 1];
        let selected = rest.push(
            GlowCommand::ActiveTexture { unit: (GL_TEXTURE0 + k - 1) as u32 },
        );
        if 0 <= k - 1 < prev.len() && prev[k - 1] == entry {
            selected
        } else {
            selected.push(
                GlowCommand::BindTexture {
                    target: entry.1,
                    handle: entry.0,
                    min_filter: entry.2,
                    mag_filter: entry.3,
                },
            )
        }
    }
}

/// The program and uniform commands of a batch diffed against `prev`:
/// the program is bound only when it changes, and uniforms are uploaded
/// only under a bound program.
pub open spec fn spec_program_commands(current: GlowBatch, prev: GlowBatchState) -> Seq<
    GlowCommand,
> {
    match current.shader_program {
        Some(program) => {
            let bind: Seq<GlowCommand> = if prev.program == Some(program) {
                Seq::empty()
            } else {
                seq![GlowCommand::UseProgram(program)]
            };
            bind + spec_uniform_commands(
                current.uniforms@,
                prev.uniforms,
                prev.program != Some(program),
                current.uniforms@.len() as int,
            )
        },
        None => Seq::empty(),
    }
}

/// Every GPU call a batch issues when drawn after `prev`: state changes
/// only for the fields that differ, then one indexed draw over the
/// batch's triangle range.
pub open spec fn spec_batch_commands(
    current: GlowBatch,
    prev: GlowBatchState,
    start: usize,
    end: usize,
) -> Seq<GlowCommand> {
    let blend: Seq<GlowCommand> = if current.blending == prev.blending {
        Seq::empty()
    } else {
        seq![GlowCommand::Blending(current.blending)]
    };
    let scissor: Seq<GlowCommand> = if current.scissor == prev.scissor {
        Seq::empty()
    } else {
        seq![GlowCommand::Scissor(current.scissor)]
    };
    let wire: Seq<GlowCommand> = if current.wireframe == prev.wireframe {
        Seq::empty()
    } else {
        seq![GlowCommand::Wireframe(current.wireframe)]
    };
    spec_program_commands(current, prev) + spec_texture_commands(
        current.textures@,
        prev.textures,
        current.textures@.len() as int,
    ) + blend + scissor + wire + seq![
        GlowCommand::DrawTriangles { start, count: (end - start) as usize },
    ]
}

/// The value of the first uniform named `name` in `uniforms`, or `None`
/// when absent.
fn lookup_uniform(uniforms: &Vec<(String, GlowUniformValue)>, name: &String) -> (r: Option<
    GlowUniformValue,
>)
    ensures
        r == spec_uniform_lookup(
            uniforms@.map_values(|p: (String, GlowUniformValue)| (p.0@, p.1)),
            name@,
        ),
{
    let ghost mapped = uniforms@.map_values(|p: (String, GlowUniformValue)| (p.0@, p.1));
    let n = uniforms.len();
    let mut i: usize = 0;
    while i < n
        invariant
            i <= n,
            n == uniforms@.len(),
            mapped == uniforms@.map_values(|p: (String, GlowUniformValue)| (p.0@, p.1)),
            forall|j: int| 0 <= j < i ==> #[trigger] mapped[j].0 != name@,
        decreases n - i,
    {
        let entry = &uniforms[i];
        let hit = entry.0 == *name;
        proof {
            assert(mapped[i as int] == (entry.0@, entry.1));
        }
        if hit {
            proof {
                lemma_uniform_lookup_first(mapped, name@, i as int);
            }
            return Some(entry.1);
        }
        i += 1;
    }
    proof {
        lemma_uniform_lookup_absent(mapped, name@);
    }
    None
}

/// `spec_uniform_lookup` finds exactly the first matching name.
proof fn lemma_uniform_lookup_first(
    uniforms: Seq<(Seq<char>, GlowUniformValue)>,
    name: Seq<char>,
    i: int,
)
    requires
        0 <= i < uniforms.len(),
        uniforms[i].0 == name,
        forall|j: int| 0 <= j < i ==> #[trigger] uniforms[j].0 != name,
    ensures
        spec_uniform_lookup(uniforms, name) == Some(uniforms[i].1),
    decreases i,
{
    if i > 0 {
        lemma_uniform_lookup_first(uniforms.drop_first(), name, i - 1);
    }
}

/// `spec_uniform_lookup` finds nothing when no name matches.
proof fn lemma_uniform_lookup_absent(uniforms: Seq<(Seq<char>, GlowUniformValue)>, name: Seq<char>)
    requires
        forall|j: int| 0 <= j < uniforms.len() ==> #[trigger] uniforms[j].0 != name,
    ensures
        spec_uniform_lookup(uniforms, name) is None,
    decreases uniforms.len(),
{
    if uniforms.len() > 0 {
        lemma_uniform_lookup_absent(uniforms.drop_first(), name);
    }
}

/// The lookup result names exactly what the list holds.
proof fn lemma_uniform_lookup_covers(uniforms: Seq<(Seq<char>, GlowUniformValue)>, name: Seq<char>)
    ensures
        match spec_uniform_lookup(uniforms, name) {
            Some(value) => exists|i: int|
                0 <= i < uniforms.len() && (#[trigger] uniforms[i]).0 == name && uniforms[i].1
                    == value,
            None => forall|i: int| 0 <= i < uniforms.len() ==> (#[trigger] uniforms[i]).0 != name,
        },
    decreases uniforms.len(),
{
    if uniforms.len() > 0 && uniforms[0].0 != name {
        lemma_uniform_lookup_covers(uniforms.drop_first(), name);
        match spec_uniform_lookup(uniforms.drop_first(), name) {
            Some(value) => {
                let rest = uniforms.drop_first();
                let i = choose|i: int|
                    0 <= i < rest.len() && (#[trigger] rest[i]).0 == name && rest[i].1 == value;
                assert(uniforms[i + 1] == rest[i]);
            },
            None => {
                assert forall|i: int| 0 <= i < uniforms.len() implies (#[trigger] uniforms[i]).0
                    != name by {
                    if i > 0 {
                        assert(uniforms.drop_first()[i - 1] == uniforms[i]);
                    }
                }
            },
        }
    }
}

/// Whether two uniform lists hold the same map: every name resolves to
/// the same value in both (for a repeated name the first entry wins).
pub open spec fn spec_uniforms_equivalent(
    a: Seq<(Seq<char>, GlowUniformValue)>,
    b: Seq<(Seq<char>, GlowUniformValue)>,
) -> bool {
    forall|name: Seq<char>|
        #[trigger] spec_uniform_lookup(a, name) == spec_uniform_lookup(b, name)
}

/// Compares two optional uniform values.
fn opt_uniform_eq(a: &Option<GlowUniformValue>, b: &Option<GlowUniformValue>) -> (r: bool)
    ensures
        r == (*a == *b),
{
    match (a, b) {
        (None, None) => true,
        (Some(x), Some(y)) => x == y,
        _ => false,
    }
}

/// Whether two uniform lists resolve every name to the same value.
fn uniforms_equivalent(
    a: &Vec<(String, GlowUniformValue)>,
    b: &Vec<(String, GlowUniformValue)>,
) -> (r: bool)
    ensures
        r == spec_uniforms_equivalent(
            a@.map_values(|p: (String, GlowUniformValue)| (p.0@, p.1)),
            b@.map_values(|p: (String, GlowUniformValue)| (p.0@, p.1)),
        ),
{
    let ghost ma = a@.map_values(|p: (String, GlowUniformValue)| (p.0@, p.1));
    let ghost mb = b@.map_values(|p: (String, GlowUniformValue)| (p.0@, p.1));
    let n = a.len();
    let mut i: usize = 0;
    while i < n
        invariant
            i <= n,
            n == a@.len(),
            ma == a@.map_values(|p: (String, GlowUniformValue)| (p.0@, p.1)),
            mb == b@.map_values(|p: (String, GlowUniformValue)| (p.0@, p.1)),
            forall|k: int|
                0 <= k < i ==> spec_uniform_lookup(ma, (#[trigger] ma[k]).0)
                    == spec_uniform_lookup(mb, ma[k].0),
        decreases n - i,
    {
        let name = &a[i].0;
        let in_a = lookup_uniform(a, name);
        let in_b = lookup_uniform(b, name);
        proof {
            assert(ma[i as int] == (a@[i as int].0@, a@[i as int].1));
        }
        if !opt_uniform_eq(&in_a, &in_b) {
            return false;
        }
        i += 1;
    }
    let m = b.len();
    let mut j: usize = 0;
    while j < m
        invariant
            j <= m,
            m == b@.len(),
            ma == a@.map_values(|p: (String, GlowUniformValue)| (p.0@, p.1)),
            mb == b@.map_values(|p: (String, GlowUniformValue)| (p.0@, p.1)),
            forall|k: int|
                0 <= k < ma.len() ==> spec_uniform_lookup(ma, (#[trigger] ma[k]).0)
                    == spec_uniform_lookup(mb, ma[k].0),
            forall|k: int|
                0 <= k < j ==> spec_uniform_lookup(ma, (#[trigger] mb[k]).0)
                    == spec_uniform_lookup(mb, mb[k].0),
        decreases m - j,
    {
        let name = &b[j].0;
        let in_a = lookup_uniform(a, name);
        let in_b = lookup_uniform(b, name);
        proof {
            assert(mb[j as int] == (b@[j as int].0@, b@[j as int].1));
        }
        if !opt_uniform_eq(&in_a, &in_b) {
            return false;
        }
        j += 1;
    }
    proof {
        assert forall|name: Seq<char>|
            #[trigger] spec_uniform_lookup(ma, name) == spec_uniform_lookup(mb, name) by {
            lemma_uniform_lookup_covers(ma, name);
            lemma_uniform_lookup_covers(mb, name);
            match spec_uniform_lookup(ma, name) {
                Some(value) => {
                    let i = choose|i: int|
                        0 <= i < ma.len() && (#[trigger] ma[i]).0 == name && ma[i].1 == value;
                    assert(spec_uniform_lookup(ma, ma[i].0) == spec_uniform_lookup(mb, ma[i].0));
                },
                None => {
                    match spec_uniform_lookup(mb, name) {
                        Some(value) => {
                            let i = choose|i: int|
                                0 <= i < mb.len() && (#[trigger] mb[i]).0 == name && mb[i].1
                                    == value;
                            assert(spec_uniform_lookup(ma, mb[i].0) == spec_uniform_lookup(
                                mb,
                                mb[i].0,
                            ));
                        },
                        None => {},
                    }
                },
            }
        }
    }
    true
}

impl GlowBatch {
    /// The GPU calls that drawing this batch after `prev` issues: only
    /// the state fields that differ from `prev` are changed, then the
    /// batch's triangle range is drawn.
    pub fn draw_commands(&self, range: core::ops::Range<usize>, prev: &GlowBatch) -> (r: Vec<
        GlowCommand,
    >)
        requires
            range.start <= range.end,
            self.textures@.len() + GL_TEXTURE0 <= u32::MAX,
        ensures
            r@ == spec_batch_commands(*self, prev.spec_state(), range.start, range.end),
    {
        let mut commands: Vec<GlowCommand> = Vec::new();
        if let Some(program) = self.shader_program {
            let refresh_all = match prev.shader_program {
                Some(previous_program) => previous_program != program,
                None => true,
            };
            if refresh_all {
                commands.push(GlowCommand::UseProgram(program));
            }
            let ghost bind_part = commands@;
            let n = self.uniforms.len();
            let mut i: usize = 0;
            while i < n
                invariant
                    i <= n,
                    n == self.uniforms@.len(),
                    self.shader_program == Some(program),
                    refresh_all == (prev.spec_state().program != Some(program)),
                    bind_part == (if refresh_all {
                        seq![GlowCommand::UseProgram(program)]
                    } else {
                        Seq::<GlowCommand>::empty()
                    }),
                    commands@ == bind_part + spec_uniform_commands(
                        self.uniforms@,
                        prev.spec_state().uniforms,
                        refresh_all,
                        i as int,
                    ),
                decreases n - i,
            {
                let entry = &self.uniforms[i];
                let send = if refresh_all {
                    true
                } else {
                    match lookup_uniform(&prev.uniforms, &entry.0) {
                        Some(value) => !(value == entry.1),
                        None => true,
                    }
                };
                if send {
                    commands.push(
                        GlowCommand::SetUniform { name: entry.0.clone(), value: entry.1 },
                    );
                }
                i += 1;
                proof {
                    assert(commands@ =~= bind_part + spec_uniform_commands(
                        self.uniforms@,
                        prev.spec_state().uniforms,
                        refresh_all,
                        i as int,
                    ));
                }
            }
            proof {
                assert(commands@ =~= spec_program_commands(*self, prev.spec_state()));
            }
        } else {
            proof {
                assert(commands@ =~= spec_program_commands(*self, prev.spec_state()));
            }
        }
        let ghost program_part = commands@;
        let m = self.textures.len();
        let mut j: usize = 0;
        while j < m
            invariant
                j <= m,
                m == self.textures@.len(),
                m + GL_TEXTURE0 <= u32::MAX,
                program_part == spec_program_commands(*self, prev.spec_state()),
                commands@ == program_part + spec_texture_commands(
                    self.textures@,
                    prev.spec_state().textures,
                    j as int,
                ),
            decreases m - j,
        {
            let entry = &self.textures[j];
            commands.push(GlowCommand::ActiveTexture { unit: GL_TEXTURE0 + j as u32 });
            let same = if j < prev.textures.len() {
                let p = &prev.textures[j];
                p.0 == entry.0 && p.1 == entry.1 && p.2 == entry.2 && p.3 == entry.3
            } else {
                false
            };
            if !same {
                commands.push(
                    GlowCommand::BindTexture {
                        target: entry.1,
                        handle: entry.0,
                        min_filter: entry.2,
                        mag_filter: entry.3,
                    },
                );
            }
            j += 1;
            proof {
                assert(commands@ =~= program_part + spec_texture_commands(
                    self.textures@,
                    prev.spec_state().textures,
                    j as int,
                ));
            }
        }
        if !opt_u32_pair_eq(&self.blending, &prev.blending) {
            commands.push(GlowCommand::Blending(self.blending));
        }
        if !opt_scissor_eq(&self.scissor, &prev.scissor) {
            commands.push(GlowCommand::Scissor(self.scissor));
        }
        if self.wireframe != prev.wireframe {
            commands.push(GlowCommand::Wireframe(self.wireframe));
        }
        commands.push(GlowCommand::DrawTriangles { start: range.start, count: range.end - range.start });
        proof {
            assert(commands@ =~= spec_batch_commands(
                *self,
                prev.spec_state(),
                range.start,
                range.end,
            ));
        }
        commands
    }
}

/// The GPU calls of a whole submission over the first `k` batches:
/// each batch is diffed against the one before it, the first against
/// the initial state.
pub open spec fn spec_submit_commands(
    batches: Seq<(GlowBatch, core::ops::Range<usize>)>,
    k: int,
) -> Seq<GlowCommand>
    decreases k,
{
    if k <= 0 {
        Seq::empty()
    } else {
        let prev = if k == 1 {
            spec_initial_state()
        } else {
            batches[k - 2].0.spec_state()
        };
        spec_submit_commands(batches, k - 1) + spec_batch_commands(
            batches[k - 1].0,
            prev,
            batches[k - 1].1.start,
            batches[k - 1].1.end,
        )
    }
}

/// Converts a finalized batch list into the minimal call sequence: one
/// upload of the vertex and triangle buffers is assumed done; each
/// batch then contributes only the state changes it needs, diffed
/// against the previous batch (the first against the initial state),
/// and one indexed draw over its range.
pub fn submit_commands(batches: &[(GlowBatch, core::ops::Range<usize>)]) -> (r: Vec<GlowCommand>)
    requires
        forall|i: int|
            0 <= i < batches@.len() ==> (#[trigger] batches@[i].1).start <= batches@[i].1.end,
        forall|i: int|
            0 <= i < batches@.len() ==> (#[trigger] batches@[i].0).textures@.len() + GL_TEXTURE0
                <= u32::MAX,
    ensures
        r@ == spec_submit_commands(batches@, batches@.len() as int),
{
    let mut result: Vec<GlowCommand> = Vec::new();
    let initial = GlowBatch::default();
    let n = batches.len();
    let mut i: usize = 0;
    while i < n
        invariant
            i <= n,
            n == batches@.len(),
            initial.spec_state() == spec_initial_state(),
            forall|k: int|
                0 <= k < batches@.len() ==> (#[trigger] batches@[k].1).start <= batches@[k].1.end,
            forall|k: int|
                0 <= k < batches@.len() ==> (#[trigger] batches@[k].0).textures@.len()
                    + GL_TEXTURE0 <= u32::MAX,
            result@ == spec_submit_commands(batches@, i as int),
        decreases n - i,
    {
        let entry = &batches[i];
        let start = entry.1.start;
        let end = entry.1.end;
        let prev = if i == 0 {
            &initial
        } else {
            &batches[i - 1].0
        };
        let mut commands = entry.0.draw_commands(start..end, prev);
        result.append(&mut commands);
        i += 1;
        proof {
            assert(result@ =~= spec_submit_commands(batches@, i as int));
        }
    }
    result
}

/// How many program-bind calls a command list holds.
pub open spec fn count_use_program(commands: Seq<GlowCommand>) -> int
    decreases commands.len(),
{
    if commands.len() == 0 {
        0
    } else {
        count_use_program(commands.drop_last()) + if commands.last() is UseProgram {
            1int
        } else {
            0int
        }
    }
}

/// How many blend-mode calls a command list holds.
pub open spec fn count_blending(commands: Seq<GlowCommand>) -> int
    decreases commands.len(),
{
    if commands.len() == 0 {
        0
    } else {
        count_blending(commands.drop_last()) + if commands.last() is Blending {
            1int
        } else {
            0int
        }
    }
}

/// Both counters distribute over concatenation.
pub proof fn lemma_counts_concat(left: Seq<GlowCommand>, right: Seq<GlowCommand>)
    ensures
        count_use_program(left + right) == count_use_program(left) + count_use_program(right),
        count_blending(left + right) == count_blending(left) + count_blending(right),
    decreases right.len(),
{
    if right.len() == 0 {
        assert(left + right =~= left);
    } else {
        lemma_counts_concat(left, right.drop_last());
        assert((left + right).drop_last() =~= left + right.drop_last());
        assert((left + right).last() == right.last());
    }
}

/// Uniform uploads are neither program binds nor blend changes.
proof fn lemma_uniform_commands_counts(
    uniforms: Seq<(String, GlowUniformValue)>,
    prev: Seq<(Seq<char>, GlowUniformValue)>,
    refresh_all: bool,
    k: int,
)
    ensures
        count_use_program(spec_uniform_commands(uniforms, prev, refresh_all, k)) == 0,
        count_blending(spec_uniform_commands(uniforms, prev, refresh_all, k)) == 0,
    decreases k,
{
    if k > 0 {
        lemma_uniform_commands_counts(uniforms, prev, refresh_all, k - 1);
        let rest = spec_uniform_commands(uniforms, prev, refresh_all, k - 1);
        let entry = uniforms[k - 1];
        if refresh_all || spec_uniform_lookup(prev, entry.0@) != Some(entry.1) {
            let cmd = GlowCommand::SetUniform { name: entry.0, value: entry.1 };
            assert(rest.push(cmd).drop_last() =~= rest);
        }
    }
}

/// Texture selection and binding are neither program binds nor blend
/// changes.
proof fn lemma_texture_commands_counts(
    textures: Seq<(u32, u32, i32, i32)>,
    prev: Seq<(u32, u32, i32, i32)>,
    k: int,
)
    ensures
        count_use_program(spec_texture_commands(textures, prev, k)) == 0,
        count_blending(spec_texture_commands(textures, prev, k)) == 0,
    decreases k,
{
    if k > 0 {
        lemma_texture_commands_counts(textures, prev, k - 1);
        let rest = spec_texture_commands(textures, prev, k - 1);
        let entry = textures[k - 1];
        let selected = rest.push(GlowCommand::ActiveTexture { unit: (GL_TEXTURE0 + k - 1) as u32 });
        assert(selected.drop_last() =~= rest);
        assert(count_use_program(selected) == 0);
        assert(count_blending(selected) == 0);
        if 0 <= k - 1 < prev.len() && prev[k - 1] == entry {
            assert(spec_texture_commands(textures, prev, k) == selected);
        } else {
            let bound = selected.push(
                GlowCommand::BindTexture {
                    target: entry.1,
                    handle: entry.0,
                    min_filter: entry.2,
                    mag_filter: entry.3,
                },
            );
            assert(bound.drop_last() =~= selected);
            assert(spec_texture_commands(textures, prev, k) == bound);
            assert(count_use_program(bound) == 0);
            assert(count_blending(bound) == 0);
        }
    }
}

/// Exactly how many program binds and blend changes one batch issues:
/// a bind only when the program differs from the state before, a blend
/// change only when the blending differs.
pub proof fn lemma_batch_command_counts(
    current: GlowBatch,
    prev: GlowBatchState,
    start: usize,
    end: usize,
)
    ensures
        count_use_program(spec_batch_commands(current, prev, start, end)) == (
        if current.shader_program is Some && prev.program != current.shader_program {
            1int
        } else {
            0int
        }),
        count_blending(spec_batch_commands(current, prev, start, end)) == (
        if current.blending != prev.blending {
            1int
        } else {
            0int
        }),
{
    let program_part = spec_program_commands(current, prev);
    let texture_part = spec_texture_commands(
        current.textures@,
        prev.textures,
        current.textures@.len() as int,
    );
    let blend: Seq<GlowCommand> = if current.blending == prev.blending {
        Seq::empty()
    } else {
        seq![GlowCommand::Blending(current.blending)]
    };
    let scissor: Seq<GlowCommand> = if current.scissor == prev.scissor {
        Seq::empty()
    } else {
        seq![GlowCommand::Scissor(current.scissor)]
    };
    let wire: Seq<GlowCommand> = if current.wireframe == prev.wireframe {
        Seq::empty()
    } else {
        seq![GlowCommand::Wireframe(current.wireframe)]
    };
    let draw = seq![GlowCommand::DrawTriangles { start, count: (end - start) as usize }];
    assert(count_use_program(Seq::<GlowCommand>::empty()) == 0);
    assert(count_blending(Seq::<GlowCommand>::empty()) == 0);
    assert(spec_batch_commands(current, prev, start, end) == program_part + texture_part + blend
        + scissor + wire + draw);
    match current.shader_program {
        Some(program) => {
            let bind: Seq<GlowCommand> = if prev.program == Some(program) {
                Seq::empty()
            } else {
                seq![GlowCommand::UseProgram(program)]
            };
            let uniform_part = spec_uniform_commands(
                current.uniforms@,
                prev.uniforms,
                prev.program != Some(program),
                current.uniforms@.len() as int,
            );
            lemma_uniform_commands_counts(
                current.uniforms@,
                prev.uniforms,
                prev.program != Some(program),
                current.uniforms@.len() as int,
            );
            lemma_counts_concat(bind, uniform_part);
            if prev.program == Some(program) {
                assert(bind =~= Seq::<GlowCommand>::empty());
            } else {
                assert(bind.drop_last() =~= Seq::<GlowCommand>::empty());
                assert(count_use_program(bind) == 1);
            }
            assert(program_part == bind + uniform_part);
            assert(count_use_program(program_part) == (if prev.program == Some(program) {
                0int
            } else {
                1int
            }));
            assert(count_blending(program_part) == 0);
        },
        None => {
            assert(program_part =~= Seq::<GlowCommand>::empty());
            assert(count_use_program(program_part) == 0);
            assert(count_blending(program_part) == 0);
        },
    }
    lemma_texture_commands_counts(
        current.textures@,
        prev.textures,
        current.textures@.len() as int,
    );
    if current.blending != prev.blending {
        assert(blend.drop_last() =~= Seq::<GlowCommand>::empty());
        assert(count_blending(blend) == 1);
        assert(count_use_program(blend) == 0);
    }
    if current.scissor != prev.scissor {
        assert(scissor.drop_last() =~= Seq::<GlowCommand>::empty());
        assert(count_blending(scissor) == 0);
        assert(count_use_program(scissor) == 0);
    }
    if current.wireframe != prev.wireframe {
        assert(wire.drop_last() =~= Seq::<GlowCommand>::empty());
        assert(count_blending(wire) == 0);
        assert(count_use_program(wire) == 0);
    }
    assert(draw.drop_last() =~= Seq::<GlowCommand>::empty());
    assert(count_blending(draw) == 0);
    assert(count_use_program(draw) == 0);
    lemma_counts_concat(program_part, texture_part);
    lemma_counts_concat(program_part + texture_part, blend);
    lemma_counts_concat(program_part + texture_part + blend, scissor);
    lemma_counts_concat(program_part + texture_part + blend + scissor, wire);
    lemma_counts_concat(program_part + texture_part + blend + scissor + wire, draw);
}

/// Two consecutive batches that share one shader program but differ in
/// blending produce exactly one program-bind call for the whole
/// submission, and exactly two blend-mode calls (the first batch also
/// differs from the initial state, which has no blending).
pub proof fn lemma_shared_shader_binds_once(
    first: (GlowBatch, core::ops::Range<usize>),
    second: (GlowBatch, core::ops::Range<usize>),
)
    requires
        first.0.shader_program is Some,
        second.0.shader_program == first.0.shader_program,
        first.0.blending is Some,
        second.0.blending != first.0.blending,
    ensures
        count_use_program(spec_submit_commands(seq![first, second], 2)) == 1,
        count_blending(spec_submit_commands(seq![first, second], 2)) == 2,
{
    let batches = seq![first, second];
    assert(batches[0] == first);
    assert(batches[1] == second);
    let cmds1 = spec_batch_commands(first.0, spec_initial_state(), first.1.start, first.1.end);
    let cmds2 = spec_batch_commands(second.0, first.0.spec_state(), second.1.start, second.1.end);
    assert(spec_submit_commands(batches, 1) == spec_submit_commands(batches, 0) + cmds1);
    assert(spec_submit_commands(batches, 0) + cmds1 =~= cmds1);
    assert(spec_submit_commands(batches, 2) == spec_submit_commands(batches, 1) + cmds2);
    lemma_batch_command_counts(first.0, spec_initial_state(), first.1.start, first.1.end);
    lemma_batch_command_counts(second.0, first.0.spec_state(), second.1.start, second.1.end);
    lemma_counts_concat(spec_submit_commands(batches, 1), cmds2);
    assert(count_use_program(spec_submit_commands(batches, 1)) == 1);
    assert(second.0.spec_state().program == second.0.shader_program);
}

} // verus!
