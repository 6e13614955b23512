//! Plain data records and enums of the GPU rendering layer: resource
//! handles, state descriptions and pass descriptors.  The native renderer
//! consumes these; here they are plain values with their defaults.

use vstd::prelude::*;

verus! {

/// Which rendering backend the library was built against.
#[derive(Debug)]
pub enum SgApi {
    Direct3D11,
    Metal,
    OpenGL33,
}

/// The rendering backend this build targets.
pub fn sg_api() -> (r: SgApi)
    ensures
        r == SgApi::OpenGL33,
{
    SgApi::OpenGL33
}

#[derive(Copy, Clone)]
pub struct SgBuffer {
    pub id: i32,
}

#[derive(Copy, Clone)]
pub struct SgImage {
    pub id: i32,
}

#[derive(Copy, Clone)]
pub struct SgShader {
    pub id: i32,
}

#[derive(Copy, Clone)]
pub struct SgPipeline {
    pub id: i32,
}

#[derive(Copy, Clone)]
pub struct SgPass {
    pub id: i32,
}

#[derive(Copy, Clone)]
pub struct SgContext {
    pub id: i32,
}

pub enum SgFeature {
    Instancing,
    TextureCompressionDXT,
    TextureCompressionPVRTC,
    TextureCompressionATC,
    TextureCompressionETC2,
    TextureFloat,
    TextureHalfFloat,
    OriginBottomLeft,
    OriginTopLeft,
    MSAARenderTargets,
    PackedVertexFormat102,
    MultipleRenderTarget,
    ImageType3D,
    ImageTypeArray,
}

pub enum SgResourceState {
    Initial,
    Alloc,
    Valid,
    Failed,
    Invalid,
}

#[derive(Copy, Clone)]
pub enum SgUsage {
    _Default,
    Immutable,
    Dynamic,
    Stream,
}

#[derive(Copy, Clone)]
pub enum SgBufferType {
    _Default,
    VertexBuffer,
    IndexBuffer,
}

#[derive(Copy, Clone)]
pub enum SgIndexType {
    _Default,
    NoIndex,
    U16,
    U32,
}

#[derive(Copy, Clone)]
pub enum SgImageType {
    _Default,
    _2D,
    Cube,
    _3D,
    Array,
}

pub enum SgCubeFace {
    PosX,
    NegX,
    PosY,
    NegY,
    PosZ,
    NegZ,
}

pub enum SgShaderStage {
    VS,
    FS,
}

#[derive(Copy, Clone)]
pub enum SgPixelFormat {
    _Default,
    NoFormat,
    RGBA8,
    RGB8,
    RGBA4,
    R5G6B5,
    R5G5B5A1,
    R10G10B10A2,
    RGBA32F,
    RGBA16F,
    R32F,
    R16F,
    L8,
    DXT1,
    DXT3,
    DXT5,
    DEPTH,
    DEPTHSTENCIL,
    PVRTC2RGB,
    PVRTC4RGB,
    PVRTC2RGBA,
    PVRTC4RGBA,
    ETC2RGB8,
    ETC2SRGB8,
}

#[derive(Copy, Clone)]
pub enum SgPrimitiveType {
    _Default,
    Points,
    Lines,
    LineStrip,
    Triangles,
    TriangleStrip,
}

#[derive(Copy, Clone)]
pub enum SgFilter {
    _Default,
    Nearest,
    Linear,
    NearestMipmapNearest,
    NearestMipmapLinear,
    LinearMipmapNearest,
    LinearMipmapLinear,
}

#[derive(Copy, Clone)]
pub enum SgWrap {
    _Default,
    Repeat,
    ClampToEdge,
    MirroredRepeat,
}

#[derive(Copy, Clone)]
pub enum SgVertexFormat {
    _Invalid,
    Float,
    Float2,
    Float3,
    Float4,
    Byte4,
    Byte4N,
    UByte4,
    UByte4N,
    Short2,
    Short2N,
    Short4,
    Short4N,
    UINT10N2,
}

#[derive(Copy, Clone)]
pub enum SgVertexStep {
    _Default,
    PerVertex,
    PerInstance,
}

#[derive(Copy, Clone)]
pub enum SgUniformType {
    _Invalid,
    Float,
    Float2,
    Float3,
    Float4,
    Mat4,
}

#[derive(Copy, Clone)]
pub enum SgCullMode {
    _Default,
    NoCull,
    Front,
    Back,
}

#[derive(Copy, Clone)]
pub enum SgFaceWinding {
    _Default,
    CCW,
    CW,
}

#[derive(Copy, Clone)]
pub enum SgCompareFunc {
    _Default,
    Never,
    Less,
    Equal,
    LessEqual,
    Greater,
    NotEqual,
    GreaterEqual,
    Always,
}

#[derive(Copy, Clone)]
pub enum SgStencilOp {
    _Default,
    Keep,
    Zero,
    Replace,
    IncrClamp,
    DecrClamp,
    Invert,
    IncrWrap,
    DecrWrap,
}

#[derive(Copy, Clone)]
pub enum SgBlendFactor {
    _Default,
    Zero,
    One,
    SrcColor,
    OneMinusSrcColor,
    SrcAlpha,
    OneMinusSrcAlpha,
    DstColor,
    OneMinusDstColor,
    DstAlpha,
    OneMinusDstAlpha,
    SrcAlphaSaturated,
    BlendColor,
    OneMinusBlendColor,
    BlendAlpha,
    OneMinusBlendAlpha,
}

#[derive(Copy, Clone)]
pub enum SgBlendOp {
    _Default,
    Add,
    Subtract,
    ReverseSubtract,
}

#[derive(Copy, Clone)]
pub enum SgAction {
    _Default,
    Clear,
    Load,
    DontCare,
}

#[derive(Copy, Clone)]
pub struct SgStencilAttachmentAction {
    pub action: SgAction,
    pub val: u8,
}

pub struct SgBufferLayoutDesc {
    pub stride: i32,
    pub step_func: SgVertexStep,
    pub step_rate: i32,
}

#[derive(Copy, Clone)]
pub struct SgStencilState {
    pub fail_op: SgStencilOp,
    pub depth_fail_op: SgStencilOp,
    pub pass_op: SgStencilOp,
    pub compare_func: SgCompareFunc,
}

#[derive(Copy, Clone)]
pub struct SgDepthStencilState {
    pub stencil_front: SgStencilState,
    pub stencil_back: SgStencilState,
    pub depth_compare_func: SgCompareFunc,
    pub depth_write_enabled: bool,
    pub stencil_enabled: bool,
    pub stencil_read_mask: u8,
    pub stencil_write_mask: u8,
    pub stencil_ref: u8,
}

/// Which face, array layer or depth slice of the attached image a render
/// pass targets (in the native layout these share one slot).
#[derive(Copy, Clone)]
pub struct SgAttachmentDescValue {
    pub face: i32,
    pub layer: i32,
    pub slice: i32,
}

#[derive(Copy, Clone)]
pub struct SgAttachmentDesc {
    pub image: SgImage,
    pub mip_level: i32,
    pub u: SgAttachmentDescValue,
}

pub struct SgPassDesc {
    pub color_attachments: Vec<SgAttachmentDesc>,
    pub depth_stencil_attachment: SgAttachmentDesc,
}


impl Default for SgUsage {
    fn default() -> (r: Self)
        ensures
            r is _Default,
    {
        SgUsage::_Default
    }
}

impl Default for SgBufferType {
    fn default() -> (r: Self)
        ensures
            r is _Default,
    {
        SgBufferType::_Default
    }
}

impl Default for SgIndexType {
    fn default() -> (r: Self)
        ensures
            r is _Default,
    {
        SgIndexType::_Default
    }
}

impl Default for SgImageType {
    fn default() -> (r: Self)
        ensures
            r is _Default,
    {
        SgImageType::_Default
    }
}

impl Default for SgPixelFormat {
    fn default() -> (r: Self)
        ensures
            r is _Default,
    {
        SgPixelFormat::_Default
    }
}

impl Default for SgPrimitiveType {
    fn default() -> (r: Self)
        ensures
            r is _Default,
    {
        SgPrimitiveType::_Default
    }
}

impl Default for SgFilter {
    fn default() -> (r: Self)
        ensures
            r is _Default,
    {
        SgFilter::_Default
    }
}

impl Default for SgWrap {
    fn default() -> (r: Self)
        ensures
            r is _Default,
    {
        SgWrap::_Default
    }
}

impl Default for SgVertexFormat {
    fn default() -> (r: Self)
        ensures
            r is _Invalid,
    {
        SgVertexFormat::_Invalid
    }
}

impl Default for SgVertexStep {
    fn default() -> (r: Self)
        ensures
            r is _Default,
    {
        SgVertexStep::_Default
    }
}

impl Default for SgUniformType {
    fn default() -> (r: Self)
        ensures
            r is _Invalid,
    {
        SgUniformType::_Invalid
    }
}

impl Default for SgCullMode {
    fn default() -> (r: Self)
        ensures
            r is _Default,
    {
        SgCullMode::_Default
    }
}

impl Default for SgFaceWinding {
    fn default() -> (r: Self)
        ensures
            r is _Default,
    {
        SgFaceWinding::_Default
    }
}

impl Default for SgCompareFunc {
    fn default() -> (r: Self)
        ensures
            r is _Default,
    {
        SgCompareFunc::_Default
    }
}

impl Default for SgStencilOp {
    fn default() -> (r: Self)
        ensures
            r is _Default,
    {
        SgStencilOp::_Default
    }
}

impl Default for SgBlendFactor {
    fn default() -> (r: Self)
        ensures
            r is _Default,
    {
        SgBlendFactor::_Default
    }
}

impl Default for SgBlendOp {
    fn default() -> (r: Self)
        ensures
            r is _Default,
    {
        SgBlendOp::_Default
    }
}

impl Default for SgAction {
    fn default() -> (r: Self)
        ensures
            r is _Default,
    {
        SgAction::_Default
    }
}

impl Default for SgBuffer {
    fn default() -> (r: Self)
        ensures
            r.id == 0,
    {
        SgBuffer { id: 0 }
    }
}

impl Default for SgImage {
    fn default() -> (r: Self)
        ensures
            r.id == 0,
    {
        SgImage { id: 0 }
    }
}

impl Default for SgShader {
    fn default() -> (r: Self)
        ensures
            r.id == 0,
    {
        SgShader { id: 0 }
    }
}

impl Default for SgPipeline {
    fn default() -> (r: Self)
        ensures
            r.id == 0,
    {
        SgPipeline { id: 0 }
    }
}

impl Default for SgPass {
    fn default() -> (r: Self)
        ensures
            r.id == 0,
    {
        SgPass { id: 0 }
    }
}

impl Default for SgContext {
    fn default() -> (r: Self)
        ensures
            r.id == 0,
    {
        SgContext { id: 0 }
    }
}

impl Default for SgStencilAttachmentAction {
    fn default() -> (r: Self)
        ensures
            r.action is _Default,
            r.val == 0,
    {
        SgStencilAttachmentAction { action: SgAction::_Default, val: 0 }
    }
}

impl Default for SgBufferLayoutDesc {
    fn default() -> (r: Self)
        ensures
            r.stride == 0,
            r.step_func is _Default,
            r.step_rate == 0,
    {
        SgBufferLayoutDesc { stride: 0, step_func: SgVertexStep::_Default, step_rate: 0 }
    }
}

impl Default for SgStencilState {
    fn default() -> (r: Self)
        ensures
            r.fail_op is _Default,
            r.depth_fail_op is _Default,
            r.pass_op is _Default,
            r.compare_func is _Default,
    {
        SgStencilState {
            fail_op: SgStencilOp::_Default,
            depth_fail_op: SgStencilOp::_Default,
            pass_op: SgStencilOp::_Default,
            compare_func: SgCompareFunc::_Default,
        }
    }
}

impl Default for SgDepthStencilState {
    fn default() -> (r: Self)
        ensures
            r.stencil_front.fail_op is _Default,
            r.stencil_back.fail_op is _Default,
            r.depth_compare_func is _Default,
            !r.depth_write_enabled,
            !r.stencil_enabled,
            r.stencil_read_mask == 0,
            r.stencil_write_mask == 0,
            r.stencil_ref == 0,
    {
        SgDepthStencilState {
            stencil_front: SgStencilState::default(),
            stencil_back: SgStencilState::default(),
            depth_compare_func: SgCompareFunc::_Default,
            depth_write_enabled: false,
            stencil_enabled: false,
            stencil_read_mask: 0,
            stencil_write_mask: 0,
            stencil_ref: 0,
        }
    }
}

impl Default for SgPassDesc {
    fn default() -> (r: Self)
        ensures
            r.color_attachments@.len() == 0,
            r.depth_stencil_attachment.image.id == 0,
            r.depth_stencil_attachment.mip_level == 0,
    {
        SgPassDesc {
            color_attachments: Vec::new(),
            depth_stencil_attachment: SgAttachmentDesc::default(),
        }
    }
}

impl Default for SgAttachmentDescValue {
    fn default() -> (r: Self)
        ensures
            r.face == 0 && r.layer == 0 && r.slice == 0,
    {
        SgAttachmentDescValue { face: 0, layer: 0, slice: 0 }
    }
}

impl Default for SgAttachmentDesc {
    fn default() -> (r: Self)
        ensures
            r.image.id == 0 && r.mip_level == 0,
            r.u.face == 0 && r.u.layer == 0 && r.u.slice == 0,
    {
        SgAttachmentDesc {
            image: SgImage { id: 0 },
            mip_level: 0,
            u: SgAttachmentDescValue { face: 0, layer: 0, slice: 0 },
        }
    }
}

} // verus!
