//! Fixed-layout descriptor records in the shape the native renderer expects:
//! a bounded array of color attachments framed by canary words.

use vstd::prelude::*;

use crate::gfx::SgAttachmentDesc;
use crate::gfx::SgAttachmentDescValue;
use crate::gfx::SgImage;

verus! {

/// How many color attachments a render pass can carry.
pub const SG_MAX_COLOR_ATTACHMENTS: usize = 4;

/// A render-pass descriptor with its attachments in fixed slots, as the
/// native renderer consumes it.
pub struct SgPassDesc {
    pub _start_canary: u32,
    pub color_attachments: [SgAttachmentDesc; 4],
    pub depth_stencil_attachment: SgAttachmentDesc,
    pub _end_canary: u32,
}

/// A zeroed attachment slot.
pub open spec fn empty_attachment() -> SgAttachmentDesc {
    SgAttachmentDesc {
        image: SgImage { id: 0 },
        mip_level: 0,
        u: SgAttachmentDescValue { face: 0, layer: 0, slice: 0 },
    }
}

impl SgPassDesc {
    /// Lays a pass description out in fixed slots: the attachments given are
    /// copied in order, the remaining slots are zeroed, and the canaries are
    /// cleared.
    pub fn make(desc: &crate::gfx::SgPassDesc) -> (r: SgPassDesc)
        requires
            desc.color_attachments@.len() <= SG_MAX_COLOR_ATTACHMENTS,
        ensures
            r._start_canary == 0,
            r._end_canary == 0,
            r.depth_stencil_attachment == desc.depth_stencil_attachment,
            forall|i: int|
                0 <= i < desc.color_attachments@.len() ==> r.color_attachments[i]
                    == desc.color_attachments@[i],
            forall|i: int|
                desc.color_attachments@.len() <= i < 4 ==> r.color_attachments[i]
                    == empty_attachment(),
    {
        let n = desc.color_attachments.len();
        let a0 = if n > 0 {
            desc.color_attachments[0]
        } else {
            SgAttachmentDesc::default()
        };
        let a1 = if n > 1 {
            desc.color_attachments[1]
        } else {
            SgAttachmentDesc::default()
        };
        let a2 = if n > 2 {
            desc.color_attachments[2]
        } else {
            SgAttachmentDesc::default()
        };
        let a3 = if n > 3 {
            desc.color_attachments[3]
        } else {
            SgAttachmentDesc::default()
        };
        SgPassDesc {
            _start_canary: 0,
            color_attachments: [a0, a1, a2, a3],
            depth_stencil_attachment: desc.depth_stencil_attachment,
            _end_canary: 0,
        }
    }
}

} // verus!
