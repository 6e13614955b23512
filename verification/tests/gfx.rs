use sokol::gfx::SgAction;
use sokol::gfx::SgApi;
use sokol::gfx::SgAttachmentDesc;
use sokol::gfx::SgAttachmentDescValue;
use sokol::gfx::SgBlendOp;
use sokol::gfx::SgCullMode;
use sokol::gfx::SgImage;
use sokol::gfx::SgIndexType;
use sokol::gfx::SgPassDesc;
use sokol::gfx::SgPixelFormat;
use sokol::gfx::SgUsage;
use sokol::gfx::SgVertexFormat;
use sokol::gfx::sg_api;

fn attachment(id: i32, mip: i32, face: i32) -> SgAttachmentDesc {
    SgAttachmentDesc {
        image: SgImage { id },
        mip_level: mip,
        u: SgAttachmentDescValue { face, layer: 0, slice: 0 },
    }
}

#[test]
fn sg_api_reports_the_build_backend() {
    assert!(matches!(sg_api(), SgApi::OpenGL33));
    assert!(matches!(sokol::sys_gfx::sg_api(), sokol::sys_gfx::SgApi::OpenGL33));
}

#[test]
fn pass_desc_make_copies_attachments_and_zeroes_the_rest() {
    let desc = SgPassDesc {
        color_attachments: vec![attachment(7, 1, 2), attachment(9, 0, 5)],
        depth_stencil_attachment: attachment(11, 3, 0),
    };
    let native = sokol::gfx_desc::SgPassDesc::make(&desc);
    assert_eq!(native._start_canary, 0);
    assert_eq!(native._end_canary, 0);
    assert_eq!(native.depth_stencil_attachment.image.id, 11);
    assert_eq!(native.depth_stencil_attachment.mip_level, 3);
    assert_eq!(native.color_attachments[0].image.id, 7);
    assert_eq!(native.color_attachments[0].mip_level, 1);
    assert_eq!(native.color_attachments[0].u.face, 2);
    assert_eq!(native.color_attachments[1].image.id, 9);
    assert_eq!(native.color_attachments[1].u.face, 5);
    for i in 2..4 {
        assert_eq!(native.color_attachments[i].image.id, 0);
        assert_eq!(native.color_attachments[i].mip_level, 0);
        assert_eq!(native.color_attachments[i].u.face, 0);
    }
}

#[test]
fn pass_desc_make_accepts_a_full_set_of_attachments() {
    let desc = SgPassDesc {
        color_attachments: vec![
            attachment(1, 0, 0),
            attachment(2, 0, 0),
            attachment(3, 0, 0),
            attachment(4, 0, 0),
        ],
        depth_stencil_attachment: attachment(5, 0, 0),
    };
    let native = sokol::gfx_desc::SgPassDesc::make(&desc);
    for i in 0..4 {
        assert_eq!(native.color_attachments[i].image.id, (i + 1) as i32);
    }
}

#[test]
fn gfx_defaults_are_the_native_default_markers() {
    assert!(matches!(SgUsage::default(), SgUsage::_Default));
    assert!(matches!(SgIndexType::default(), SgIndexType::_Default));
    assert!(matches!(SgPixelFormat::default(), SgPixelFormat::_Default));
    assert!(matches!(SgVertexFormat::default(), SgVertexFormat::_Invalid));
    assert!(matches!(SgCullMode::default(), SgCullMode::_Default));
    assert!(matches!(SgBlendOp::default(), SgBlendOp::_Default));
    assert!(matches!(SgAction::default(), SgAction::_Default));
    let att = SgAttachmentDesc::default();
    assert_eq!(att.image.id, 0);
    assert_eq!(att.mip_level, 0);
    assert_eq!(att.u.layer, 0);
}

#[test]
fn app_event_enums_are_usable() {
    let e = sokol::app::SAppEventType::KeyDown;
    assert_eq!(e, sokol::app::SAppEventType::KeyDown);
    assert_ne!(sokol::app::SAppKeycode::KeySpace, sokol::app::SAppKeycode::KeyEnter);
    assert_eq!(sokol::app::SAppMouseButton::Left, sokol::app::SAppMouseButton::Left);
}
