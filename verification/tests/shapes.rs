use sheetpack::drawings::{
    CtConnector, CtGraphicalObjectFrame, CtGroupShape, CtNonVisualDrawingProps,
    CtNonVisualDrawingShapeProps, CtPicture, CtPoint2D, CtPositiveSize2D, CtRel, CtShape,
    CtShapeLocking, CtShapeNoneVisual, CtShapeProperties, CtTransform2D, EgObjectChoices,
    StBlackWhiteMode,
};

fn shape() -> CtShape {
    CtShape {
        nv_sp_pr: CtShapeNoneVisual {
            c_nv_pr: CtNonVisualDrawingProps {
                id: 2,
                name: "Rectangle 1".to_string(),
                descr: String::new(),
                hidden: false,
                title: String::new(),
                hlink_click: None,
                hlink_hover: None,
                ext_lst: None,
            },
            c_nv_sp_pr: CtNonVisualDrawingShapeProps {
                sp_locks: Some(CtShapeLocking {
                    no_text_edit: false,
                    no_grp: true,
                    no_select: false,
                    no_rot: false,
                    no_change_aspect: false,
                    no_move: false,
                    no_resize: false,
                    no_edit_points: false,
                    no_adjust_handles: false,
                    no_change_arrow_heads: false,
                    no_change_shape_type: false,
                    ext_lst: None,
                }),
                ext_lst: None,
                tx_box: false,
            },
        },
        sp_pr: CtShapeProperties {
            xfrm: Some(CtTransform2D {
                off: Some(CtPoint2D { x: -5, y: 12 }),
                ext: Some(CtPositiveSize2D { cx: 100, cy: 40 }),
                rot: 0,
                flip_h: false,
                flip_v: true,
            }),
            bw_mode: Some(StBlackWhiteMode::GrayWhite),
        },
        style: None,
        tx_body: None,
        macro_name: None,
        textlink: None,
        ext_lst: None,
        f_locks_text: true,
        f_published: false,
    }
}

#[test]
fn shape_keeps_what_it_is_given() {
    let s = shape();
    assert_eq!(s.nv_sp_pr.c_nv_pr.id, 2);
    assert_eq!(s.nv_sp_pr.c_nv_pr.name, "Rectangle 1");
    assert!(s.nv_sp_pr.c_nv_sp_pr.sp_locks.as_ref().unwrap().no_grp);
    let xfrm = s.sp_pr.xfrm.as_ref().unwrap();
    assert_eq!(xfrm.off.as_ref().unwrap().x, -5);
    assert_eq!(xfrm.ext.as_ref().unwrap().cy, 40);
    assert!(xfrm.flip_v);
    assert_eq!(s.sp_pr.bw_mode, Some(StBlackWhiteMode::GrayWhite));
    assert!(s.f_locks_text);
}

#[test]
fn drawing_holds_one_of_six_things() {
    let things = vec![
        EgObjectChoices::Sp(shape()),
        EgObjectChoices::GrpSp(CtGroupShape {}),
        EgObjectChoices::GraphicFrame(CtGroupShape {}),
        EgObjectChoices::CxnSp(CtConnector {}),
        EgObjectChoices::Pic(CtPicture {}),
        EgObjectChoices::ContentPart(CtRel { id: "rId7".to_string() }),
    ];
    assert!(matches!(&things[0], EgObjectChoices::Sp(s) if s.nv_sp_pr.c_nv_pr.id == 2));
    assert!(matches!(&things[5], EgObjectChoices::ContentPart(r) if r.id == "rId7"));
    assert_eq!(format!("{:?}", CtGraphicalObjectFrame {}), "CtGraphicalObjectFrame");
    assert_eq!(things.len(), 6);
}
