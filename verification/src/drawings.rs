//! The shapes of a drawing part, as plain data.

use vstd::prelude::*;

verus! {

/// `xmlserde::Unparsed`, an element that is kept as it was read.
#[verifier::external_type_specification]
#[verifier::external_body]
pub struct ExUnparsed(xmlserde::Unparsed);

/// How a shape is rendered where only black and white are at hand.
#[derive(Debug, Clone, Copy, PartialEq, Eq, Structural)]
pub enum StBlackWhiteMode {
    Clr,
    Auto,
    Gray,
    LtGray,
    InvGray,
    GrayWhite,
    BlackGray,
    BlackWhite,
    Black,
    White,
    Hidden,
}

/// What a drawing can hold in one place.
#[derive(Debug)]
pub enum EgObjectChoices {
    Sp(CtShape),
    GrpSp(CtGroupShape),
    GraphicFrame(CtGroupShape),
    CxnSp(CtConnector),
    Pic(CtPicture),
    ContentPart(CtRel),
}

/// A shape. Its style and its text body are kept as they were read.
#[derive(Debug)]
pub struct CtShape {
    pub nv_sp_pr: CtShapeNoneVisual,
    pub sp_pr: CtShapeProperties,
    pub style: Option<xmlserde::Unparsed>,
    pub tx_body: Option<xmlserde::Unparsed>,
    pub macro_name: Option<String>,
    pub textlink: Option<String>,
    pub ext_lst: Option<xmlserde::Unparsed>,
    pub f_locks_text: bool,
    pub f_published: bool,
}

#[derive(Debug)]
pub struct CtShapeNoneVisual {
    pub c_nv_pr: CtNonVisualDrawingProps,
    pub c_nv_sp_pr: CtNonVisualDrawingShapeProps,
}

#[derive(Debug)]
pub struct CtNonVisualDrawingProps {
    pub id: u32,
    pub name: String,
    pub descr: String,
    pub hidden: bool,
    pub title: String,
    pub hlink_click: Option<xmlserde::Unparsed>,
    pub hlink_hover: Option<xmlserde::Unparsed>,
    pub ext_lst: Option<xmlserde::Unparsed>,
}

#[derive(Debug)]
pub struct CtNonVisualDrawingShapeProps {
    pub sp_locks: Option<CtShapeLocking>,
    pub ext_lst: Option<xmlserde::Unparsed>,
    pub tx_box: bool,
}

#[derive(Debug)]
pub struct CtShapeLocking {
    pub no_text_edit: bool,
    pub no_grp: bool,
    pub no_select: bool,
    pub no_rot: bool,
    pub no_change_aspect: bool,
    pub no_move: bool,
    pub no_resize: bool,
    pub no_edit_points: bool,
    pub no_adjust_handles: bool,
    pub no_change_arrow_heads: bool,
    pub no_change_shape_type: bool,
    pub ext_lst: Option<xmlserde::Unparsed>,
}

#[derive(Debug)]
pub struct CtShapeProperties {
    pub xfrm: Option<CtTransform2D>,
    pub bw_mode: Option<StBlackWhiteMode>,
}

#[derive(Debug)]
pub struct CtGroupShape {}

#[derive(Debug)]
pub struct CtGraphicalObjectFrame {}

#[derive(Debug)]
pub struct CtConnector {}

#[derive(Debug)]
pub struct CtPicture {}

#[derive(Debug)]
pub struct CtRel {
    pub id: String,
}

#[derive(Debug)]
pub struct CtTransform2D {
    pub off: Option<CtPoint2D>,
    pub ext: Option<CtPositiveSize2D>,
    pub rot: i32,
    pub flip_h: bool,
    pub flip_v: bool,
}

#[derive(Debug)]
pub struct CtPoint2D {
    pub x: i64,
    pub y: i64,
}

#[derive(Debug)]
pub struct CtPositiveSize2D {
    pub cx: u64,
    pub cy: u64,
}

} // verus!
