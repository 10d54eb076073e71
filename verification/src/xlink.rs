//! Typed records for XML link attribute bundles: the attribute values and
//! element models of simple, extended, title, resource, locator and arc
//! links.  These are plain value types; reading them from or writing them
//! to a wire format is callers' work.

#![allow(non_snake_case)]

use vstd::prelude::*;

verus! {

#[derive(Clone, Debug, PartialEq)]
pub struct Type {
    pub Type: char,
}

#[derive(Clone, Debug, PartialEq)]
pub struct TypeType {
    pub TypeType: char,
}

#[derive(Clone, Debug, PartialEq)]
pub struct Href {
    pub Href: char,
}

#[derive(Clone, Debug, PartialEq)]
pub struct HrefType {
    pub HrefType: char,
}

#[derive(Clone, Debug, PartialEq)]
pub struct Role {
    pub Role: char,
}

#[derive(Clone, Debug, PartialEq)]
pub struct RoleType {
    pub RoleType: char,
}

#[derive(Clone, Debug, PartialEq)]
pub struct Arcrole {
    pub Arcrole: char,
}

#[derive(Clone, Debug, PartialEq)]
pub struct ArcroleType {
    pub ArcroleType: char,
}

#[derive(Clone, Debug, PartialEq)]
pub struct Title {
    pub Title: char,
}

#[derive(Clone, Debug, PartialEq)]
pub struct TitleAttrType {
    pub TitleAttrType: char,
}

#[derive(Clone, Debug, PartialEq)]
pub struct Show {
    pub Show: char,
}

#[derive(Clone, Debug, PartialEq)]
pub struct ShowType {
    pub ShowType: char,
}

#[derive(Clone, Debug, PartialEq)]
pub struct Actuate {
    pub Actuate: char,
}

#[derive(Clone, Debug, PartialEq)]
pub struct ActuateType {
    pub ActuateType: char,
}

#[derive(Clone, Debug, PartialEq)]
pub struct Label {
    pub Label: char,
}

#[derive(Clone, Debug, PartialEq)]
pub struct LabelType {
    pub LabelType: char,
}

#[derive(Clone, Debug, PartialEq)]
pub struct From {
    pub From: char,
}

#[derive(Clone, Debug, PartialEq)]
pub struct FromType {
    pub FromType: char,
}

#[derive(Clone, Debug, PartialEq)]
pub struct To {
    pub To: char,
}

#[derive(Clone, Debug, PartialEq)]
pub struct ToType {
    pub ToType: char,
}

#[derive(Clone, Debug, PartialEq)]
pub struct SimpleAttrs {
    pub XlinkType: Vec<char>,
    pub XlinkHref: Vec<char>,
    pub XlinkRole: Vec<char>,
    pub XlinkArcrole: Vec<char>,
    pub XlinkTitle: Vec<char>,
    pub XlinkShow: Vec<char>,
    pub XlinkActuate: Vec<char>,
}

#[derive(Clone, Debug, PartialEq)]
pub struct SimpleModel {}

#[derive(Clone, Debug, PartialEq)]
pub struct Simple {
    pub XlinkSimpleAttrs: Vec<SimpleAttrs>,
    pub XlinkSimpleModel: SimpleModel,
}

#[derive(Clone, Debug, PartialEq)]
pub struct ExtendedAttrs {
    pub XlinkType: Vec<char>,
    pub XlinkRole: Vec<char>,
    pub XlinkTitle: Vec<char>,
}

#[derive(Clone, Debug, PartialEq)]
pub struct ExtendedModel {
    pub XlinkTitle: char,
    pub XlinkResource: ResourceType,
    pub XlinkLocator: LocatorType,
    pub XlinkArc: ArcType,
}

#[derive(Clone, Debug, PartialEq)]
pub struct Extended {
    pub XlinkExtendedAttrs: Vec<ExtendedAttrs>,
    pub XlinkExtendedModel: Vec<ExtendedModel>,
}

#[derive(Clone, Debug, PartialEq)]
pub struct TitleAttrs {
    pub XlinkType: Vec<char>,
    pub XmlLang: Vec<String>,
}

#[derive(Clone, Debug, PartialEq)]
pub struct TitleModel {}

#[derive(Clone, Debug, PartialEq)]
pub struct TitleEltType {
    pub XlinkTitleAttrs: Vec<TitleAttrs>,
    pub XlinkTitleModel: TitleModel,
}

#[derive(Clone, Debug, PartialEq)]
pub struct Resource {
    pub Resource: ResourceType,
}

#[derive(Clone, Debug, PartialEq)]
pub struct ResourceAttrs {
    pub XlinkType: Vec<char>,
    pub XlinkRole: Vec<char>,
    pub XlinkTitle: Vec<char>,
    pub XlinkLabel: Vec<char>,
}

#[derive(Clone, Debug, PartialEq)]
pub struct ResourceModel {}

#[derive(Clone, Debug, PartialEq)]
pub struct ResourceType {
    pub XlinkResourceAttrs: Vec<ResourceAttrs>,
    pub XlinkResourceModel: ResourceModel,
}

#[derive(Clone, Debug, PartialEq)]
pub struct Locator {
    pub Locator: LocatorType,
}

#[derive(Clone, Debug, PartialEq)]
pub struct LocatorAttrs {
    pub XlinkType: Vec<char>,
    pub XlinkHref: Vec<char>,
    pub XlinkRole: Vec<char>,
    pub XlinkTitle: Vec<char>,
    pub XlinkLabel: Vec<char>,
}

#[derive(Clone, Debug, PartialEq)]
pub struct LocatorModel {
    pub XlinkTitle: char,
}

#[derive(Clone, Debug, PartialEq)]
pub struct LocatorType {
    pub XlinkLocatorAttrs: Vec<LocatorAttrs>,
    pub XlinkLocatorModel: LocatorModel,
}

#[derive(Clone, Debug, PartialEq)]
pub struct Arc {
    pub Arc: ArcType,
}

#[derive(Clone, Debug, PartialEq)]
pub struct ArcAttrs {
    pub XlinkType: Vec<char>,
    pub XlinkArcrole: Vec<char>,
    pub XlinkTitle: Vec<char>,
    pub XlinkShow: Vec<char>,
    pub XlinkActuate: Vec<char>,
    pub XlinkFrom: Vec<char>,
    pub XlinkTo: Vec<char>,
}

#[derive(Clone, Debug, PartialEq)]
pub struct ArcModel {
    pub XlinkTitle: char,
}

#[derive(Clone, Debug, PartialEq)]
pub struct ArcType {
    pub XlinkArcAttrs: Vec<ArcAttrs>,
    pub XlinkArcModel: ArcModel,
}

} // verus!
