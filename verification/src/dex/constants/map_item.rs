//! DEX map item type codes.

use vstd::prelude::*;

verus! {

/// Kind of a section listed in the map of a DEX file.
#[derive(Debug, Clone, Copy, PartialEq, Eq, Structural)]
pub enum MapItemType {
    HeaderItem,
    StringIdItem,
    TypeIdItem,
    ProtoIdItem,
    FieldIdItem,
    MethodIdItem,
    ClassDefItem,
    CallSiteIdItem,
    MethodHandleItem,
    MapList,
    TypeList,
    AnnotationSetRefList,
    AnnotationSetItem,
    ClassDataItem,
    CodeItem,
    StringDataItem,
    DebugInfoItem,
    AnnotationItem,
    EncodedArrayItem,
    AnnotationsDirectoryItem,
    HiddenapiClassDataItem,
}

impl MapItemType {
    /// The 16-bit code that stands for this kind in the map.
    pub open spec fn code_spec(self) -> u16 {
        match self {
            MapItemType::HeaderItem => 0x0000,
            MapItemType::StringIdItem => 0x0001,
            MapItemType::TypeIdItem => 0x0002,
            MapItemType::ProtoIdItem => 0x0003,
            MapItemType::FieldIdItem => 0x0004,
            MapItemType::MethodIdItem => 0x0005,
            MapItemType::ClassDefItem => 0x0006,
            MapItemType::CallSiteIdItem => 0x0007,
            MapItemType::MethodHandleItem => 0x0008,
            MapItemType::MapList => 0x1000,
            MapItemType::TypeList => 0x1001,
            MapItemType::AnnotationSetRefList => 0x1002,
            MapItemType::AnnotationSetItem => 0x1003,
            MapItemType::ClassDataItem => 0x2000,
            MapItemType::CodeItem => 0x2001,
            MapItemType::StringDataItem => 0x2002,
            MapItemType::DebugInfoItem => 0x2003,
            MapItemType::AnnotationItem => 0x2004,
            MapItemType::EncodedArrayItem => 0x2005,
            MapItemType::AnnotationsDirectoryItem => 0x2006,
            MapItemType::HiddenapiClassDataItem => 0xF000,
        }
    }

    /// The 16-bit code that stands for this kind in the map.
    pub fn code(self) -> (code: u16)
        ensures
            code == self.code_spec(),
    {
        match self {
            MapItemType::HeaderItem => 0x0000,
            MapItemType::StringIdItem => 0x0001,
            MapItemType::TypeIdItem => 0x0002,
            MapItemType::ProtoIdItem => 0x0003,
            MapItemType::FieldIdItem => 0x0004,
            MapItemType::MethodIdItem => 0x0005,
            MapItemType::ClassDefItem => 0x0006,
            MapItemType::CallSiteIdItem => 0x0007,
            MapItemType::MethodHandleItem => 0x0008,
            MapItemType::MapList => 0x1000,
            MapItemType::TypeList => 0x1001,
            MapItemType::AnnotationSetRefList => 0x1002,
            MapItemType::AnnotationSetItem => 0x1003,
            MapItemType::ClassDataItem => 0x2000,
            MapItemType::CodeItem => 0x2001,
            MapItemType::StringDataItem => 0x2002,
            MapItemType::DebugInfoItem => 0x2003,
            MapItemType::AnnotationItem => 0x2004,
            MapItemType::EncodedArrayItem => 0x2005,
            MapItemType::AnnotationsDirectoryItem => 0x2006,
            MapItemType::HiddenapiClassDataItem => 0xF000,
        }
    }
}

} // verus!
