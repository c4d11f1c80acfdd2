//! How the text that is being typed is displayed: one attribute, an underline.

use vstd::prelude::*;

use crate::com::{E_INVALIDARG, E_POINTER, S_FALSE, S_OK};

verus! {

/// The id of the attribute.
pub const ATTR_GUID: u128 = 0x8f5c2a12_3e77_4b9c_a1d4_9e0b7c2f5a88;

/// What the attribute is called.
pub const ATTR_DESCRIPTION: &'static str = "HuFu 编码输入";

/// A solid line.
pub const LINE_SOLID: i32 = 1;

/// Text that is being typed.
pub const ATTR_INPUT: i32 = 0;

/// A style of display. Its colours are the host's own.
#[derive(Clone, Copy, Debug, PartialEq, Eq, Structural)]
pub struct AttrStyle {
    pub line: i32,
    pub bold: bool,
    pub kind: i32,
}

/// The one attribute.
#[derive(Debug, PartialEq, Eq, Structural)]
pub struct HuFuAttrInfo;

impl HuFuAttrInfo {
    /// The attribute's id.
    pub fn get_guid(&self) -> (r: u128)
        ensures
            r == ATTR_GUID,
    {
        ATTR_GUID
    }

    /// The attribute's style, where there is a place for it: a solid line, which hosts draw by the
    /// line's style alone.
    pub fn get_attribute_info(&self, place: bool) -> (r: Result<AttrStyle, i32>)
        ensures
            r == if place {
                Ok::<AttrStyle, i32>(AttrStyle { line: LINE_SOLID, bold: false, kind: ATTR_INPUT })
            } else {
                Err(E_POINTER)
            },
    {
        if !place {
            return Err(E_POINTER);
        }
        Ok(AttrStyle { line: LINE_SOLID, bold: false, kind: ATTR_INPUT })
    }
}

/// The attribute with this id.
pub fn get_display_attribute_info(guid: Option<u128>) -> (r: Result<HuFuAttrInfo, i32>)
    ensures
        r == if guid == Some(ATTR_GUID) {
            Ok::<HuFuAttrInfo, i32>(HuFuAttrInfo)
        } else {
            Err(E_INVALIDARG)
        },
{
    match guid {
        Some(g) => if g == ATTR_GUID {
            Ok(HuFuAttrInfo)
        } else {
            Err(E_INVALIDARG)
        },
        None => Err(E_INVALIDARG),
    }
}

/// Hands out the one attribute.
#[derive(Debug, PartialEq, Eq, Structural)]
pub struct HuFuAttrEnum {
    /// How many were handed out.
    pos: u32,
}

impl HuFuAttrEnum {
    /// How many attributes are left: one or none.
    pub closed spec fn left(self) -> int {
        1 - self.pos
    }

    /// One attribute at most was handed out.
    #[verifier::type_invariant]
    closed spec fn wf(self) -> bool {
        self.pos <= 1
    }

    /// Nothing was handed out.
    pub fn new() -> (r: HuFuAttrEnum)
        ensures
            r.left() == 1,
    {
        HuFuAttrEnum { pos: 0 }
    }

    /// Hands out so many attributes as are left, `count` at most, where there is a place for them.
    pub fn next(&mut self, count: u32, place: bool) -> (r: Vec<HuFuAttrInfo>)
        ensures
            0 <= old(self).left() <= 1,
            r.len() == if place && count >= 1 {
                old(self).left()
            } else {
                0
            },
            final(self).left() == old(self).left() - r.len(),
    {
        proof {
            use_type_invariant(&*self);
        }
        let mut r: Vec<HuFuAttrInfo> = Vec::new();
        if place && count >= 1 && self.pos < 1 {
            r.push(HuFuAttrInfo);
            self.pos = 1;
        }
        r
    }

    /// Begins again.
    pub fn reset(&mut self)
        ensures
            final(self).left() == 1,
    {
        self.pos = 0;
    }

    /// Passes over so many attributes. The result code says whether so many were left.
    pub fn skip(&mut self, count: u32) -> (r: i32)
        ensures
            0 <= old(self).left() <= 1,
            final(self).left() == if count >= 1 {
                0
            } else {
                old(self).left()
            },
            r == if count <= old(self).left() {
                S_OK
            } else {
                S_FALSE
            },
    {
        proof {
            use_type_invariant(&*self);
        }
        let left: u32 = 1 - self.pos;
        if count >= 1 {
            self.pos = 1;
        }
        if count <= left {
            S_OK
        } else {
            S_FALSE
        }
    }
}

/// The result code of [`HuFuAttrEnum::next`]: whether all `count` attributes that were asked for
/// came.
pub fn next_status(count: u32, came: &Vec<HuFuAttrInfo>) -> (r: i32)
    ensures
        r == if came.len() == count {
            S_OK
        } else {
            S_FALSE
        },
{
    if came.len() == count as usize {
        S_OK
    } else {
        S_FALSE
    }
}

impl Clone for HuFuAttrEnum {
    /// Another that stands at the same place.
    fn clone(&self) -> (r: HuFuAttrEnum)
        ensures
            r.left() == self.left(),
    {
        proof {
            use_type_invariant(self);
        }
        HuFuAttrEnum { pos: self.pos }
    }
}

impl Default for HuFuAttrEnum {
    fn default() -> (r: HuFuAttrEnum)
        ensures
            r.left() == 1,
    {
        HuFuAttrEnum::new()
    }
}

} // verus!
