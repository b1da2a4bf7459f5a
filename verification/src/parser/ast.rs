//! The syntax tree the parser builds.
use vstd::prelude::*;
use crate::text::chars_eq;
use crate::token::{Literal, Operator, TokCtx};
use crate::parser::mods::ResMods;

verus! {

/// The built-in types.
#[derive(Copy, Clone, Debug, PartialEq, Eq, Structural)]
pub enum PrimitiveType {
    F32,
    F64,
    Int,
    Uint,
    Bool,
    Vec2,
    Vec3,
    Vec4,
    IVec2,
    IVec3,
    IVec4,
    DVec2,
    DVec3,
    DVec4,
    BVec2,
    BVec3,
    BVec4,
    UVec2,
    UVec3,
    UVec4,
    Mat2,
    Mat3,
    Mat4,
    Mat2x3,
    Mat2x4,
    Mat3x2,
    Mat3x4,
    Mat4x2,
    Mat4x3,
    DMat2,
    DMat3,
    DMat4,
    DMat2x3,
    DMat2x4,
    DMat3x2,
    DMat3x4,
    DMat4x2,
    DMat4x3,
}

/// How a built-in type is spelled: its name in lower case.
pub open spec fn primitive_text(p: PrimitiveType) -> Seq<char> {
    match p {
        PrimitiveType::F32 => seq!['f', '3', '2'],
        PrimitiveType::F64 => seq!['f', '6', '4'],
        PrimitiveType::Int => seq!['i', 'n', 't'],
        PrimitiveType::Uint => seq!['u', 'i', 'n', 't'],
        PrimitiveType::Bool => seq!['b', 'o', 'o', 'l'],
        PrimitiveType::Vec2 => seq!['v', 'e', 'c', '2'],
        PrimitiveType::Vec3 => seq!['v', 'e', 'c', '3'],
        PrimitiveType::Vec4 => seq!['v', 'e', 'c', '4'],
        PrimitiveType::IVec2 => seq!['i', 'v', 'e', 'c', '2'],
        PrimitiveType::IVec3 => seq!['i', 'v', 'e', 'c', '3'],
        PrimitiveType::IVec4 => seq!['i', 'v', 'e', 'c', '4'],
        PrimitiveType::DVec2 => seq!['d', 'v', 'e', 'c', '2'],
        PrimitiveType::DVec3 => seq!['d', 'v', 'e', 'c', '3'],
        PrimitiveType::DVec4 => seq!['d', 'v', 'e', 'c', '4'],
        PrimitiveType::BVec2 => seq!['b', 'v', 'e', 'c', '2'],
        PrimitiveType::BVec3 => seq!['b', 'v', 'e', 'c', '3'],
        PrimitiveType::BVec4 => seq!['b', 'v', 'e', 'c', '4'],
        PrimitiveType::UVec2 => seq!['u', 'v', 'e', 'c', '2'],
        PrimitiveType::UVec3 => seq!['u', 'v', 'e', 'c', '3'],
        PrimitiveType::UVec4 => seq!['u', 'v', 'e', 'c', '4'],
        PrimitiveType::Mat2 => seq!['m', 'a', 't', '2'],
        PrimitiveType::Mat3 => seq!['m', 'a', 't', '3'],
        PrimitiveType::Mat4 => seq!['m', 'a', 't', '4'],
        PrimitiveType::Mat2x3 => seq!['m', 'a', 't', '2', 'x', '3'],
        PrimitiveType::Mat2x4 => seq!['m', 'a', 't', '2', 'x', '4'],
        PrimitiveType::Mat3x2 => seq!['m', 'a', 't', '3', 'x', '2'],
        PrimitiveType::Mat3x4 => seq!['m', 'a', 't', '3', 'x', '4'],
        PrimitiveType::Mat4x2 => seq!['m', 'a', 't', '4', 'x', '2'],
        PrimitiveType::Mat4x3 => seq!['m', 'a', 't', '4', 'x', '3'],
        PrimitiveType::DMat2 => seq!['d', 'm', 'a', 't', '2'],
        PrimitiveType::DMat3 => seq!['d', 'm', 'a', 't', '3'],
        PrimitiveType::DMat4 => seq!['d', 'm', 'a', 't', '4'],
        PrimitiveType::DMat2x3 => seq!['d', 'm', 'a', 't', '2', 'x', '3'],
        PrimitiveType::DMat2x4 => seq!['d', 'm', 'a', 't', '2', 'x', '4'],
        PrimitiveType::DMat3x2 => seq!['d', 'm', 'a', 't', '3', 'x', '2'],
        PrimitiveType::DMat3x4 => seq!['d', 'm', 'a', 't', '3', 'x', '4'],
        PrimitiveType::DMat4x2 => seq!['d', 'm', 'a', 't', '4', 'x', '2'],
        PrimitiveType::DMat4x3 => seq!['d', 'm', 'a', 't', '4', 'x', '3'],
    }
}

/// The built-in type spelled by `s`, if any.
pub open spec fn primitive_of(s: Seq<char>) -> Option<PrimitiveType> {
    if s == seq!['f', '3', '2'] {
        Some(PrimitiveType::F32)
    } else if s == seq!['f', '6', '4'] {
        Some(PrimitiveType::F64)
    } else if s == seq!['i', 'n', 't'] {
        Some(PrimitiveType::Int)
    } else if s == seq!['u', 'i', 'n', 't'] {
        Some(PrimitiveType::Uint)
    } else if s == seq!['b', 'o', 'o', 'l'] {
        Some(PrimitiveType::Bool)
    } else if s == seq!['v', 'e', 'c', '2'] {
        Some(PrimitiveType::Vec2)
    } else if s == seq!['v', 'e', 'c', '3'] {
        Some(PrimitiveType::Vec3)
    } else if s == seq!['v', 'e', 'c', '4'] {
        Some(PrimitiveType::Vec4)
    } else if s == seq!['i', 'v', 'e', 'c', '2'] {
        Some(PrimitiveType::IVec2)
    } else if s == seq!['i', 'v', 'e', 'c', '3'] {
        Some(PrimitiveType::IVec3)
    } else if s == seq!['i', 'v', 'e', 'c', '4'] {
        Some(PrimitiveType::IVec4)
    } else if s == seq!['d', 'v', 'e', 'c', '2'] {
        Some(PrimitiveType::DVec2)
    } else if s == seq!['d', 'v', 'e', 'c', '3'] {
        Some(PrimitiveType::DVec3)
    } else if s == seq!['d', 'v', 'e', 'c', '4'] {
        Some(PrimitiveType::DVec4)
    } else if s == seq!['b', 'v', 'e', 'c', '2'] {
        Some(PrimitiveType::BVec2)
    } else if s == seq!['b', 'v', 'e', 'c', '3'] {
        Some(PrimitiveType::BVec3)
    } else if s == seq!['b', 'v', 'e', 'c', '4'] {
        Some(PrimitiveType::BVec4)
    } else if s == seq!['u', 'v', 'e', 'c', '2'] {
        Some(PrimitiveType::UVec2)
    } else if s == seq!['u', 'v', 'e', 'c', '3'] {
        Some(PrimitiveType::UVec3)
    } else if s == seq!['u', 'v', 'e', 'c', '4'] {
        Some(PrimitiveType::UVec4)
    } else if s == seq!['m', 'a', 't', '2'] {
        Some(PrimitiveType::Mat2)
    } else if s == seq!['m', 'a', 't', '3'] {
        Some(PrimitiveType::Mat3)
    } else if s == seq!['m', 'a', 't', '4'] {
        Some(PrimitiveType::Mat4)
    } else if s == seq!['m', 'a', 't', '2', 'x', '3'] {
        Some(PrimitiveType::Mat2x3)
    } else if s == seq!['m', 'a', 't', '2', 'x', '4'] {
        Some(PrimitiveType::Mat2x4)
    } else if s == seq!['m', 'a', 't', '3', 'x', '2'] {
        Some(PrimitiveType::Mat3x2)
    } else if s == seq!['m', 'a', 't', '3', 'x', '4'] {
        Some(PrimitiveType::Mat3x4)
    } else if s == seq!['m', 'a', 't', '4', 'x', '2'] {
        Some(PrimitiveType::Mat4x2)
    } else if s == seq!['m', 'a', 't', '4', 'x', '3'] {
        Some(PrimitiveType::Mat4x3)
    } else if s == seq!['d', 'm', 'a', 't', '2'] {
        Some(PrimitiveType::DMat2)
    } else if s == seq!['d', 'm', 'a', 't', '3'] {
        Some(PrimitiveType::DMat3)
    } else if s == seq!['d', 'm', 'a', 't', '4'] {
        Some(PrimitiveType::DMat4)
    } else if s == seq!['d', 'm', 'a', 't', '2', 'x', '3'] {
        Some(PrimitiveType::DMat2x3)
    } else if s == seq!['d', 'm', 'a', 't', '2', 'x', '4'] {
        Some(PrimitiveType::DMat2x4)
    } else if s == seq!['d', 'm', 'a', 't', '3', 'x', '2'] {
        Some(PrimitiveType::DMat3x2)
    } else if s == seq!['d', 'm', 'a', 't', '3', 'x', '4'] {
        Some(PrimitiveType::DMat3x4)
    } else if s == seq!['d', 'm', 'a', 't', '4', 'x', '2'] {
        Some(PrimitiveType::DMat4x2)
    } else if s == seq!['d', 'm', 'a', 't', '4', 'x', '3'] {
        Some(PrimitiveType::DMat4x3)
    } else {
        None
    }
}

impl PrimitiveType {
    /// The characters of this type's name.
    pub fn text_chars(&self) -> (r: Vec<char>)
        ensures
            r@ == primitive_text(*self),
    {
        match self {
            PrimitiveType::F32 => vec!['f', '3', '2'],
            PrimitiveType::F64 => vec!['f', '6', '4'],
            PrimitiveType::Int => vec!['i', 'n', 't'],
            PrimitiveType::Uint => vec!['u', 'i', 'n', 't'],
            PrimitiveType::Bool => vec!['b', 'o', 'o', 'l'],
            PrimitiveType::Vec2 => vec!['v', 'e', 'c', '2'],
            PrimitiveType::Vec3 => vec!['v', 'e', 'c', '3'],
            PrimitiveType::Vec4 => vec!['v', 'e', 'c', '4'],
            PrimitiveType::IVec2 => vec!['i', 'v', 'e', 'c', '2'],
            PrimitiveType::IVec3 => vec!['i', 'v', 'e', 'c', '3'],
            PrimitiveType::IVec4 => vec!['i', 'v', 'e', 'c', '4'],
            PrimitiveType::DVec2 => vec!['d', 'v', 'e', 'c', '2'],
            PrimitiveType::DVec3 => vec!['d', 'v', 'e', 'c', '3'],
            PrimitiveType::DVec4 => vec!['d', 'v', 'e', 'c', '4'],
            PrimitiveType::BVec2 => vec!['b', 'v', 'e', 'c', '2'],
            PrimitiveType::BVec3 => vec!['b', 'v', 'e', 'c', '3'],
            PrimitiveType::BVec4 => vec!['b', 'v', 'e', 'c', '4'],
            PrimitiveType::UVec2 => vec!['u', 'v', 'e', 'c', '2'],
            PrimitiveType::UVec3 => vec!['u', 'v', 'e', 'c', '3'],
            PrimitiveType::UVec4 => vec!['u', 'v', 'e', 'c', '4'],
            PrimitiveType::Mat2 => vec!['m', 'a', 't', '2'],
            PrimitiveType::Mat3 => vec!['m', 'a', 't', '3'],
            PrimitiveType::Mat4 => vec!['m', 'a', 't', '4'],
            PrimitiveType::Mat2x3 => vec!['m', 'a', 't', '2', 'x', '3'],
            PrimitiveType::Mat2x4 => vec!['m', 'a', 't', '2', 'x', '4'],
            PrimitiveType::Mat3x2 => vec!['m', 'a', 't', '3', 'x', '2'],
            PrimitiveType::Mat3x4 => vec!['m', 'a', 't', '3', 'x', '4'],
            PrimitiveType::Mat4x2 => vec!['m', 'a', 't', '4', 'x', '2'],
            PrimitiveType::Mat4x3 => vec!['m', 'a', 't', '4', 'x', '3'],
            PrimitiveType::DMat2 => vec!['d', 'm', 'a', 't', '2'],
            PrimitiveType::DMat3 => vec!['d', 'm', 'a', 't', '3'],
            PrimitiveType::DMat4 => vec!['d', 'm', 'a', 't', '4'],
            PrimitiveType::DMat2x3 => vec!['d', 'm', 'a', 't', '2', 'x', '3'],
            PrimitiveType::DMat2x4 => vec!['d', 'm', 'a', 't', '2', 'x', '4'],
            PrimitiveType::DMat3x2 => vec!['d', 'm', 'a', 't', '3', 'x', '2'],
            PrimitiveType::DMat3x4 => vec!['d', 'm', 'a', 't', '3', 'x', '4'],
            PrimitiveType::DMat4x2 => vec!['d', 'm', 'a', 't', '4', 'x', '2'],
            PrimitiveType::DMat4x3 => vec!['d', 'm', 'a', 't', '4', 'x', '3'],
        }
    }

    /// Looks up the built-in type spelled by `s`.
    pub fn from_chars(s: &Vec<char>) -> (r: Option<PrimitiveType>)
        ensures
            r == primitive_of(s@),
    {
        if chars_eq(s, &vec!['f', '3', '2']) {
            return Some(PrimitiveType::F32);
        }
        if chars_eq(s, &vec!['f', '6', '4']) {
            return Some(PrimitiveType::F64);
        }
        if chars_eq(s, &vec!['i', 'n', 't']) {
            return Some(PrimitiveType::Int);
        }
        if chars_eq(s, &vec!['u', 'i', 'n', 't']) {
            return Some(PrimitiveType::Uint);
        }
        if chars_eq(s, &vec!['b', 'o', 'o', 'l']) {
            return Some(PrimitiveType::Bool);
        }
        if chars_eq(s, &vec!['v', 'e', 'c', '2']) {
            return Some(PrimitiveType::Vec2);
        }
        if chars_eq(s, &vec!['v', 'e', 'c', '3']) {
            return Some(PrimitiveType::Vec3);
        }
        if chars_eq(s, &vec!['v', 'e', 'c', '4']) {
            return Some(PrimitiveType::Vec4);
        }
        if chars_eq(s, &vec!['i', 'v', 'e', 'c', '2']) {
            return Some(PrimitiveType::IVec2);
        }
        if chars_eq(s, &vec!['i', 'v', 'e', 'c', '3']) {
            return Some(PrimitiveType::IVec3);
        }
        if chars_eq(s, &vec!['i', 'v', 'e', 'c', '4']) {
            return Some(PrimitiveType::IVec4);
        }
        if chars_eq(s, &vec!['d', 'v', 'e', 'c', '2']) {
            return Some(PrimitiveType::DVec2);
        }
        if chars_eq(s, &vec!['d', 'v', 'e', 'c', '3']) {
            return Some(PrimitiveType::DVec3);
        }
        if chars_eq(s, &vec!['d', 'v', 'e', 'c', '4']) {
            return Some(PrimitiveType::DVec4);
        }
        if chars_eq(s, &vec!['b', 'v', 'e', 'c', '2']) {
            return Some(PrimitiveType::BVec2);
        }
        if chars_eq(s, &vec!['b', 'v', 'e', 'c', '3']) {
            return Some(PrimitiveType::BVec3);
        }
        if chars_eq(s, &vec!['b', 'v', 'e', 'c', '4']) {
            return Some(PrimitiveType::BVec4);
        }
        if chars_eq(s, &vec!['u', 'v', 'e', 'c', '2']) {
            return Some(PrimitiveType::UVec2);
        }
        if chars_eq(s, &vec!['u', 'v', 'e', 'c', '3']) {
            return Some(PrimitiveType::UVec3);
        }
        if chars_eq(s, &vec!['u', 'v', 'e', 'c', '4']) {
            return Some(PrimitiveType::UVec4);
        }
        if chars_eq(s, &vec!['m', 'a', 't', '2']) {
            return Some(PrimitiveType::Mat2);
        }
        if chars_eq(s, &vec!['m', 'a', 't', '3']) {
            return Some(PrimitiveType::Mat3);
        }
        if chars_eq(s, &vec!['m', 'a', 't', '4']) {
            return Some(PrimitiveType::Mat4);
        }
        if chars_eq(s, &vec!['m', 'a', 't', '2', 'x', '3']) {
            return Some(PrimitiveType::Mat2x3);
        }
        if chars_eq(s, &vec!['m', 'a', 't', '2', 'x', '4']) {
            return Some(PrimitiveType::Mat2x4);
        }
        if chars_eq(s, &vec!['m', 'a', 't', '3', 'x', '2']) {
            return Some(PrimitiveType::Mat3x2);
        }
        if chars_eq(s, &vec!['m', 'a', 't', '3', 'x', '4']) {
            return Some(PrimitiveType::Mat3x4);
        }
        if chars_eq(s, &vec!['m', 'a', 't', '4', 'x', '2']) {
            return Some(PrimitiveType::Mat4x2);
        }
        if chars_eq(s, &vec!['m', 'a', 't', '4', 'x', '3']) {
            return Some(PrimitiveType::Mat4x3);
        }
        if chars_eq(s, &vec!['d', 'm', 'a', 't', '2']) {
            return Some(PrimitiveType::DMat2);
        }
        if chars_eq(s, &vec!['d', 'm', 'a', 't', '3']) {
            return Some(PrimitiveType::DMat3);
        }
        if chars_eq(s, &vec!['d', 'm', 'a', 't', '4']) {
            return Some(PrimitiveType::DMat4);
        }
        if chars_eq(s, &vec!['d', 'm', 'a', 't', '2', 'x', '3']) {
            return Some(PrimitiveType::DMat2x3);
        }
        if chars_eq(s, &vec!['d', 'm', 'a', 't', '2', 'x', '4']) {
            return Some(PrimitiveType::DMat2x4);
        }
        if chars_eq(s, &vec!['d', 'm', 'a', 't', '3', 'x', '2']) {
            return Some(PrimitiveType::DMat3x2);
        }
        if chars_eq(s, &vec!['d', 'm', 'a', 't', '3', 'x', '4']) {
            return Some(PrimitiveType::DMat3x4);
        }
        if chars_eq(s, &vec!['d', 'm', 'a', 't', '4', 'x', '2']) {
            return Some(PrimitiveType::DMat4x2);
        }
        if chars_eq(s, &vec!['d', 'm', 'a', 't', '4', 'x', '3']) {
            return Some(PrimitiveType::DMat4x3);
        }
        None
    }
}

/// Reading a built-in type's spelling gives back that type.
#[verifier::spinoff_prover]
#[verifier::rlimit(80)]
pub proof fn law_primitive_spelling(p: PrimitiveType)
    ensures
        primitive_of(primitive_text(p)) == Some(p),
{
    match p {
        PrimitiveType::F32 => {
            assert(primitive_of(seq!['f', '3', '2']) == Some(PrimitiveType::F32)) by {
                let t = seq!['f', '3', '2'];
                assert(t.len() == 3 && t[0] == 'f' && t[1] == '3' && t[2] == '2');
            };
        },
        PrimitiveType::F64 => {
            assert(primitive_of(seq!['f', '6', '4']) == Some(PrimitiveType::F64)) by {
                let t = seq!['f', '6', '4'];
                assert(t.len() == 3 && t[0] == 'f' && t[1] == '6' && t[2] == '4');
            };
        },
        PrimitiveType::Int => {
            assert(primitive_of(seq!['i', 'n', 't']) == Some(PrimitiveType::Int)) by {
                let t = seq!['i', 'n', 't'];
                assert(t.len() == 3 && t[0] == 'i' && t[1] == 'n' && t[2] == 't');
            };
        },
        PrimitiveType::Uint => {
            assert(primitive_of(seq!['u', 'i', 'n', 't']) == Some(PrimitiveType::Uint)) by {
                let t = seq!['u', 'i', 'n', 't'];
                assert(t.len() == 4 && t[0] == 'u' && t[1] == 'i' && t[2] == 'n' && t[3] == 't');
            };
        },
        PrimitiveType::Bool => {
            assert(primitive_of(seq!['b', 'o', 'o', 'l']) == Some(PrimitiveType::Bool)) by {
                let t = seq!['b', 'o', 'o', 'l'];
                assert(t.len() == 4 && t[0] == 'b' && t[1] == 'o' && t[2] == 'o' && t[3] == 'l');
            };
        },
        PrimitiveType::Vec2 => {
            assert(primitive_of(seq!['v', 'e', 'c', '2']) == Some(PrimitiveType::Vec2)) by {
                let t = seq!['v', 'e', 'c', '2'];
                assert(t.len() == 4 && t[0] == 'v' && t[1] == 'e' && t[2] == 'c' && t[3] == '2');
            };
        },
        PrimitiveType::Vec3 => {
            assert(primitive_of(seq!['v', 'e', 'c', '3']) == Some(PrimitiveType::Vec3)) by {
                let t = seq!['v', 'e', 'c', '3'];
                assert(t.len() == 4 && t[0] == 'v' && t[1] == 'e' && t[2] == 'c' && t[3] == '3');
            };
        },
        PrimitiveType::Vec4 => {
            assert(primitive_of(seq!['v', 'e', 'c', '4']) == Some(PrimitiveType::Vec4)) by {
                let t = seq!['v', 'e', 'c', '4'];
                assert(t.len() == 4 && t[0] == 'v' && t[1] == 'e' && t[2] == 'c' && t[3] == '4');
            };
        },
        PrimitiveType::IVec2 => {
            assert(primitive_of(seq!['i', 'v', 'e', 'c', '2']) == Some(PrimitiveType::IVec2)) by {
                let t = seq!['i', 'v', 'e', 'c', '2'];
                assert(t.len() == 5 && t[0] == 'i' && t[1] == 'v' && t[2] == 'e' && t[3] == 'c' && t[4] == '2');
            };
        },
        PrimitiveType::IVec3 => {
            assert(primitive_of(seq!['i', 'v', 'e', 'c', '3']) == Some(PrimitiveType::IVec3)) by {
                let t = seq!['i', 'v', 'e', 'c', '3'];
                assert(t.len() == 5 && t[0] == 'i' && t[1] == 'v' && t[2] == 'e' && t[3] == 'c' && t[4] == '3');
            };
        },
        PrimitiveType::IVec4 => {
            assert(primitive_of(seq!['i', 'v', 'e', 'c', '4']) == Some(PrimitiveType::IVec4)) by {
                let t = seq!['i', 'v', 'e', 'c', '4'];
                assert(t.len() == 5 && t[0] == 'i' && t[1] == 'v' && t[2] == 'e' && t[3] == 'c' && t[4] == '4');
            };
        },
        PrimitiveType::DVec2 => {
            assert(primitive_of(seq!['d', 'v', 'e', 'c', '2']) == Some(PrimitiveType::DVec2)) by {
                let t = seq!['d', 'v', 'e', 'c', '2'];
                assert(t.len() == 5 && t[0] == 'd' && t[1] == 'v' && t[2] == 'e' && t[3] == 'c' && t[4] == '2');
            };
        },
        PrimitiveType::DVec3 => {
            assert(primitive_of(seq!['d', 'v', 'e', 'c', '3']) == Some(PrimitiveType::DVec3)) by {
                let t = seq!['d', 'v', 'e', 'c', '3'];
                assert(t.len() == 5 && t[0] == 'd' && t[1] == 'v' && t[2] == 'e' && t[3] == 'c' && t[4] == '3');
            };
        },
        PrimitiveType::DVec4 => {
            assert(primitive_of(seq!['d', 'v', 'e', 'c', '4']) == Some(PrimitiveType::DVec4)) by {
                let t = seq!['d', 'v', 'e', 'c', '4'];
                assert(t.len() == 5 && t[0] == 'd' && t[1] == 'v' && t[2] == 'e' && t[3] == 'c' && t[4] == '4');
            };
        },
        PrimitiveType::BVec2 => {
            assert(primitive_of(seq!['b', 'v', 'e', 'c', '2']) == Some(PrimitiveType::BVec2)) by {
                let t = seq!['b', 'v', 'e', 'c', '2'];
                assert(t.len() == 5 && t[0] == 'b' && t[1] == 'v' && t[2] == 'e' && t[3] == 'c' && t[4] == '2');
            };
        },
        PrimitiveType::BVec3 => {
            assert(primitive_of(seq!['b', 'v', 'e', 'c', '3']) == Some(PrimitiveType::BVec3)) by {
                let t = seq!['b', 'v', 'e', 'c', '3'];
                assert(t.len() == 5 && t[0] == 'b' && t[1] == 'v' && t[2] == 'e' && t[3] == 'c' && t[4] == '3');
            };
        },
        PrimitiveType::BVec4 => {
            assert(primitive_of(seq!['b', 'v', 'e', 'c', '4']) == Some(PrimitiveType::BVec4)) by {
                let t = seq!['b', 'v', 'e', 'c', '4'];
                assert(t.len() == 5 && t[0] == 'b' && t[1] == 'v' && t[2] == 'e' && t[3] == 'c' && t[4] == '4');
            };
        },
        PrimitiveType::UVec2 => {
            assert(primitive_of(seq!['u', 'v', 'e', 'c', '2']) == Some(PrimitiveType::UVec2)) by {
                let t = seq!['u', 'v', 'e', 'c', '2'];
                assert(t.len() == 5 && t[0] == 'u' && t[1] == 'v' && t[2] == 'e' && t[3] == 'c' && t[4] == '2');
            };
        },
        PrimitiveType::UVec3 => {
            assert(primitive_of(seq!['u', 'v', 'e', 'c', '3']) == Some(PrimitiveType::UVec3)) by {
                let t = seq!['u', 'v', 'e', 'c', '3'];
                assert(t.len() == 5 && t[0] == 'u' && t[1] == 'v' && t[2] == 'e' && t[3] == 'c' && t[4] == '3');
            };
        },
        PrimitiveType::UVec4 => {
            assert(primitive_of(seq!['u', 'v', 'e', 'c', '4']) == Some(PrimitiveType::UVec4)) by {
                let t = seq!['u', 'v', 'e', 'c', '4'];
                assert(t.len() == 5 && t[0] == 'u' && t[1] == 'v' && t[2] == 'e' && t[3] == 'c' && t[4] == '4');
            };
        },
        PrimitiveType::Mat2 => {
            assert(primitive_of(seq!['m', 'a', 't', '2']) == Some(PrimitiveType::Mat2)) by {
                let t = seq!['m', 'a', 't', '2'];
                assert(t.len() == 4 && t[0] == 'm' && t[1] == 'a' && t[2] == 't' && t[3] == '2');
            };
        },
        PrimitiveType::Mat3 => {
            assert(primitive_of(seq!['m', 'a', 't', '3']) == Some(PrimitiveType::Mat3)) by {
                let t = seq!['m', 'a', 't', '3'];
                assert(t.len() == 4 && t[0] == 'm' && t[1] == 'a' && t[2] == 't' && t[3] == '3');
            };
        },
        PrimitiveType::Mat4 => {
            assert(primitive_of(seq!['m', 'a', 't', '4']) == Some(PrimitiveType::Mat4)) by {
                let t = seq!['m', 'a', 't', '4'];
                assert(t.len() == 4 && t[0] == 'm' && t[1] == 'a' && t[2] == 't' && t[3] == '4');
            };
        },
        PrimitiveType::Mat2x3 => {
            assert(primitive_of(seq!['m', 'a', 't', '2', 'x', '3']) == Some(PrimitiveType::Mat2x3)) by {
                let t = seq!['m', 'a', 't', '2', 'x', '3'];
                assert(t.len() == 6 && t[0] == 'm' && t[1] == 'a' && t[2] == 't' && t[3] == '2' && t[4] == 'x' && t[5] == '3');
            };
        },
        PrimitiveType::Mat2x4 => {
            assert(primitive_of(seq!['m', 'a', 't', '2', 'x', '4']) == Some(PrimitiveType::Mat2x4)) by {
                let t = seq!['m', 'a', 't', '2', 'x', '4'];
                assert(t.len() == 6 && t[0] == 'm' && t[1] == 'a' && t[2] == 't' && t[3] == '2' && t[4] == 'x' && t[5] == '4');
            };
        },
        PrimitiveType::Mat3x2 => {
            assert(primitive_of(seq!['m', 'a', 't', '3', 'x', '2']) == Some(PrimitiveType::Mat3x2)) by {
                let t = seq!['m', 'a', 't', '3', 'x', '2'];
                assert(t.len() == 6 && t[0] == 'm' && t[1] == 'a' && t[2] == 't' && t[3] == '3' && t[4] == 'x' && t[5] == '2');
            };
        },
        PrimitiveType::Mat3x4 => {
            assert(primitive_of(seq!['m', 'a', 't', '3', 'x', '4']) == Some(PrimitiveType::Mat3x4)) by {
                let t = seq!['m', 'a', 't', '3', 'x', '4'];
                assert(t.len() == 6 && t[0] == 'm' && t[1] == 'a' && t[2] == 't' && t[3] == '3' && t[4] == 'x' && t[5] == '4');
            };
        },
        PrimitiveType::Mat4x2 => {
            assert(primitive_of(seq!['m', 'a', 't', '4', 'x', '2']) == Some(PrimitiveType::Mat4x2)) by {
                let t = seq!['m', 'a', 't', '4', 'x', '2'];
                assert(t.len() == 6 && t[0] == 'm' && t[1] == 'a' && t[2] == 't' && t[3] == '4' && t[4] == 'x' && t[5] == '2');
            };
        },
        PrimitiveType::Mat4x3 => {
            assert(primitive_of(seq!['m', 'a', 't', '4', 'x', '3']) == Some(PrimitiveType::Mat4x3)) by {
                let t = seq!['m', 'a', 't', '4', 'x', '3'];
                assert(t.len() == 6 && t[0] == 'm' && t[1] == 'a' && t[2] == 't' && t[3] == '4' && t[4] == 'x' && t[5] == '3');
            };
        },
        PrimitiveType::DMat2 => {
            assert(primitive_of(seq!['d', 'm', 'a', 't', '2']) == Some(PrimitiveType::DMat2)) by {
                let t = seq!['d', 'm', 'a', 't', '2'];
                assert(t.len() == 5 && t[0] == 'd' && t[1] == 'm' && t[2] == 'a' && t[3] == 't' && t[4] == '2');
            };
        },
        PrimitiveType::DMat3 => {
            assert(primitive_of(seq!['d', 'm', 'a', 't', '3']) == Some(PrimitiveType::DMat3)) by {
                let t = seq!['d', 'm', 'a', 't', '3'];
                assert(t.len() == 5 && t[0] == 'd' && t[1] == 'm' && t[2] == 'a' && t[3] == 't' && t[4] == '3');
            };
        },
        PrimitiveType::DMat4 => {
            assert(primitive_of(seq!['d', 'm', 'a', 't', '4']) == Some(PrimitiveType::DMat4)) by {
                let t = seq!['d', 'm', 'a', 't', '4'];
                assert(t.len() == 5 && t[0] == 'd' && t[1] == 'm' && t[2] == 'a' && t[3] == 't' && t[4] == '4');
            };
        },
        PrimitiveType::DMat2x3 => {
            assert(primitive_of(seq!['d', 'm', 'a', 't', '2', 'x', '3']) == Some(PrimitiveType::DMat2x3)) by {
                let t = seq!['d', 'm', 'a', 't', '2', 'x', '3'];
                assert(t.len() == 7 && t[0] == 'd' && t[1] == 'm' && t[2] == 'a' && t[3] == 't' && t[4] == '2' && t[5] == 'x' && t[6] == '3');
            };
        },
        PrimitiveType::DMat2x4 => {
            assert(primitive_of(seq!['d', 'm', 'a', 't', '2', 'x', '4']) == Some(PrimitiveType::DMat2x4)) by {
                let t = seq!['d', 'm', 'a', 't', '2', 'x', '4'];
                assert(t.len() == 7 && t[0] == 'd' && t[1] == 'm' && t[2] == 'a' && t[3] == 't' && t[4] == '2' && t[5] == 'x' && t[6] == '4');
            };
        },
        PrimitiveType::DMat3x2 => {
            assert(primitive_of(seq!['d', 'm', 'a', 't', '3', 'x', '2']) == Some(PrimitiveType::DMat3x2)) by {
                let t = seq!['d', 'm', 'a', 't', '3', 'x', '2'];
                assert(t.len() == 7 && t[0] == 'd' && t[1] == 'm' && t[2] == 'a' && t[3] == 't' && t[4] == '3' && t[5] == 'x' && t[6] == '2');
            };
        },
        PrimitiveType::DMat3x4 => {
            assert(primitive_of(seq!['d', 'm', 'a', 't', '3', 'x', '4']) == Some(PrimitiveType::DMat3x4)) by {
                let t = seq!['d', 'm', 'a', 't', '3', 'x', '4'];
                assert(t.len() == 7 && t[0] == 'd' && t[1] == 'm' && t[2] == 'a' && t[3] == 't' && t[4] == '3' && t[5] == 'x' && t[6] == '4');
            };
        },
        PrimitiveType::DMat4x2 => {
            assert(primitive_of(seq!['d', 'm', 'a', 't', '4', 'x', '2']) == Some(PrimitiveType::DMat4x2)) by {
                let t = seq!['d', 'm', 'a', 't', '4', 'x', '2'];
                assert(t.len() == 7 && t[0] == 'd' && t[1] == 'm' && t[2] == 'a' && t[3] == 't' && t[4] == '4' && t[5] == 'x' && t[6] == '2');
            };
        },
        PrimitiveType::DMat4x3 => {
            assert(primitive_of(seq!['d', 'm', 'a', 't', '4', 'x', '3']) == Some(PrimitiveType::DMat4x3)) by {
                let t = seq!['d', 'm', 'a', 't', '4', 'x', '3'];
                assert(t.len() == 7 && t[0] == 'd' && t[1] == 'm' && t[2] == 'a' && t[3] == 't' && t[4] == '4' && t[5] == 'x' && t[6] == '3');
            };
        },
    }
}

/// A name with the position it was written at.
#[derive(Clone, Debug)]
pub struct Ident {
    pub val: String,
    pub tkn: TokCtx,
}

/// Identifies a scope of the scope tree.
pub type ScopeId = usize;

/// Identifies a declared symbol.
pub type SymbolId = u64;

// ---------------------------------------------------------------------------
// Types
// ---------------------------------------------------------------------------

/// A type as written.
#[derive(Debug)]
pub enum Type {
    Primitive(PrimitiveType, TokCtx),
    SingleType(SingleType),
    PathType(PathType),
    ArrayOf(ArrayType),
    StructDef(StructType),
    TupleOf(TupleType),
}

/// A type named by one identifier that is not a built-in type.
#[derive(Debug)]
pub struct SingleType {
    pub name: String,
    pub tkn: TokCtx,
}

/// A type named by a dotted path, such as `a.b.C`.
#[derive(Debug)]
pub struct PathType {
    pub path_parts: Vec<Ident>,
    pub dot_tkns: Vec<TokCtx>,
    pub name: Ident,
}

/// An array of a component type, with an optional length expression.
#[derive(Debug)]
pub struct ArrayType {
    pub component: Box<Type>,
    pub brack1_tkn: TokCtx,
    pub dimension: Option<Box<Expr>>,
    pub brack2_tkn: TokCtx,
}

/// A structure declared in place of a type.
#[derive(Debug)]
pub struct StructType {
    pub inner: Box<StructStmt>,
}

/// A tuple of types, each with the comma after it if any.
#[derive(Debug)]
pub struct TupleType {
    pub paren1_tok: TokCtx,
    pub types: Vec<(Type, Option<TokCtx>)>,
    pub paren2_tok: TokCtx,
}

// ---------------------------------------------------------------------------
// Expressions
// ---------------------------------------------------------------------------

/// An expression.
#[derive(Debug)]
pub enum Expr {
    Unary(UnaryExpr),
    Binary(BinExpr),
    FnCall(FnCallExpr),
    Access(AccessExpr),
    Variable(VarExpr),
    Literal(LitExpr),
    Index(IndexExpr),
    Ternary(TernaryExpr),
    PreFix(PreFixExpr),
    PostFix(PostFixExpr),
    Tuple(TupleExpr),
    Array(ArrayExpr),
    Block(BlockExpr),
    Assign(AssignExpr),
    Nonuniform(NonuniformExpr),
    TupleAccess(TupleAccessExpr),
    AccessFnCall(AccessFnCallExpr),
    This(ThisExpr),
    As(AsExpr),
    Construct(ConstructExpr),
}

#[derive(Debug)]
pub struct UnaryExpr {
    pub op: Operator,
    pub op_tkn: TokCtx,
    pub expr: Box<Expr>,
}

#[derive(Debug)]
pub struct BinExpr {
    pub lhs: Box<Expr>,
    pub op: Operator,
    pub op_tkn: TokCtx,
    pub rhs: Box<Expr>,
}

#[derive(Debug)]
pub struct FnCallExpr {
    pub ident: Ident,
    pub open_tkn: TokCtx,
    pub args: Vec<(Expr, Option<TokCtx>)>,
    pub close_tkn: TokCtx,
}

#[derive(Debug)]
pub struct AccessExpr {
    pub parent: Box<Expr>,
    pub dot_tkn: TokCtx,
    pub child: Ident,
}

#[derive(Debug)]
pub struct VarExpr {
    pub ident: Ident,
}

#[derive(Debug)]
pub struct LitExpr {
    pub lit: Literal,
    pub lit_tkn: TokCtx,
}

#[derive(Debug)]
pub struct IndexExpr {
    pub array: Box<Expr>,
    pub open_tkn: TokCtx,
    pub index: Box<Expr>,
    pub close_tkn: TokCtx,
}

#[derive(Debug)]
pub struct TernaryExpr {
    pub cond: Box<Expr>,
    pub question_tkn: TokCtx,
    pub yes: Box<Expr>,
    pub colon_tkn: TokCtx,
    pub no: Box<Expr>,
}

#[derive(Debug)]
pub struct PreFixExpr {
    pub op: Operator,
    pub op_tkn: TokCtx,
    pub expr: Box<Expr>,
}

#[derive(Debug)]
pub struct PostFixExpr {
    pub op: Operator,
    pub op_tkn: TokCtx,
    pub expr: Box<Expr>,
}

#[derive(Debug)]
pub struct TupleExpr {
    pub open_tkn: TokCtx,
    pub args: Vec<(Expr, Option<TokCtx>)>,
    pub close_tkn: TokCtx,
}

#[derive(Debug)]
pub struct ArrayExpr {
    pub open_tkn: TokCtx,
    pub args: Vec<(Expr, Option<TokCtx>)>,
    pub close_tkn: TokCtx,
}

#[derive(Debug)]
pub struct BlockExpr {
    pub open_tkn: TokCtx,
    pub block: Vec<Stmt>,
    pub close_tkn: TokCtx,
    pub fut_scope: Option<ScopeId>,
}

#[derive(Debug)]
pub struct AssignExpr {
    pub lhs: Box<Expr>,
    pub eq_tkn: TokCtx,
    pub rhs: Box<Expr>,
}

#[derive(Debug)]
pub struct NonuniformExpr {
    pub nonuniform_tkn: TokCtx,
    pub expr: Box<Expr>,
}

#[derive(Debug)]
pub struct TupleAccessExpr {
    pub tuple: Box<Expr>,
    pub component: u32,
}

#[derive(Debug)]
pub struct AccessFnCallExpr {
    pub parent: Box<Expr>,
    pub ident: Ident,
    pub open_tkn: TokCtx,
    pub args: Vec<(Expr, Option<TokCtx>)>,
    pub close_tkn: TokCtx,
}

#[derive(Debug)]
pub struct ThisExpr {
    pub this_tkn: TokCtx,
}

#[derive(Debug)]
pub struct AsExpr {
    pub expr: Box<Expr>,
    pub as_tkn: TokCtx,
    pub ty: Type,
}

#[derive(Debug)]
pub struct ConstructExpr {
    pub name: Ident,
    pub brace1_tkn: TokCtx,
    pub fields: Vec<(FieldInit, Option<TokCtx>)>,
    pub brace2_tkn: TokCtx,
}

/// `name: expr` inside a structure construction.
#[derive(Debug)]
pub struct FieldInit {
    pub name: Ident,
    pub colon_tkn: TokCtx,
    pub expr: Box<Expr>,
}

// ---------------------------------------------------------------------------
// Statements
// ---------------------------------------------------------------------------

/// A statement or declaration.
#[derive(Debug)]
pub enum Stmt {
    If(IfStmt),
    For(ForStmt),
    While(WhileStmt),
    MethodDecl(MethodDeclStmt),
    VarDecl(VarDeclStmt),
    Return(ReturnStmt),
    Yield(YieldStmt),
    Break(BreakStmt),
    Continue(ContinueStmt),
    Include(IncludeStmt),
    Extension(ExtensionStmt),
    Input(InputStmt),
    Output(OutputStmt),
    Provide(ProvideStmt),
    PushConstants(PushConstantsStmt),
    Uniform(UniformStmt),
    Struct(StructStmt),
    Block(BlockStmt),
    Compound(CompoundStmt),
    Expr(ExprStmt),
    Semi(SemiStmt),
}

/// Which kind of resource a uniform declaration makes.
#[derive(Copy, Clone, Debug, PartialEq, Eq, Structural)]
pub enum UniformType {
    Uniform,
    SSBO,
    UBO,
}

#[derive(Debug)]
pub struct BreakStmt {
    pub break_tkn: TokCtx,
}

#[derive(Debug)]
pub struct ContinueStmt {
    pub continue_tkn: TokCtx,
}

#[derive(Debug)]
pub struct IfStmt {
    pub if_tkn: TokCtx,
    pub l_paren: TokCtx,
    pub cond: Expr,
    pub r_paren: TokCtx,
    pub branch: Box<Stmt>,
    pub else_tkn: Option<TokCtx>,
    pub else_branch: Option<Box<Stmt>>,
}

#[derive(Debug)]
pub struct ForStmt {
    pub for_tkn: TokCtx,
    pub l_paren: TokCtx,
    pub start_cond: Option<Expr>,
    pub semi1_tkn: TokCtx,
    pub cond: Option<Expr>,
    pub semi2_tkn: TokCtx,
    pub after_run: Option<Expr>,
    pub r_paren: TokCtx,
    pub block: Box<Stmt>,
    pub fut_scope: Option<ScopeId>,
}

#[derive(Debug)]
pub struct WhileStmt {
    pub while_tkn: TokCtx,
    pub l_paren: TokCtx,
    pub cond: Expr,
    pub r_paren: TokCtx,
    pub block: Box<Stmt>,
}

#[derive(Debug)]
pub struct MethodDeclStmt {
    pub fn_tkn: TokCtx,
    pub name: Ident,
    pub l_paren: TokCtx,
    pub params: Vec<MethodParamDecl>,
    pub r_paren: TokCtx,
    pub arrow_tkn: Option<TokCtx>,
    pub return_type: Option<Type>,
    pub block: Box<Stmt>,
    pub symbol_id: Option<SymbolId>,
    pub fut_scope: Option<ScopeId>,
}

#[derive(Debug)]
pub struct MethodParamDecl {
    pub name: Ident,
    pub colon_tkn: TokCtx,
    pub ty: Type,
    pub comma_tkn: Option<TokCtx>,
}

/// A `let` or `const` declaration of one name.
#[derive(Debug)]
pub struct VarDeclStmt {
    pub kw_tkn: TokCtx,
    pub name: Ident,
    pub colon_tkn: Option<TokCtx>,
    pub ty: Option<Type>,
    pub eq_tkn: Option<TokCtx>,
    pub init: Option<Expr>,
    pub semi_tkn: TokCtx,
    pub cnst: bool,
}

#[derive(Debug)]
pub struct ReturnStmt {
    pub return_tkn: TokCtx,
    pub expr: Option<Expr>,
    pub semi_tkn: TokCtx,
}

#[derive(Debug)]
pub struct YieldStmt {
    pub yield_tkn: TokCtx,
    pub expr: Expr,
    pub semi_tkn: TokCtx,
}

#[derive(Debug)]
pub struct IncludeStmt {
    pub include_tkn: TokCtx,
    pub path: Type,
    pub semi_tkn: TokCtx,
}

#[derive(Debug)]
pub struct ExtensionStmt {
    pub mods: ResMods,
    pub extension: Ident,
    pub semi_tkn: TokCtx,
}

#[derive(Debug)]
pub struct InputStmt {
    pub input_tkn: TokCtx,
    pub ty: Type,
    pub colon_tkn: TokCtx,
    pub name: Ident,
    pub mods: ResMods,
    pub semi_tkn: TokCtx,
}

#[derive(Debug)]
pub struct OutputStmt {
    pub output_tkn: TokCtx,
    pub ty: Type,
    pub name: Ident,
    pub semi_tkn: TokCtx,
}

#[derive(Debug)]
pub struct ProvideStmt {
    pub provide_tkn: TokCtx,
    pub ty: Type,
    pub colon_tkn: TokCtx,
    pub name: Ident,
    pub mods: ResMods,
    pub semi_tkn: TokCtx,
}

#[derive(Debug)]
pub struct PushConstantsStmt {
    pub pc_tkn: TokCtx,
    pub name: Ident,
    pub colon_tkn: TokCtx,
    pub ty: Type,
    pub semi_tkn: TokCtx,
}

#[derive(Debug)]
pub struct UniformStmt {
    pub uniform_tkn: TokCtx,
    pub name: Ident,
    pub colon_tkn: TokCtx,
    pub ty: Type,
    pub set_tkn: TokCtx,
    pub set_eq_tkn: TokCtx,
    pub set_lit_tkn: TokCtx,
    pub set: u32,
    pub binding_tkn: TokCtx,
    pub binding_eq_tkn: TokCtx,
    pub binding_lit_tkn: TokCtx,
    pub binding: u32,
    pub mods: ResMods,
    pub uniform_type: UniformType,
    pub semi_tkn: TokCtx,
}

#[derive(Debug)]
pub struct StructStmt {
    pub struct_tkn: TokCtx,
    pub name: Ident,
    pub brace1_tkn: TokCtx,
    pub fields: Vec<StructField>,
    pub methods: Vec<MethodDeclStmt>,
    pub brace2_tkn: TokCtx,
    pub symbol_id: Option<SymbolId>,
    pub fut_scope: Option<ScopeId>,
}

#[derive(Debug)]
pub struct StructField {
    pub name: Ident,
    pub colon_tkn: TokCtx,
    pub ty: Type,
    pub semi_tkn: TokCtx,
}

#[derive(Debug)]
pub struct BlockStmt {
    pub l_brace: TokCtx,
    pub stmts: Vec<Stmt>,
    pub r_brace: TokCtx,
    pub fut_scope: Option<ScopeId>,
}

/// Several declarations written as one, such as `let a, b;`.
#[derive(Debug)]
pub struct CompoundStmt {
    pub components: Vec<Stmt>,
}

#[derive(Debug)]
pub struct ExprStmt {
    pub expr: Expr,
    pub semi_tkn: TokCtx,
}

#[derive(Debug)]
pub struct SemiStmt {
    pub semi_tkn: TokCtx,
}

} // verus!
