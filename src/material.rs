//! The flag word of the PBR material uniform: one bit per optional texture
//! or mode that the shader has to take into account.
use vstd::prelude::*;

verus! {

pub const ALPHA_MODE_MASK: u32 = 1;
pub const ALPHA_MODE_OPAQUE: u32 = 2;
pub const DIFFUSE_TEXTURE: u32 = 4;
pub const DOUBLE_SIDED: u32 = 8;
pub const EMISSION_TEXTURE: u32 = 16;
pub const METAL_TEXTURE: u32 = 32;
pub const OCCLUSION_TEXTURE: u32 = 64;

/// How a material's alpha channel is used, as far as the flag word tells.
#[derive(Clone, Copy, Debug, PartialEq, Eq, Structural)]
pub enum AlphaKind {
    Opaque,
    Mask,
    /// Any blended or otherwise composited mode: no alpha bit is set.
    Other,
}

/// What a material has, as the flag word reports it.
#[derive(Clone, Copy, Debug, PartialEq, Eq, Structural)]
pub struct MaterialFeatures {
    pub diffuse_texture: bool,
    pub emission_texture: bool,
    pub metal_texture: bool,
    pub occlusion_texture: bool,
    pub double_sided: bool,
    pub alpha: AlphaKind,
}

/// `bit` when `c` holds, else 0.
pub open spec fn bit_if(c: bool, bit: u32) -> int {
    if c {
        bit as int
    } else {
        0
    }
}

/// The flag word of `m`: the sum (equally, since the bits are distinct, the
/// bitwise or) of the bits of the features it has.
pub open spec fn flag_word(m: MaterialFeatures) -> int {
    bit_if(m.diffuse_texture, DIFFUSE_TEXTURE) + bit_if(m.emission_texture, EMISSION_TEXTURE)
        + bit_if(m.metal_texture, METAL_TEXTURE) + bit_if(m.occlusion_texture, OCCLUSION_TEXTURE)
        + bit_if(m.double_sided, DOUBLE_SIDED) + bit_if(m.alpha == AlphaKind::Opaque, ALPHA_MODE_OPAQUE)
        + bit_if(m.alpha == AlphaKind::Mask, ALPHA_MODE_MASK)
}

/// The flag word that the material uniform carries for `m`.
pub fn material_flags(m: &MaterialFeatures) -> (r: u32)
    ensures
        r == flag_word(*m),
{
    let mut flags: u32 = 0;
    if m.diffuse_texture {
        flags = flags + DIFFUSE_TEXTURE;
    }
    if m.emission_texture {
        flags = flags + EMISSION_TEXTURE;
    }
    if m.metal_texture {
        flags = flags + METAL_TEXTURE;
    }
    if m.occlusion_texture {
        flags = flags + OCCLUSION_TEXTURE;
    }
    if m.double_sided {
        flags = flags + DOUBLE_SIDED;
    }
    match m.alpha {
        AlphaKind::Opaque => flags = flags + ALPHA_MODE_OPAQUE,
        AlphaKind::Mask => flags = flags + ALPHA_MODE_MASK,
        AlphaKind::Other => {},
    }
    flags
}

} // verus!
