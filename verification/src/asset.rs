//! The asset kinds the naming-convention classification distinguishes.

use vstd::prelude::*;

use crate::blender::BlenderData;
use crate::texture::{TextureData, TextureType};

verus! {

/// What a file was classified as.
#[derive(Hash, Debug, Eq, PartialEq, Clone)]
pub enum Asset {
    Blender(BlenderData),
    Texture(TextureData),
    HighPoly,
    LowPoly,
    GameReady,
    SubstancePainter,
    SubstanceDesigner,
    HandPlaneSettings,
    Autosaved,
    ReferenceImage,
    Other,
}

/// Mathematical value of an [`Asset`]: the same shape with every string
/// replaced by its characters.
pub enum AssetView {
    Blender(Seq<char>, bool, Seq<char>),
    Texture(TextureType, Seq<char>, Seq<char>),
    HighPoly,
    LowPoly,
    GameReady,
    SubstancePainter,
    SubstanceDesigner,
    HandPlaneSettings,
    Autosaved,
    ReferenceImage,
    Other,
}

impl View for Asset {
    type V = AssetView;

    open spec fn view(&self) -> AssetView {
        match self {
            Asset::Blender(b) => AssetView::Blender(b.name@, b.is_backup, b.full_path@),
            Asset::Texture(t) => AssetView::Texture(t.tex_type, t.name@, t.extension@),
            Asset::HighPoly => AssetView::HighPoly,
            Asset::LowPoly => AssetView::LowPoly,
            Asset::GameReady => AssetView::GameReady,
            Asset::SubstancePainter => AssetView::SubstancePainter,
            Asset::SubstanceDesigner => AssetView::SubstanceDesigner,
            Asset::HandPlaneSettings => AssetView::HandPlaneSettings,
            Asset::Autosaved => AssetView::Autosaved,
            Asset::ReferenceImage => AssetView::ReferenceImage,
            Asset::Other => AssetView::Other,
        }
    }
}

/// Whether two assets carry the same classification.
pub fn asset_eq(a: &Asset, b: &Asset) -> (r: bool)
    ensures
        r == (a@ == b@),
{
    match (a, b) {
        (Asset::Blender(x), Asset::Blender(y)) => crate::pathname::str_eq(
            x.name.as_str(),
            y.name.as_str(),
        ) && x.is_backup == y.is_backup && crate::pathname::str_eq(
            x.full_path.as_str(),
            y.full_path.as_str(),
        ),
        (Asset::Texture(x), Asset::Texture(y)) => x.tex_type == y.tex_type
            && crate::pathname::str_eq(x.name.as_str(), y.name.as_str())
            && crate::pathname::str_eq(x.extension.as_str(), y.extension.as_str()),
        (Asset::HighPoly, Asset::HighPoly) => true,
        (Asset::LowPoly, Asset::LowPoly) => true,
        (Asset::GameReady, Asset::GameReady) => true,
        (Asset::SubstancePainter, Asset::SubstancePainter) => true,
        (Asset::SubstanceDesigner, Asset::SubstanceDesigner) => true,
        (Asset::HandPlaneSettings, Asset::HandPlaneSettings) => true,
        (Asset::Autosaved, Asset::Autosaved) => true,
        (Asset::ReferenceImage, Asset::ReferenceImage) => true,
        (Asset::Other, Asset::Other) => true,
        _ => false,
    }
}

impl Asset {
    /// A copy carrying the same classification.
    pub fn clone_asset(&self) -> (r: Asset)
        ensures
            r@ == self@,
    {
        match self {
            Asset::Blender(b) => Asset::Blender(
                BlenderData {
                    name: b.name.clone(),
                    is_backup: b.is_backup,
                    full_path: b.full_path.clone(),
                },
            ),
            Asset::Texture(t) => Asset::Texture(
                TextureData {
                    tex_type: t.tex_type,
                    name: t.name.clone(),
                    extension: t.extension.clone(),
                },
            ),
            Asset::HighPoly => Asset::HighPoly,
            Asset::LowPoly => Asset::LowPoly,
            Asset::GameReady => Asset::GameReady,
            Asset::SubstancePainter => Asset::SubstancePainter,
            Asset::SubstanceDesigner => Asset::SubstanceDesigner,
            Asset::HandPlaneSettings => Asset::HandPlaneSettings,
            Asset::Autosaved => Asset::Autosaved,
            Asset::ReferenceImage => Asset::ReferenceImage,
            Asset::Other => Asset::Other,
        }
    }

    /// The display heading of a texture asset: bakes and specials are
    /// called out, every other texture is plain.
    pub fn format_texture(tex_data: &TextureData) -> (r: String)
        ensures
            r@ == (match tex_data.tex_type {
                TextureType::Bake(_) => "Texture Bake"@,
                TextureType::Special => "Texture Special"@,
                _ => "Texture"@,
            }),
    {
        match tex_data.tex_type {
            TextureType::Bake(_) => "Texture Bake".to_owned(),
            TextureType::Special => "Texture Special".to_owned(),
            _ => "Texture".to_owned(),
        }
    }

    /// The display heading of this asset kind.
    pub open spec fn spec_display_name(&self) -> Seq<char> {
        match self {
            Asset::Blender(_) => "Blender"@,
            Asset::GameReady => "Game ready model"@,
            Asset::Texture(t) => match t.tex_type {
                TextureType::Bake(_) => "Texture Bake"@,
                TextureType::Special => "Texture Special"@,
                _ => "Texture"@,
            },
            Asset::HighPoly => "High Poly model"@,
            Asset::LowPoly => "Low Poly model"@,
            Asset::SubstancePainter => "Substance Painter"@,
            Asset::SubstanceDesigner => "Substance Designer"@,
            Asset::HandPlaneSettings => "HandPlane Settings"@,
            Asset::Autosaved => "Autosaved file"@,
            Asset::ReferenceImage => "Reference Image"@,
            Asset::Other => "Other"@,
        }
    }

    /// The display heading of this asset kind.
    pub fn display_name(&self) -> (r: String)
        ensures
            r@ == self.spec_display_name(),
    {
        match self {
            Asset::Blender(_) => "Blender".to_owned(),
            Asset::GameReady => "Game ready model".to_owned(),
            Asset::Texture(tex_data) => Asset::format_texture(tex_data),
            Asset::HighPoly => "High Poly model".to_owned(),
            Asset::LowPoly => "Low Poly model".to_owned(),
            Asset::SubstancePainter => "Substance Painter".to_owned(),
            Asset::SubstanceDesigner => "Substance Designer".to_owned(),
            Asset::HandPlaneSettings => "HandPlane Settings".to_owned(),
            Asset::Autosaved => "Autosaved file".to_owned(),
            Asset::ReferenceImage => "Reference Image".to_owned(),
            Asset::Other => "Other".to_owned(),
        }
    }
}

} // verus!
