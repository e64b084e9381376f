//! Classification of texture files by their naming convention: the kind
//! of texture a file name announces, the asset name it belongs to, and
//! the standardized file name generated from them.

use vstd::prelude::*;

use crate::pathname::{
    extension, file_stem, spec_extension, spec_file_name, spec_file_stem, spec_rfind,
};
use crate::text::{
    rfind_sub, spec_lower, spec_rfind_sub, spec_trim_end, spec_trim_start, str_contains,
    str_ends_with, to_ascii_lowercase, trim_end_matches, trim_start_matches,
};

verus! {

/// The kind of bake a baked texture's name announces.
#[derive(Hash, Debug, Eq, PartialEq, Clone, Copy, Structural)]
pub enum BakeType {
    Normal,
    Ao,
    VertexColor,
    MatId,
    WorldNormal,
    Curvature,
    Position,
    Unknown,
}

impl BakeType {
    /// The short name used in generated file names.
    pub open spec fn spec_label(self) -> Seq<char> {
        match self {
            BakeType::Ao => "AO"@,
            BakeType::Normal => "normal"@,
            BakeType::VertexColor => "vcol"@,
            BakeType::MatId => "matid"@,
            BakeType::WorldNormal => "onormal"@,
            BakeType::Curvature => "curve"@,
            BakeType::Position => "pos"@,
            BakeType::Unknown => "unknown"@,
        }
    }

    /// The short name used in generated file names.
    pub fn label(&self) -> (r: String)
        ensures
            r@ == self.spec_label(),
    {
        match self {
            BakeType::Ao => "AO".to_owned(),
            BakeType::Normal => "normal".to_owned(),
            BakeType::VertexColor => "vcol".to_owned(),
            BakeType::MatId => "matid".to_owned(),
            BakeType::WorldNormal => "onormal".to_owned(),
            BakeType::Curvature => "curve".to_owned(),
            BakeType::Position => "pos".to_owned(),
            BakeType::Unknown => "unknown".to_owned(),
        }
    }
}

/// The kind of texture a file name announces.
#[derive(Hash, Debug, Eq, PartialEq, Clone, Copy, Structural)]
pub enum TextureType {
    BaseColor,
    Masks,
    Roughness,
    Metalic,
    Smoothness,
    Ao,
    Normal,
    Bake(BakeType),
    Special,
}

impl Default for TextureType {
    /// A texture not announcing a kind is special.
    fn default() -> (r: TextureType)
        ensures
            r is Special,
    {
        TextureType::Special
    }
}

impl TextureType {
    /// The name used in generated file names; empty for a special
    /// texture, and the bake's short name under a `bake_` prefix.
    pub open spec fn spec_label(self) -> Seq<char> {
        match self {
            TextureType::Ao => "AO"@,
            TextureType::BaseColor => "BaseColor"@,
            TextureType::Masks => "Masks"@,
            TextureType::Smoothness => "Smoothness"@,
            TextureType::Roughness => "Roughness"@,
            TextureType::Metalic => "Metalic"@,
            TextureType::Normal => "Normal"@,
            TextureType::Special => Seq::empty(),
            TextureType::Bake(bake) => "bake_"@ + bake.spec_label(),
        }
    }

    /// The name used in generated file names.
    pub fn label(&self) -> (r: String)
        ensures
            r@ == self.spec_label(),
    {
        match self {
            TextureType::Ao => "AO".to_owned(),
            TextureType::BaseColor => "BaseColor".to_owned(),
            TextureType::Masks => "Masks".to_owned(),
            TextureType::Smoothness => "Smoothness".to_owned(),
            TextureType::Roughness => "Roughness".to_owned(),
            TextureType::Metalic => "Metalic".to_owned(),
            TextureType::Normal => "Normal".to_owned(),
            TextureType::Special => String::new(),
            TextureType::Bake(bake) => "bake_".to_owned().concat(bake.label().as_str()),
        }
    }
}

/// The bake kind a lowercased file stem announces: the first matching
/// suffix of the bake-name table decides.
pub open spec fn spec_bake_type(f: Seq<char>) -> BakeType {
    if "ao"@.is_suffix_of(f) {
        BakeType::Ao
    } else if "ws"@.is_suffix_of(f) {
        BakeType::WorldNormal
    } else if "os"@.is_suffix_of(f) {
        BakeType::WorldNormal
    } else if "normal"@.is_suffix_of(f) {
        BakeType::Normal
    } else if "ts"@.is_suffix_of(f) {
        BakeType::Normal
    } else if "vg"@.is_suffix_of(f) {
        BakeType::Position
    } else if "pos"@.is_suffix_of(f) {
        BakeType::Position
    } else if "matid"@.is_suffix_of(f) {
        BakeType::MatId
    } else if "curve"@.is_suffix_of(f) {
        BakeType::Curvature
    } else if "color"@.is_suffix_of(f) {
        BakeType::VertexColor
    } else {
        BakeType::Unknown
    }
}

/// The texture kind a lowercased file stem announces: the last matching
/// suffix of the kind-name table decides.
pub open spec fn spec_tex_type(f: Seq<char>) -> TextureType {
    if "maskmap"@.is_suffix_of(f) {
        TextureType::Masks
    } else if "rma"@.is_suffix_of(f) {
        TextureType::Masks
    } else if "metalic"@.is_suffix_of(f) {
        TextureType::Metalic
    } else if "smoothness"@.is_suffix_of(f) {
        TextureType::Smoothness
    } else if "roughness"@.is_suffix_of(f) {
        TextureType::Roughness
    } else if "ao"@.is_suffix_of(f) {
        TextureType::Ao
    } else if "normal"@.is_suffix_of(f) {
        TextureType::Normal
    } else if "diffuse"@.is_suffix_of(f) {
        TextureType::BaseColor
    } else if "albedo"@.is_suffix_of(f) {
        TextureType::BaseColor
    } else if "basecolor"@.is_suffix_of(f) {
        TextureType::BaseColor
    } else {
        TextureType::Special
    }
}

/// The texture kind of a path: a stem containing `bake` is a bake of the
/// kind its suffix announces; otherwise the kind-name table decides.
pub open spec fn spec_texture_type_of(p: Seq<char>) -> TextureType {
    let f = spec_lower(spec_file_stem(p));
    if spec_rfind_sub(f, "bake"@) >= 0 {
        TextureType::Bake(spec_bake_type(f))
    } else {
        spec_tex_type(f)
    }
}

/// The first bake-table key that the lowercased name ends with.
pub open spec fn spec_bake_suffix_key(lower: Seq<char>) -> Option<Seq<char>> {
    if "ao"@.is_suffix_of(lower) {
        Some("ao"@)
    } else if "ws"@.is_suffix_of(lower) {
        Some("ws"@)
    } else if "os"@.is_suffix_of(lower) {
        Some("os"@)
    } else if "normal"@.is_suffix_of(lower) {
        Some("normal"@)
    } else if "ts"@.is_suffix_of(lower) {
        Some("ts"@)
    } else if "vg"@.is_suffix_of(lower) {
        Some("vg"@)
    } else if "pos"@.is_suffix_of(lower) {
        Some("pos"@)
    } else if "matid"@.is_suffix_of(lower) {
        Some("matid"@)
    } else if "curve"@.is_suffix_of(lower) {
        Some("curve"@)
    } else if "color"@.is_suffix_of(lower) {
        Some("color"@)
    } else {
        None
    }
}

/// The first kind-table key that occurs anywhere in the lowercased name.
pub open spec fn spec_tex_cut_key(lower: Seq<char>) -> Option<Seq<char>> {
    if spec_rfind_sub(lower, "basecolor"@) >= 0 {
        Some("basecolor"@)
    } else if spec_rfind_sub(lower, "albedo"@) >= 0 {
        Some("albedo"@)
    } else if spec_rfind_sub(lower, "diffuse"@) >= 0 {
        Some("diffuse"@)
    } else if spec_rfind_sub(lower, "normal"@) >= 0 {
        Some("normal"@)
    } else if spec_rfind_sub(lower, "ao"@) >= 0 {
        Some("ao"@)
    } else if spec_rfind_sub(lower, "roughness"@) >= 0 {
        Some("roughness"@)
    } else if spec_rfind_sub(lower, "smoothness"@) >= 0 {
        Some("smoothness"@)
    } else if spec_rfind_sub(lower, "metalic"@) >= 0 {
        Some("metalic"@)
    } else if spec_rfind_sub(lower, "rma"@) >= 0 {
        Some("rma"@)
    } else if spec_rfind_sub(lower, "maskmap"@) >= 0 {
        Some("maskmap"@)
    } else {
        None
    }
}

/// The name after trimming the bake suffix announced by the lowercased
/// name, when the name itself carries it.
pub open spec fn spec_after_bake_trim(name: Seq<char>) -> Seq<char> {
    match spec_bake_suffix_key(spec_lower(name)) {
        None => name,
        Some(k) => spec_trim_end(name, k),
    }
}

/// The name cut before the last occurrence of the first kind-table key
/// found in its lowercased form.
pub open spec fn spec_after_tex_cut(name: Seq<char>) -> Seq<char> {
    let lower = spec_lower(name);
    match spec_tex_cut_key(lower) {
        None => name,
        Some(k) => name.take(spec_rfind_sub(lower, k)),
    }
}

/// The asset name read off a texture path: the stem without the `T_`
/// prefix, without the announced bake or kind suffix, and without the
/// remaining `_` and `bake` decorations.
pub open spec fn spec_texture_name_core(p: Seq<char>) -> Seq<char> {
    let n0 = spec_trim_start(spec_file_stem(p), "T_"@);
    let n1 = spec_after_bake_trim(n0);
    let n2 = spec_after_tex_cut(n1);
    let n3 = spec_trim_end(n2, "_"@);
    let n4 = spec_trim_end(n3, "bake"@);
    let n5 = spec_trim_end(n4, "Bake"@);
    spec_trim_end(n5, "_"@)
}

/// The folder a path lies in: everything before its last separator.
pub open spec fn spec_parent(p: Seq<char>) -> Seq<char> {
    if spec_rfind(p, '/') >= 0 {
        p.take(spec_rfind(p, '/'))
    } else {
        Seq::empty()
    }
}

/// The component a path's containing folder is named by: the last
/// component of the folder, or the root itself for a file directly under
/// it.
pub open spec fn spec_folder_name(p: Seq<char>) -> Seq<char> {
    let parent = crate::text::spec_trim_end(spec_parent(p), seq!['/']);
    if parent.len() == 0 {
        if crate::pathname::spec_is_absolute(p) {
            seq!['/']
        } else {
            Seq::empty()
        }
    } else {
        spec_file_name(parent)
    }
}

/// The asset name of a texture path; a name trimmed down to nothing is
/// replaced by the component naming the folder the file lies in.
pub open spec fn spec_texture_name(p: Seq<char>) -> Seq<char> {
    let core = spec_texture_name_core(p);
    if core.len() == 0 {
        spec_folder_name(p)
    } else {
        core
    }
}

/// The derived asset name is never empty: where the trimmed stem is
/// consumed entirely, the path lies in some folder — as the precondition
/// of [`TextureData::get_name`] asks — and that folder's component, or
/// the root, stands in.
pub proof fn lemma_texture_name_nonempty(p: Seq<char>)
    requires
        spec_texture_name_core(p).len() == 0 ==> spec_rfind(p, '/') >= 0,
    ensures
        spec_texture_name(p).len() > 0,
{
    if spec_texture_name_core(p).len() == 0 {
        crate::pathname::lemma_rfind(p, '/');
        let parent = spec_parent(p);
        let trimmed = crate::text::spec_trim_end(parent, seq!['/']);
        crate::text::lemma_trim_end_no_suffix(parent, seq!['/']);
        if trimmed.len() == 0 {
            if !crate::pathname::spec_is_absolute(p) {
                crate::text::lemma_trim_end_char_all(parent, '/');
                assert(spec_rfind(p, '/') > 0) by {
                    assert(p[spec_rfind(p, '/')] == '/');
                }
                assert(parent[0] == p[0]);
            }
        } else {
            let rf = crate::pathname::spec_rfind(trimmed, '/');
            crate::pathname::lemma_rfind(trimmed, '/');
            if rf == trimmed.len() - 1 {
                assert(seq!['/'].is_suffix_of(trimmed)) by {
                    assert(trimmed.subrange(trimmed.len() - 1, trimmed.len() as int) =~= seq![
                        '/',
                    ]);
                }
            }
        }
    }
}

/// What a texture file's path says of it.
#[derive(Hash, Debug, Eq, PartialEq, Clone, Default)]
pub struct TextureData {
    /// The kind of texture the name announces.
    pub tex_type: TextureType,
    /// The asset name the file belongs to.
    pub name: String,
    /// The file's extension.
    pub extension: String,
}

/// The texture kind a lowercased stem announces, by the kind-name table.
fn tex_type_of_stem(f: &str) -> (r: TextureType)
    ensures
        r == spec_tex_type(f@),
{
    if str_ends_with(f, "maskmap") {
        TextureType::Masks
    } else if str_ends_with(f, "rma") {
        TextureType::Masks
    } else if str_ends_with(f, "metalic") {
        TextureType::Metalic
    } else if str_ends_with(f, "smoothness") {
        TextureType::Smoothness
    } else if str_ends_with(f, "roughness") {
        TextureType::Roughness
    } else if str_ends_with(f, "ao") {
        TextureType::Ao
    } else if str_ends_with(f, "normal") {
        TextureType::Normal
    } else if str_ends_with(f, "diffuse") {
        TextureType::BaseColor
    } else if str_ends_with(f, "albedo") {
        TextureType::BaseColor
    } else if str_ends_with(f, "basecolor") {
        TextureType::BaseColor
    } else {
        TextureType::Special
    }
}

impl TextureData {
    /// Read the classification off a path. The path must carry an
    /// extension, and a path whose derived name trims down to nothing
    /// must lie in some folder, whose name then stands in.
    pub fn from_pathbuf(path: &String) -> (r: TextureData)
        requires
            spec_extension(path@) is Some,
            spec_texture_name_core(path@).len() == 0 ==> spec_rfind(path@, '/') >= 0,
        ensures
            r.tex_type == spec_texture_type_of(path@),
            r.name@ == spec_texture_name(path@),
            spec_extension(path@) == Some(r.extension@),
    {
        let stem_lower = to_ascii_lowercase(file_stem(path.as_str()));
        let tex_type = if str_contains(stem_lower.as_str(), "bake") {
            TextureType::Bake(TextureData::get_bake_type(path))
        } else {
            tex_type_of_stem(stem_lower.as_str())
        };
        let name = TextureData::get_name(path);
        let ext = extension(path.as_str()).unwrap();
        TextureData { tex_type, name, extension: ext }
    }

    /// The bake kind the path's lowercased stem announces.
    pub fn get_bake_type(path: &String) -> (r: BakeType)
        ensures
            r == spec_bake_type(spec_lower(spec_file_stem(path@))),
    {
        let f = to_ascii_lowercase(file_stem(path.as_str()));
        let fs = f.as_str();
        if str_ends_with(fs, "ao") {
            BakeType::Ao
        } else if str_ends_with(fs, "ws") {
            BakeType::WorldNormal
        } else if str_ends_with(fs, "os") {
            BakeType::WorldNormal
        } else if str_ends_with(fs, "normal") {
            BakeType::Normal
        } else if str_ends_with(fs, "ts") {
            BakeType::Normal
        } else if str_ends_with(fs, "vg") {
            BakeType::Position
        } else if str_ends_with(fs, "pos") {
            BakeType::Position
        } else if str_ends_with(fs, "matid") {
            BakeType::MatId
        } else if str_ends_with(fs, "curve") {
            BakeType::Curvature
        } else if str_ends_with(fs, "color") {
            BakeType::VertexColor
        } else {
            BakeType::Unknown
        }
    }

    /// The asset name read off the path, as [`spec_texture_name`] states
    /// it.
    pub fn get_name(path: &String) -> (r: String)
        requires
            spec_texture_name_core(path@).len() == 0 ==> spec_rfind(path@, '/') >= 0,
        ensures
            r@ == spec_texture_name(path@),
    {
        let stem = file_stem(path.as_str());
        let name0 = trim_start_matches(stem, "T_");
        let lower0 = to_ascii_lowercase(name0);
        let l0 = lower0.as_str();
        let name1: &str = if str_ends_with(l0, "ao") {
            trim_end_matches(name0, "ao")
        } else if str_ends_with(l0, "ws") {
            trim_end_matches(name0, "ws")
        } else if str_ends_with(l0, "os") {
            trim_end_matches(name0, "os")
        } else if str_ends_with(l0, "normal") {
            trim_end_matches(name0, "normal")
        } else if str_ends_with(l0, "ts") {
            trim_end_matches(name0, "ts")
        } else if str_ends_with(l0, "vg") {
            trim_end_matches(name0, "vg")
        } else if str_ends_with(l0, "pos") {
            trim_end_matches(name0, "pos")
        } else if str_ends_with(l0, "matid") {
            trim_end_matches(name0, "matid")
        } else if str_ends_with(l0, "curve") {
            trim_end_matches(name0, "curve")
        } else if str_ends_with(l0, "color") {
            trim_end_matches(name0, "color")
        } else {
            name0
        };
        let lower1 = to_ascii_lowercase(name1);
        let l1 = lower1.as_str();
        let name2: &str = if let Some(i) = match_cut(name1, l1, "basecolor") {
            i
        } else if let Some(i) = match_cut(name1, l1, "albedo") {
            i
        } else if let Some(i) = match_cut(name1, l1, "diffuse") {
            i
        } else if let Some(i) = match_cut(name1, l1, "normal") {
            i
        } else if let Some(i) = match_cut(name1, l1, "ao") {
            i
        } else if let Some(i) = match_cut(name1, l1, "roughness") {
            i
        } else if let Some(i) = match_cut(name1, l1, "smoothness") {
            i
        } else if let Some(i) = match_cut(name1, l1, "metalic") {
            i
        } else if let Some(i) = match_cut(name1, l1, "rma") {
            i
        } else if let Some(i) = match_cut(name1, l1, "maskmap") {
            i
        } else {
            name1
        };
        let name3 = trim_end_matches(name2, "_");
        let name4 = trim_end_matches(name3, "bake");
        let name5 = trim_end_matches(name4, "Bake");
        let name6 = trim_end_matches(name5, "_");
        if name6.unicode_len() == 0 {
            proof {
                crate::pathname::lemma_rfind(path@, '/');
                reveal_strlit("");
                reveal_strlit("/");
                assert(""@ =~= Seq::<char>::empty());
                assert("/"@ =~= seq!['/']);
            }
            let parent = match crate::pathname::rfind(path.as_str(), '/') {
                Some(i) => path.as_str().substring_char(0, i),
                None => "",
            };
            let trimmed = trim_end_matches(parent, "/");
            if trimmed.unicode_len() == 0 {
                if crate::pathname::is_absolute(path.as_str()) {
                    "/".to_owned()
                } else {
                    String::new()
                }
            } else {
                crate::pathname::file_name(trimmed).to_owned()
            }
        } else {
            name6.to_owned()
        }
    }

    /// The standardized file name: the `T_` prefix, the asset name, the
    /// kind's label and the original extension.
    pub fn generate_filename(&self) -> (r: String)
        ensures
            r@ == "T_"@ + self.name@ + "_"@ + self.tex_type.spec_label() + "."@
                + self.extension@,
    {
        let mut out = "T_".to_owned();
        out.append(self.name.as_str());
        out.append("_");
        let label = self.tex_type.label();
        out.append(label.as_str());
        out.append(".");
        out.append(self.extension.as_str());
        out
    }
}

/// Cut `name` before the last occurrence of `key` in its lowercased
/// form, when the key occurs in it.
fn match_cut<'a>(name: &'a str, lower: &str, key: &str) -> (r: Option<&'a str>)
    requires
        lower@ == spec_lower(name@),
    ensures
        match r {
            Some(cut) => spec_rfind_sub(lower@, key@) >= 0 && cut@ == name@.take(
                spec_rfind_sub(lower@, key@),
            ),
            None => spec_rfind_sub(lower@, key@) < 0,
        },
{
    proof {
        crate::text::lemma_rfind_sub(lower@, key@);
    }
    match rfind_sub(lower, key) {
        Some(i) => Some(name.substring_char(0, i)),
        None => None,
    }
}

} // verus!
