use copydog::asset::Asset;
use copydog::blender::BlenderData;
use copydog::stats::Stats;
use copydog::texture::{BakeType, TextureData, TextureType};

#[test]
fn basecolor_texture_is_classified() {
    let td = TextureData::from_pathbuf(&"/assets/T_Wall_Albedo.png".to_string());
    assert_eq!(td.tex_type, TextureType::BaseColor);
    assert_eq!(td.name, "Wall");
    assert_eq!(td.extension, "png");
    assert_eq!(td.generate_filename(), "T_Wall_BaseColor.png");
}

#[test]
fn bake_texture_round_trips_its_filename() {
    let td = TextureData::from_pathbuf(&"/assets/T_Rock_bake_normal.png".to_string());
    assert_eq!(td.tex_type, TextureType::Bake(BakeType::Normal));
    assert_eq!(td.name, "Rock");
    assert_eq!(td.generate_filename(), "T_Rock_bake_normal.png");
}

#[test]
fn empty_name_falls_back_to_the_folder() {
    let td = TextureData::from_pathbuf(&"/textures/Stone/T_BaseColor.png".to_string());
    assert_eq!(td.tex_type, TextureType::BaseColor);
    assert_eq!(td.name, "Stone");
}

#[test]
fn empty_name_directly_under_root_yields_the_root() {
    assert_eq!(TextureData::get_name(&"/T_.png".to_string()), "/");
}

#[test]
fn empty_name_under_trailing_separator_folder_yields_its_component() {
    assert_eq!(TextureData::get_name(&"a//T_.png".to_string()), "a");
}

#[test]
fn unknown_bake_suffix_is_unknown() {
    assert_eq!(
        TextureData::get_bake_type(&"/a/T_Thing_bake_xyzq.png".to_string()),
        BakeType::Unknown
    );
}

#[test]
fn special_texture_has_empty_label() {
    let td = TextureData {
        tex_type: TextureType::Special,
        name: "X".to_string(),
        extension: "png".to_string(),
    };
    assert_eq!(td.generate_filename(), "T_X_.png");
}

#[test]
fn blender_backup_is_detected() {
    let b = BlenderData::from_pathbuf(&"/work/SM_Chair.blend1".to_string());
    assert!(b.is_backup);
    assert_eq!(b.name, "Chair");
    assert_eq!(b.full_path, "/work/SM_Chair.blend1");

    let b2 = BlenderData::from_pathbuf(&"/work/Chair.blend".to_string());
    assert!(!b2.is_backup);
    assert_eq!(b2.name, "Chair");
}

#[test]
fn display_names_follow_the_kind() {
    assert_eq!(Asset::Other.display_name(), "Other");
    assert_eq!(Asset::HighPoly.display_name(), "High Poly model");
    let bake = TextureData {
        tex_type: TextureType::Bake(BakeType::Ao),
        name: "X".to_string(),
        extension: "png".to_string(),
    };
    assert_eq!(Asset::Texture(bake).display_name(), "Texture Bake");
}

#[test]
fn insert_tallies_by_folded_kind() {
    let mut stats = Stats::default();
    let base = TextureData {
        tex_type: TextureType::BaseColor,
        name: "A".to_string(),
        extension: "png".to_string(),
    };
    let rough = TextureData {
        tex_type: TextureType::Roughness,
        name: "B".to_string(),
        extension: "tga".to_string(),
    };
    stats.insert(Asset::Texture(base), 10);
    stats.insert(Asset::Texture(rough), 5);
    stats.insert(Asset::Other, 1);

    assert_eq!(stats.total_size, 16);
    assert_eq!(stats.file_types.len(), 2);
    assert_eq!(stats.file_types[0].1, (2, 15));
    assert_eq!(stats.file_types[1].1, (1, 1));
}

#[test]
fn update_recounts_from_scratch() {
    let mut stats = Stats::default();
    stats.insert(Asset::Other, 100);
    assert_eq!(stats.total_size, 100);

    let files = vec![
        (Some(Asset::HighPoly), 5u64),
        (None, 7u64),
        (Some(Asset::HighPoly), 3u64),
        (Some(Asset::Other), 2u64),
    ];
    stats.update(&files);

    assert_eq!(stats.total_files, 3);
    assert_eq!(stats.total_size, 10);
    // the old key survives with a zeroed tally, the new keys follow
    assert_eq!(stats.file_types.len(), 2);
    assert_eq!(stats.file_types[0].1, (1, 2));
    assert_eq!(stats.file_types[1].1, (2, 8));
}
