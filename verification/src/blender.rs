//! Classification data for a Blender file: its cleaned name and whether
//! it is one of Blender's numbered backups.

use vstd::prelude::*;

use crate::pathname::{extension, file_stem, spec_extension, spec_file_stem};
use crate::text::{spec_trim_start, trim_start_matches};

verus! {

/// What a Blender file's path says of it.
#[derive(Hash, Debug, Eq, PartialEq, Clone, Default)]
pub struct BlenderData {
    /// The file's stem without the static-mesh prefix.
    pub name: String,
    /// Whether the extension marks a numbered backup.
    pub is_backup: bool,
    /// The path the data was read from.
    pub full_path: String,
}

impl BlenderData {
    /// Read the classification off a path. The path must carry an
    /// extension.
    pub fn from_pathbuf(path: &String) -> (r: BlenderData)
        requires
            spec_extension(path@) is Some,
        ensures
            r.is_backup == (spec_extension(path@) == Some("blend1"@)),
            r.name@ == spec_trim_start(spec_file_stem(path@), "SM_"@),
            r.full_path@ == path@,
    {
        let ext = extension(path.as_str()).unwrap();
        let is_backup = crate::pathname::str_eq(ext.as_str(), "blend1");
        let name = trim_start_matches(file_stem(path.as_str()), "SM_").to_owned();
        BlenderData { name, is_backup, full_path: path.clone() }
    }
}

} // verus!
