//! What a scan of the mods directory records about each jar.
use std::path::PathBuf;
use vstd::prelude::*;
use crate::sort::{KeyView, SortKey, stable_sort, stable_sort_of};
use crate::text::chars_of;
use crate::tree::{DataNode, get_str, json_parse, node_get, parse_json};

verus! {

/// Identity of a mod as declared in its jar.
#[derive(Debug, Clone)]
pub struct ModMetadata {
    pub id: String,
    pub version: String,
    pub display_name: String,
}

pub struct ModMetadataView {
    pub id: Seq<char>,
    pub version: Seq<char>,
    pub display_name: Seq<char>,
}

impl View for ModMetadata {
    type V = ModMetadataView;

    open spec fn view(&self) -> ModMetadataView {
        ModMetadataView { id: self.id@, version: self.version@, display_name: self.display_name@ }
    }
}

/// One jar found in the mods directory.
#[derive(Debug, Clone)]
pub struct ScannedMod {
    pub path: PathBuf,
    pub file_name: String,
    pub sha512_hex: String,
    pub metadata: Option<ModMetadata>,
}

pub struct ScannedModView {
    pub path: PathBuf,
    pub file_name: Seq<char>,
    pub sha512_hex: Seq<char>,
    pub metadata: Option<ModMetadataView>,
}

impl View for ScannedMod {
    type V = ScannedModView;

    open spec fn view(&self) -> ScannedModView {
        ScannedModView {
            path: self.path,
            file_name: self.file_name@,
            sha512_hex: self.sha512_hex@,
            metadata: meta_view(self.metadata),
        }
    }
}

/// Metadata from the fields of a `fabric.mod.json`: the display name is `name`,
/// falling back to `id`.
pub fn metadata_from_fabric_fields(id: String, version: String, name: Option<String>) -> (r:
    ModMetadata)
    ensures
        r.id@ == id@,
        r.version@ == version@,
        r.display_name@ == (match name {
            Some(n) => n@,
            None => id@,
        }),
{
    let display = match name {
        Some(n) => n,
        None => id.clone(),
    };
    ModMetadata { id, version, display_name: display }
}

/// Metadata from the first `[[mods]]` entry of a `mods.toml`: the display name is
/// `display_name`, else `displayName`, else `modId`.
pub fn metadata_from_mods_toml_entry(
    mod_id: String,
    version: String,
    display_name: Option<String>,
    display_name_camel: Option<String>,
) -> (r: ModMetadata)
    ensures
        r.id@ == mod_id@,
        r.version@ == version@,
        r.display_name@ == (match display_name {
            Some(n) => n@,
            None => match display_name_camel {
                Some(n) => n@,
                None => mod_id@,
            },
        }),
{
    let display = match display_name {
        Some(n) => n,
        None => match display_name_camel {
            Some(n) => n,
            None => mod_id.clone(),
        },
    };
    ModMetadata { id: mod_id, version, display_name: display }
}

/// One `[[mods]]` entry of a `mods.toml`.
#[derive(Debug, Clone)]
pub struct ModsTomlEntry {
    pub mod_id: String,
    pub version: String,
    pub display_name: Option<String>,
    pub display_name_camel: Option<String>,
}

/// The metadata of a `mods.toml`: that of its first `[[mods]]` entry, none without one.
pub fn metadata_from_mods_toml(entries: &[ModsTomlEntry]) -> (r: Option<ModMetadata>)
    ensures
        entries@.len() == 0 ==> r is None,
        entries@.len() > 0 ==> (r matches Some(m) && {
            let e = entries@[0];
            &&& m.id@ == e.mod_id@
            &&& m.version@ == e.version@
            &&& m.display_name@ == (match e.display_name {
                Some(n) => n@,
                None => match e.display_name_camel {
                    Some(n) => n@,
                    None => e.mod_id@,
                },
            })
        }),
{
    if entries.len() == 0 {
        return None;
    }
    let e = &entries[0];
    let display_name = match &e.display_name {
        Some(n) => Some(n.clone()),
        None => None,
    };
    let display_name_camel = match &e.display_name_camel {
        Some(n) => Some(n.clone()),
        None => None,
    };
    Some(metadata_from_mods_toml_entry(e.mod_id.clone(), e.version.clone(), display_name, display_name_camel))
}

/// `quilt_loader` of a Quilt document.
pub open spec fn quilt_loader(root: DataNode) -> Option<DataNode> {
    node_get(root, "quilt_loader"@)
}

/// `parse_quilt_mod_json` on a parsed document: `quilt_loader.id` and
/// `quilt_loader.version` are required strings; the display name is
/// `quilt_loader.metadata.name`, falling back to the id.
pub open spec fn quilt_metadata(root: DataNode) -> Option<ModMetadataView> {
    match quilt_loader(root) {
        Some(q) => match (get_str(q, "id"@), get_str(q, "version"@)) {
            (Some(id), Some(version)) => Some(
                ModMetadataView {
                    id,
                    version,
                    display_name: match node_get(q, "metadata"@) {
                        Some(m) => match get_str(m, "name"@) {
                            Some(n) => n,
                            None => id,
                        },
                        None => id,
                    },
                },
            ),
            _ => None,
        },
        None => None,
    }
}

pub open spec fn meta_view(m: Option<ModMetadata>) -> Option<ModMetadataView> {
    match m {
        Some(x) => Some(x@),
        None => None,
    }
}

/// Reads mod metadata from the text of a `quilt.mod.json`: none when it does not parse.
pub fn parse_quilt_mod_json(text: &str) -> (r: Option<ModMetadata>)
    ensures
        match json_parse(text@) {
            Ok(d) => meta_view(r) == quilt_metadata(d),
            Err(_) => r is None,
        },
{
    match parse_json(text) {
        Ok(d) => quilt_metadata_from_doc(&d),
        Err(_) => None,
    }
}

/// Reads mod metadata from a parsed `quilt.mod.json`.
pub fn quilt_metadata_from_doc(root: &DataNode) -> (r: Option<ModMetadata>)
    ensures
        meta_view(r) == quilt_metadata(*root),
{
    let q = root.get("quilt_loader")?;
    let id = q.get_str("id")?;
    let version = q.get_str("version")?;
    let display = match q.get("metadata") {
        Some(m) => match m.get_str("name") {
            Some(n) => n.clone(),
            None => id.clone(),
        },
        None => id.clone(),
    };
    Some(ModMetadata { id: id.clone(), version: version.clone(), display_name: display })
}

/// The metadata a jar yields: its `fabric.mod.json`, else `quilt.mod.json`, else
/// `META-INF/mods.toml`, else `META-INF/neoforge.mods.toml` (each counted only when it
/// is present and parses).
pub fn select_metadata(
    fabric: Option<ModMetadata>,
    quilt: Option<ModMetadata>,
    mods_toml: Option<ModMetadata>,
    neoforge_toml: Option<ModMetadata>,
) -> (r: Option<ModMetadata>)
    ensures
        r == (if fabric is Some {
            fabric
        } else if quilt is Some {
            quilt
        } else if mods_toml is Some {
            mods_toml
        } else {
            neoforge_toml
        }),
{
    if fabric.is_some() {
        fabric
    } else if quilt.is_some() {
        quilt
    } else if mods_toml.is_some() {
        mods_toml
    } else {
        neoforge_toml
    }
}

/// Jars are listed by file name.
impl SortKey for ScannedMod {
    open spec fn key(&self) -> KeyView {
        (self.file_name@, Seq::empty())
    }

    fn sort_key(&self) -> (r: (Vec<char>, Vec<char>)) {
        (chars_of(self.file_name.as_str()), Vec::new())
    }
}

/// The scanned jars ordered by file name (equal names keep their order).
pub fn sort_scans(v: Vec<ScannedMod>) -> (r: Vec<ScannedMod>)
    ensures
        stable_sort_of(r@, v@),
{
    stable_sort(v)
}

} // verus!
