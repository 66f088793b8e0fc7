//! Where the configuration file is looked for.

use crate::text::{chars_of, trim, trim_chars};
use vstd::prelude::*;

verus! {

/// A place for the configuration file.
#[derive(Debug, Clone)]
pub enum ConfigPlace {
    /// The path that the environment names, as it is written there.
    Override(String),
    /// `monitorctl.json` in the working directory.
    WorkingDir,
    /// `monitorctl/config.json` below the folder for application data.
    AppData,
    /// `.config/monitorctl/config.json` below the home folder.
    Home,
}

/// A place as contracts see it.
pub enum PlaceModel {
    Override(Seq<char>),
    WorkingDir,
    AppData,
    Home,
}

impl View for ConfigPlace {
    type V = PlaceModel;

    open spec fn view(&self) -> PlaceModel {
        match self {
            ConfigPlace::Override(path) => PlaceModel::Override(path@),
            ConfigPlace::WorkingDir => PlaceModel::WorkingDir,
            ConfigPlace::AppData => PlaceModel::AppData,
            ConfigPlace::Home => PlaceModel::Home,
        }
    }
}

/// The text holds nothing but white space.
pub open spec fn is_blank(s: Seq<char>) -> bool {
    trim(s).len() == 0
}

/// The place of the configuration file. The path that the environment
/// names comes first, unless it is blank; then the file in the working
/// directory, where it is there; then the folder for application data;
/// then the home folder.
pub open spec fn config_place(
    override_path: Option<Seq<char>>,
    local_exists: bool,
    has_app_data: bool,
    has_home: bool,
) -> Option<PlaceModel> {
    if override_path is Some && !is_blank(override_path->0) {
        Some(PlaceModel::Override(override_path->0))
    } else if local_exists {
        Some(PlaceModel::WorkingDir)
    } else if has_app_data {
        Some(PlaceModel::AppData)
    } else if has_home {
        Some(PlaceModel::Home)
    } else {
        None
    }
}

/// The names to go down from the place's folder to the file. The override
/// is a whole path and stands alone.
pub open spec fn place_segments(place: PlaceModel) -> Seq<Seq<char>> {
    match place {
        PlaceModel::Override(path) => seq![path],
        PlaceModel::WorkingDir => seq!["monitorctl.json"@],
        PlaceModel::AppData => seq!["monitorctl"@, "config.json"@],
        PlaceModel::Home => seq![".config"@, "monitorctl"@, "config.json"@],
    }
}

/// Chooses the place of the configuration file from what the caller found:
/// the path that the environment names, whether `monitorctl.json` is in
/// the working directory, and whether the environment names a folder for
/// application data and a home folder.
pub fn resolve_config_path(
    override_path: Option<&str>,
    local_exists: bool,
    has_app_data: bool,
    has_home: bool,
) -> (r: Option<ConfigPlace>)
    ensures
        match r {
            Some(place) => Some(place@),
            None => None,
        } == config_place(
            match override_path {
                Some(p) => Some(p@),
                None => None,
            },
            local_exists,
            has_app_data,
            has_home,
        ),
{
    if let Some(p) = override_path {
        let chars = chars_of(p);
        if trim_chars(&chars).len() != 0 {
            return Some(ConfigPlace::Override(String::from_str(p)));
        }
    }
    if local_exists {
        Some(ConfigPlace::WorkingDir)
    } else if has_app_data {
        Some(ConfigPlace::AppData)
    } else if has_home {
        Some(ConfigPlace::Home)
    } else {
        None
    }
}

impl ConfigPlace {
    /// The names to go down from the place's folder to the file.
    pub fn segments(&self) -> (r: Vec<String>)
        ensures
            crate::text::texts(r@) == place_segments(self@),
    {
        let mut r: Vec<String> = Vec::new();
        match self {
            ConfigPlace::Override(path) => {
                r.push(path.clone());
            },
            ConfigPlace::WorkingDir => {
                r.push(String::from_str("monitorctl.json"));
            },
            ConfigPlace::AppData => {
                r.push(String::from_str("monitorctl"));
                r.push(String::from_str("config.json"));
            },
            ConfigPlace::Home => {
                r.push(String::from_str(".config"));
                r.push(String::from_str("monitorctl"));
                r.push(String::from_str("config.json"));
            },
        }
        assert(crate::text::texts(r@) =~= place_segments(self@));
        r
    }
}

} // verus!
