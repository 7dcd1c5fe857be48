//! Where the tool keeps its configuration and caches.
use vstd::prelude::*;
use crate::build_graph::{joined_path, path_join};

verus! {

/// The configuration and cache directories.
#[derive(Debug, Clone)]
pub struct OrdoPaths {
    pub config_dir: String,
    pub cache_dir: String,
    pub credentials_file: String,
}

impl OrdoPaths {
    /// Everything under one home directory (`ORDO_HOME`).
    pub fn from_home(home: &str) -> (r: Self)
        ensures
            r.config_dir@ == home@,
            r.cache_dir@ == home@,
            r.credentials_file@ == joined_path(home@, "credentials.toml"@),
    {
        OrdoPaths {
            credentials_file: path_join(home, "credentials.toml"),
            config_dir: home.to_string(),
            cache_dir: home.to_string(),
        }
    }

    /// An `ordo` directory under the platform's configuration and cache
    /// directories.
    pub fn from_base_dirs(config_base: &str, cache_base: &str) -> (r: Self)
        ensures
            r.config_dir@ == joined_path(config_base@, "ordo"@),
            r.cache_dir@ == joined_path(cache_base@, "ordo"@),
            r.credentials_file@ == joined_path(joined_path(config_base@, "ordo"@), "credentials.toml"@),
    {
        let config_dir = path_join(config_base, "ordo");
        let cache_dir = path_join(cache_base, "ordo");
        let credentials_file = path_join(config_dir.as_str(), "credentials.toml");
        OrdoPaths { config_dir, cache_dir, credentials_file }
    }

    pub fn global_config_file(&self) -> (r: String)
        ensures
            r@ == joined_path(self.config_dir@, "config.toml"@),
    {
        path_join(self.config_dir.as_str(), "config.toml")
    }

    pub fn registry_cache(&self) -> (r: String)
        ensures
            r@ == joined_path(self.cache_dir@, "registry"@),
    {
        path_join(self.cache_dir.as_str(), "registry")
    }

    pub fn git_cache(&self) -> (r: String)
        ensures
            r@ == joined_path(self.cache_dir@, "git"@),
    {
        path_join(self.cache_dir.as_str(), "git")
    }

    pub open spec fn toolchains_dir_view(&self) -> Seq<char> {
        joined_path(self.cache_dir@, "toolchains"@)
    }

    pub fn toolchains_dir(&self) -> (r: String)
        ensures
            r@ == self.toolchains_dir_view(),
    {
        path_join(self.cache_dir.as_str(), "toolchains")
    }
}

} // verus!
