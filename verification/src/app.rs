use vstd::prelude::*;

use crate::config::EBuilderConfig;
use crate::doc::{patched_doc, spec_patched, DocValue};
use crate::environment::Platform;
use crate::error::Error;
use crate::package::Package;
use crate::parse::parse_config;
use crate::textutil::str_eq;
use crate::utils::{
    filesafe_map, filesafe_package_name, path_join, seq_all_safe, spec_path_join,
};

verus! {

broadcast use vstd::string::group_string_axioms;

/// A format a stand-alone configuration file can be written in,
/// recognized by its file extension.
#[derive(Debug, Clone, Copy, PartialEq, Eq, Structural)]
pub enum ConfigFormat {
    Json,
    Yaml,
    Toml,
    Json5,
    Js,
    Mjs,
}

/// The parser a configuration file extension calls for: `json`, `yaml`,
/// `yml`, `toml` and `json5` are documents; `js` and `mjs` are scripts
/// for an external interpreter. No extension, or an unknown one, is
/// an error.
pub fn config_format_of_extension(ext: Option<&str>) -> (r: Result<ConfigFormat, Error>)
    ensures
        match ext {
            None => r == Result::<ConfigFormat, Error>::Err(Error::NoConfigFileExtension),
            Some(e) => {
                if e@ == "json"@ {
                    r == Result::<ConfigFormat, Error>::Ok(ConfigFormat::Json)
                } else if e@ == "yaml"@ || e@ == "yml"@ {
                    r == Result::<ConfigFormat, Error>::Ok(ConfigFormat::Yaml)
                } else if e@ == "toml"@ {
                    r == Result::<ConfigFormat, Error>::Ok(ConfigFormat::Toml)
                } else if e@ == "json5"@ {
                    r == Result::<ConfigFormat, Error>::Ok(ConfigFormat::Json5)
                } else if e@ == "js"@ {
                    r == Result::<ConfigFormat, Error>::Ok(ConfigFormat::Js)
                } else if e@ == "mjs"@ {
                    r == Result::<ConfigFormat, Error>::Ok(ConfigFormat::Mjs)
                } else {
                    r matches Err(err) && err matches Error::UnknownConfigFileExtension(u) && u@
                        == e@
                }
            },
        },
{
    proof {
        reveal_strlit("json");
        reveal_strlit("yaml");
        reveal_strlit("yml");
        reveal_strlit("toml");
        reveal_strlit("json5");
        reveal_strlit("js");
        reveal_strlit("mjs");
        assert("json"@.len() == 4);
        assert("yaml"@.len() == 4);
        assert("yml"@.len() == 3);
        assert("toml"@.len() == 4);
        assert("json5"@.len() == 5);
        assert("js"@.len() == 2);
        assert("mjs"@.len() == 3);
        assert("json"@[0] == 'j' && "yaml"@[0] == 'y' && "toml"@[0] == 't');
        assert("yml"@[0] == 'y' && "mjs"@[0] == 'm');
    }
    match ext {
        None => Err(Error::NoConfigFileExtension),
        Some(e) => {
            if str_eq(e, "json") {
                Ok(ConfigFormat::Json)
            } else if str_eq(e, "yaml") || str_eq(e, "yml") {
                Ok(ConfigFormat::Yaml)
            } else if str_eq(e, "toml") {
                Ok(ConfigFormat::Toml)
            } else if str_eq(e, "json5") {
                Ok(ConfigFormat::Json5)
            } else if str_eq(e, "js") {
                Ok(ConfigFormat::Js)
            } else if str_eq(e, "mjs") {
                Ok(ConfigFormat::Mjs)
            } else {
                Err(Error::UnknownConfigFileExtension(e.to_owned()))
            }
        },
    }
}

/// How a scripted-configuration child process ended: anything but an
/// exit code of zero is an error carrying the code and the captured
/// standard error; what a successful child printed is read as a document
/// by the caller, so an empty output still fails there, as a parse error.
pub fn scripted_config_outcome(status_code: Option<i32>, stderr: Option<String>) -> (r: Result<
    (),
    Error,
>)
    ensures
        r is Ok <==> status_code == Some(0i32),
        r matches Err(e) ==> e matches Error::ConfigChild { status_code: c, stderr: s } && c
            == status_code && match stderr {
            Some(x) => s matches Some(y) && x == y,
            None => s is None,
        },
{
    match status_code {
        Some(0i32) => Ok(()),
        _ => Err(Error::ConfigChild { status_code, stderr }),
    }
}

/// One build: the parsed package, the resolved configuration and the
/// package root, immutable once constructed.
pub struct App {
    pub package: Package,
    pub config: EBuilderConfig,
    pub root: String,
}

impl App {
    /// An app is well-formed when its package is.
    pub open spec fn wf(self) -> bool {
        self.package.wf()
    }

    /// Binds a package, a configuration and a root together.
    pub fn new(package: Package, config: EBuilderConfig, root: String) -> (r: App)
        ensures
            r.package == package,
            r.config == config,
            r.root == root,
    {
        App { package, config, root }
    }

    /// An app whose configuration is the package's own `build` section.
    /// When the package has none, everything is handed back so the caller
    /// can try a sibling configuration file.
    pub fn from_package_doc(package: Package, root: String) -> (r: Result<App, (Package, String)>)
        requires
            package.wf(),
        ensures
            match r {
                Ok(app) => {
                    &&& package.manifest@.build is Some
                    &&& app.config@ == package.manifest@.build->0
                    &&& app.package == package
                    &&& app.root == root
                    &&& app.wf()
                },
                Err(back) => back.0 == package && back.1 == root && package.manifest@.build
                    is None,
            },
    {
        let has_config = match package.value.get("build") {
            Some(b) => b.is_obj(),
            None => false,
        };
        if has_config {
            let config = match package.value.get("build") {
                Some(b) => match parse_config(b) {
                    Ok(c) => c,
                    Err(_) => unreached(),
                },
                None => unreached(),
            };
            Ok(App { package, config, root })
        } else {
            Err((package, root))
        }
    }

    /// The resolved configuration.
    pub fn config(&self) -> (r: &EBuilderConfig)
        ensures
            r == &self.config,
    {
        &self.config
    }

    /// The effective description: the platform section first, then the
    /// base configuration, then the manifest.
    pub open spec fn description_spec(self, platform: Platform) -> Option<Seq<char>> {
        match self.config.platform_layer(platform).common@.description {
            Some(d) => Some(d),
            None => match self.config.base.common@.description {
                Some(d) => Some(d),
                None => self.package.manifest.common@.description,
            },
        }
    }

    /// The description shown to the user, if any is configured.
    pub fn description(&self, platform: Platform) -> (r: Option<&String>)
        ensures
            match r {
                Some(d) => self.description_spec(platform) == Some(d@),
                None => self.description_spec(platform) is None,
            },
    {
        let layer = self.config.current_platform(platform);
        match &layer.common.description {
            Some(d) => Some(d),
            None => match &self.config.base.common.description {
                Some(d) => Some(d),
                None => match &self.package.manifest.common.description {
                    Some(d) => Some(d),
                    None => None,
                },
            },
        }
    }

    /// The name the executable-name resolution starts from: the common
    /// chain, or the package name.
    pub open spec fn executable_source_spec(self, platform: Platform) -> Seq<char> {
        match self.config.platform_layer(platform).common@.executable_name {
            Some(d) => d,
            None => match self.config.base.common@.executable_name {
                Some(d) => d,
                None => match self.package.manifest.common@.executable_name {
                    Some(d) => d,
                    None => self.package.manifest.name@,
                },
            },
        }
    }

    /// The file-safe executable name resolved through the common chain,
    /// falling back to the package name.
    pub fn executable_name(&self, platform: Platform) -> (r: Result<String, Error>)
        ensures
            match r {
                Ok(o) => o@ == filesafe_map(self.executable_source_spec(platform)) && seq_all_safe(
                    filesafe_map(self.executable_source_spec(platform)),
                ) && filesafe_map(self.executable_source_spec(platform)).len() > 0,
                Err(e) => (!seq_all_safe(filesafe_map(self.executable_source_spec(platform)))
                    || filesafe_map(self.executable_source_spec(platform)).len() == 0) && (
                e matches Error::InvalidPackageName(n) && n@ == self.executable_source_spec(
                    platform,
                )),
            },
    {
        let layer = self.config.current_platform(platform);
        let source: &String = match &layer.common.executable_name {
            Some(d) => d,
            None => match &self.config.base.common.executable_name {
                Some(d) => d,
                None => match &self.package.manifest.common.executable_name {
                    Some(d) => d,
                    None => &self.package.manifest.name,
                },
            },
        };
        filesafe_package_name(source.as_str())
    }

    /// The effective product name: the common chain, or the package name.
    pub open spec fn product_name_spec(self, platform: Platform) -> Seq<char> {
        match self.config.platform_layer(platform).common@.product_name {
            Some(d) => d,
            None => match self.config.base.common@.product_name {
                Some(d) => d,
                None => match self.package.manifest.common@.product_name {
                    Some(d) => d,
                    None => self.package.manifest.name@,
                },
            },
        }
    }

    /// The product name shown to the user.
    pub fn product_name(&self, platform: Platform) -> (r: &String)
        ensures
            r@ == self.product_name_spec(platform),
    {
        let layer = self.config.current_platform(platform);
        match &layer.common.product_name {
            Some(d) => d,
            None => match &self.config.base.common.product_name {
                Some(d) => d,
                None => match &self.package.manifest.common.product_name {
                    Some(d) => d,
                    None => &self.package.manifest.name,
                },
            },
        }
    }

    /// The configured desktop-entry file name, if any; otherwise it is
    /// derived from the file-safe package name.
    pub open spec fn desktop_name_override_spec(self, platform: Platform) -> Option<Seq<char>> {
        match self.config.platform_layer(platform).common@.desktop_name {
            Some(d) => Some(d),
            None => match self.config.base.common@.desktop_name {
                Some(d) => Some(d),
                None => self.package.manifest.common@.desktop_name,
            },
        }
    }

    /// The desktop-entry file name: the common chain, or the file-safe
    /// package name with `.desktop` appended.
    pub fn desktop_name(&self, platform: Platform) -> (r: Result<String, Error>)
        ensures
            match r {
                Ok(o) => match self.desktop_name_override_spec(platform) {
                    Some(d) => o@ == d,
                    None => o@ == filesafe_map(self.package.manifest.name@) + ".desktop"@
                        && seq_all_safe(filesafe_map(self.package.manifest.name@))
                        && filesafe_map(self.package.manifest.name@).len() > 0,
                },
                Err(e) => {
                    &&& self.desktop_name_override_spec(platform) is None
                    &&& (!seq_all_safe(filesafe_map(self.package.manifest.name@)) || filesafe_map(
                        self.package.manifest.name@,
                    ).len() == 0)
                    &&& (e matches Error::InvalidPackageName(n) && n@
                        == self.package.manifest.name@)
                },
            },
    {
        let layer = self.config.current_platform(platform);
        let chain: Option<&String> = match &layer.common.desktop_name {
            Some(d) => Some(d),
            None => match &self.config.base.common.desktop_name {
                Some(d) => Some(d),
                None => match &self.package.manifest.common.desktop_name {
                    Some(d) => Some(d),
                    None => None,
                },
            },
        };
        match chain {
            Some(d) => Ok(d.clone()),
            None => {
                let mut base = filesafe_package_name(self.package.manifest.name.as_str())?;
                base.append(".desktop");
                Ok(base)
            },
        }
    }

    /// The candidate icon paths, each under the package root.
    pub open spec fn icon_locations_spec(self) -> Seq<Seq<char>> {
        Seq::new(
            self.config.icon_locations_spec().len(),
            |i: int| spec_path_join(self.root@, self.config.icon_locations_spec()[i]),
        )
    }

    /// The candidate icon paths for the transcoder, under the package root.
    #[verifier::loop_isolation(false)]
    pub fn icon_locations(&self) -> (r: Vec<String>)
        ensures
            r.deep_view() == self.icon_locations_spec(),
    {
        let locations = self.config.icon_locations();
        let mut out: Vec<String> = Vec::new();
        let n = locations.len();
        let mut i: usize = 0;
        while i < n
            invariant
                i <= n,
                n == locations.len(),
                locations.deep_view() == self.config.icon_locations_spec(),
                out@.len() == i,
                forall|j: int| 0 <= j < i ==> #[trigger] out@[j]@ == spec_path_join(
                    self.root@,
                    self.config.icon_locations_spec()[j],
                ),
            decreases n - i,
        {
            let joined = path_join(self.root.as_str(), locations[i].as_str());
            proof {
                assert(locations.deep_view()[i as int] == locations@[i as int]@);
            }
            out.push(joined);
            i += 1;
        }
        proof {
            assert(out.deep_view() =~= self.icon_locations_spec());
        }
        out
    }

    /// The manifest document with the effective extra metadata written
    /// over its top-level entries; without extra metadata it is the
    /// retained document itself.
    pub fn patched_package(&self, platform: Platform) -> (r: DocValue)
        requires
            self.wf(),
        ensures
            r@ == match self.config.extra_metadata_spec(platform) {
                Some(m) => spec_patched(self.package.value@, m@),
                None => self.package.value@,
            },
    {
        match self.config.extra_metadata(platform) {
            Some(m) => patched_doc(&self.package.value, m),
            None => self.package.value.duplicate(),
        }
    }

    /// The base output directory: the configured one under the root,
    /// or `tasje_out` under the root.
    pub open spec fn output_dir_spec(self, platform: Platform) -> Seq<char> {
        match self.config.output_dir_spec(platform) {
            Some(o) => spec_path_join(self.root@, o),
            None => spec_path_join(self.root@, "tasje_out"@),
        }
    }

    /// The directory the build lands in.
    pub fn output_dir(&self, platform: Platform) -> (r: String)
        ensures
            r@ == self.output_dir_spec(platform),
    {
        match self.config.output_dir(platform) {
            Some(o) => path_join(self.root.as_str(), o),
            None => path_join(self.root.as_str(), "tasje_out"),
        }
    }
}

} // verus!
