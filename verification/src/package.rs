use vstd::prelude::*;

use crate::config::{CommonOverridableProperties, CommonOverridableView, EBuilderConfig,
    EBuilderConfigView};
use crate::doc::{obj_lookup, DocValue, DocView};
use crate::error::Error;
use crate::parse::{parse_common, parse_config, sp_common, sp_config};

verus! {

broadcast use vstd::string::group_string_axioms;

/// The fields of the package descriptor the packer reads.
pub struct PackageManifest {
    pub name: String,
    pub version: String,
    pub common: CommonOverridableProperties,
    pub build: Option<EBuilderConfig>,
}

/// The mathematical shape of the manifest.
pub struct PackageManifestView {
    pub name: Seq<char>,
    pub version: Seq<char>,
    pub common: CommonOverridableView,
    pub build: Option<EBuilderConfigView>,
}

impl View for PackageManifest {
    type V = PackageManifestView;

    open spec fn view(&self) -> PackageManifestView {
        PackageManifestView {
            name: self.name@,
            version: self.version@,
            common: self.common@,
            build: match self.build {
                Some(b) => Some(b@),
                None => None,
            },
        }
    }
}

/// A required string entry of the manifest.
pub open spec fn sp_req_string(f: Option<DocView>) -> Option<Seq<char>> {
    match f {
        Some(DocView::Str(s)) => Some(s),
        _ => None,
    }
}

/// The optional `build` sub-document: absent or null reads as nothing.
pub open spec fn sp_build(f: Option<DocView>) -> Option<Option<EBuilderConfigView>> {
    match f {
        None => Some(None),
        Some(v) => match v {
            DocView::Null => Some(None),
            _ => match sp_config(v) {
                Some(c) => Some(Some(c)),
                None => None,
            },
        },
    }
}

/// The manifest read from a package document: its name and version are
/// required strings; `build` is an optional configuration.
pub open spec fn sp_manifest(v: DocView) -> Option<PackageManifestView> {
    match v {
        DocView::Obj(e) => {
            let name = sp_req_string(obj_lookup(e, "name"@));
            let version = sp_req_string(obj_lookup(e, "version"@));
            let common = sp_common(e);
            let build = sp_build(obj_lookup(e, "build"@));
            if name is Some && version is Some && common is Some && build is Some {
                Some(
                    PackageManifestView {
                        name: name->0,
                        version: version->0,
                        common: common->0,
                        build: build->0,
                    },
                )
            } else {
                None
            }
        },
        _ => None,
    }
}

/// A parsed package: the manifest beside the retained verbatim document.
pub struct Package {
    pub value: DocValue,
    pub manifest: PackageManifest,
}

impl Package {
    /// A package is well-formed when its retained document is an object
    /// that reads as its manifest.
    pub open spec fn wf(self) -> bool {
        &&& self.value@ is Obj
        &&& sp_manifest(self.value@) == Some(self.manifest@)
    }

    /// Reads a package from its document, keeping the document verbatim.
    pub fn from_doc(value: DocValue) -> (r: Result<Package, Error>)
        ensures
            match r {
                Ok(p) => p.value == value && sp_manifest(value@) == Some(p.manifest@) && p.wf(),
                Err(e) => sp_manifest(value@) is None && e matches Error::ConfigParse(_),
            },
    {
        if !value.is_obj() {
            return Err(Error::ConfigParse("the package descriptor must be a mapping".to_owned()));
        }
        let name = match value.get("name") {
            Some(DocValue::Str(s)) => s.clone(),
            _ => {
                return Err(Error::ConfigParse("the package needs a name".to_owned()));
            },
        };
        let version = match value.get("version") {
            Some(DocValue::Str(s)) => s.clone(),
            _ => {
                return Err(Error::ConfigParse("the package needs a version".to_owned()));
            },
        };
        let common = parse_common(&value)?;
        let build = match value.get("build") {
            None => None,
            Some(DocValue::Null) => None,
            Some(b) => Some(parse_config(b)?),
        };
        let manifest = PackageManifest { name, version, common, build };
        Ok(Package { value, manifest })
    }
}

} // verus!
