use vstd::prelude::*;

use crate::doc::{DocValue, DocView};
use crate::environment::Platform;

verus! {

broadcast use vstd::string::group_string_axioms;

/// A scoped copy declaration: everything under `from`, filtered by `filter`,
/// lands under `to`.
pub struct FileSet {
    pub from: Option<String>,
    pub to: Option<String>,
    pub filter: Vec<String>,
}

/// A leading `./` carries no information in a scope path; the effective
/// value drops it.
pub open spec fn strip_dot_slash_spec(s: Seq<char>) -> Seq<char> {
    if s.len() >= 2 && s[0] == '.' && s[1] == '/' {
        s.skip(2)
    } else {
        s
    }
}

/// The string without a leading `./`, if it has one.
fn strip_dot_slash(s: &str) -> (r: &str)
    ensures
        r@ == strip_dot_slash_spec(s@),
{
    let n = s.unicode_len();
    if n >= 2 && s.get_char(0) == '.' && s.get_char(1) == '/' {
        let r = s.substring_char(2, n);
        proof {
            assert(r@ =~= s@.skip(2));
        }
        r
    } else {
        s
    }
}

impl FileSet {
    /// The effective scope root, without a leading `./`.
    pub fn from(&self) -> (r: Option<&str>)
        ensures
            match r {
                Some(s) => self.from is Some && s@ == strip_dot_slash_spec(self.from->0@),
                None => self.from is None,
            },
    {
        match &self.from {
            Some(f) => Some(strip_dot_slash(f.as_str())),
            None => None,
        }
    }

    /// The effective destination prefix, without a leading `./`.
    pub fn to(&self) -> (r: Option<&str>)
        ensures
            match r {
                Some(s) => self.to is Some && s@ == strip_dot_slash_spec(self.to->0@),
                None => self.to is None,
            },
    {
        match &self.to {
            Some(t) => Some(strip_dot_slash(t.as_str())),
            None => None,
        }
    }

    /// The ordered filter patterns of the scope.
    pub fn filters(&self) -> (r: &Vec<String>)
        ensures
            r == &self.filter,
    {
        &self.filter
    }
}

/// The mathematical shape of a scoped copy declaration.
pub struct FileSetView {
    pub from: Option<Seq<char>>,
    pub to: Option<Seq<char>>,
    pub filter: Seq<Seq<char>>,
}

impl View for FileSet {
    type V = FileSetView;

    open spec fn view(&self) -> FileSetView {
        FileSetView {
            from: self.from.deep_view(),
            to: self.to.deep_view(),
            filter: self.filter.deep_view(),
        }
    }
}

impl DeepView for FileSet {
    type V = FileSetView;

    open spec fn deep_view(&self) -> FileSetView {
        self.view()
    }
}

/// What to copy: either one glob pattern, or a filtered scope.
pub enum CopyDef {
    Simple(String),
    Scoped(FileSet),
}

/// The mathematical shape of a copy declaration.
pub enum CopyDefView {
    Simple(Seq<char>),
    Scoped(FileSetView),
}

impl View for CopyDef {
    type V = CopyDefView;

    open spec fn view(&self) -> CopyDefView {
        match self {
            CopyDef::Simple(s) => CopyDefView::Simple(s@),
            CopyDef::Scoped(fs) => CopyDefView::Scoped(fs@),
        }
    }
}

impl DeepView for CopyDef {
    type V = CopyDefView;

    open spec fn deep_view(&self) -> CopyDefView {
        self.view()
    }
}

/// The shapes of a sequence of copy declarations.
pub open spec fn views_of_copydefs(s: Seq<CopyDef>) -> Seq<CopyDefView> {
    Seq::new(s.len(), |i: int| s[i]@)
}

impl FileSet {
    /// An equal copy of the scope declaration.
    pub fn duplicate(&self) -> (r: FileSet)
        ensures
            r@ == self@,
    {
        let from = match &self.from {
            Some(f) => Some(f.clone()),
            None => None,
        };
        let to = match &self.to {
            Some(t) => Some(t.clone()),
            None => None,
        };
        let r = FileSet { from, to, filter: self.filter.clone() };
        proof {
            assert(r.filter.deep_view() =~= self.filter.deep_view());
        }
        r
    }
}

impl CopyDef {
    /// An equal copy of the declaration.
    pub fn duplicate(&self) -> (r: CopyDef)
        ensures
            r@ == self@,
    {
        match self {
            CopyDef::Simple(s) => CopyDef::Simple(s.clone()),
            CopyDef::Scoped(fs) => CopyDef::Scoped(fs.duplicate()),
        }
    }
}

/// Output-directory settings.
pub struct EBDirectories {
    pub output: Option<String>,
}

/// URL schemes an application registers for.
pub struct ProtocolAssociation {
    pub name: Option<String>,
    pub schemes: Vec<String>,
}

/// A file-type association, by extension and MIME type.
pub struct FileAssociation {
    pub ext: Vec<String>,
    pub mime_type: Option<String>,
}

impl FileAssociation {
    /// The extensions this association covers.
    pub fn exts(&self) -> (r: &Vec<String>)
        ensures
            r == &self.ext,
    {
        &self.ext
    }
}

/// The mathematical shape of a protocol association.
pub struct ProtocolAssociationView {
    pub name: Option<Seq<char>>,
    pub schemes: Seq<Seq<char>>,
}

impl View for ProtocolAssociation {
    type V = ProtocolAssociationView;

    open spec fn view(&self) -> ProtocolAssociationView {
        ProtocolAssociationView { name: self.name.deep_view(), schemes: self.schemes.deep_view() }
    }
}

impl DeepView for ProtocolAssociation {
    type V = ProtocolAssociationView;

    open spec fn deep_view(&self) -> ProtocolAssociationView {
        self.view()
    }
}

/// The mathematical shape of a file association.
pub struct FileAssociationView {
    pub ext: Seq<Seq<char>>,
    pub mime_type: Option<Seq<char>>,
}

impl View for FileAssociation {
    type V = FileAssociationView;

    open spec fn view(&self) -> FileAssociationView {
        FileAssociationView { ext: self.ext.deep_view(), mime_type: self.mime_type.deep_view() }
    }
}

impl DeepView for FileAssociation {
    type V = FileAssociationView;

    open spec fn deep_view(&self) -> FileAssociationView {
        self.view()
    }
}

/// The string-valued properties a platform section may override.
pub struct CommonOverridableProperties {
    pub description: Option<String>,
    pub executable_name: Option<String>,
    pub product_name: Option<String>,
    pub desktop_name: Option<String>,
}

/// The mathematical shape of the overridable properties.
pub struct CommonOverridableView {
    pub description: Option<Seq<char>>,
    pub executable_name: Option<Seq<char>>,
    pub product_name: Option<Seq<char>>,
    pub desktop_name: Option<Seq<char>>,
}

impl View for CommonOverridableProperties {
    type V = CommonOverridableView;

    open spec fn view(&self) -> CommonOverridableView {
        CommonOverridableView {
            description: self.description.deep_view(),
            executable_name: self.executable_name.deep_view(),
            product_name: self.product_name.deep_view(),
            desktop_name: self.desktop_name.deep_view(),
        }
    }
}

/// One layer of the configuration: the base document or one platform section.
pub struct EBuilderBaseConfig {
    pub common: CommonOverridableProperties,
    pub files: Vec<CopyDef>,
    pub asar_unpack: Vec<String>,
    pub extra_files: Vec<CopyDef>,
    pub extra_resources: Vec<CopyDef>,
    pub directories: EBDirectories,
    pub icon: Option<String>,
    pub protocols: Vec<ProtocolAssociation>,
    pub file_associations: Vec<FileAssociation>,
    pub extra_metadata: Option<DocValue>,
    pub category: Vec<String>,
    pub desktop: Option<Vec<(String, String)>>,
}

/// The mathematical shape of one configuration layer.
pub struct EBuilderBaseView {
    pub common: CommonOverridableView,
    pub files: Seq<CopyDefView>,
    pub asar_unpack: Seq<Seq<char>>,
    pub extra_files: Seq<CopyDefView>,
    pub extra_resources: Seq<CopyDefView>,
    pub output: Option<Seq<char>>,
    pub icon: Option<Seq<char>>,
    pub protocols: Seq<ProtocolAssociationView>,
    pub file_associations: Seq<FileAssociationView>,
    pub extra_metadata: Option<DocView>,
    pub category: Seq<Seq<char>>,
    pub desktop: Option<Seq<(Seq<char>, Seq<char>)>>,
}

impl View for EBuilderBaseConfig {
    type V = EBuilderBaseView;

    open spec fn view(&self) -> EBuilderBaseView {
        EBuilderBaseView {
            common: self.common@,
            files: self.files.deep_view(),
            asar_unpack: self.asar_unpack.deep_view(),
            extra_files: self.extra_files.deep_view(),
            extra_resources: self.extra_resources.deep_view(),
            output: self.directories.output.deep_view(),
            icon: self.icon.deep_view(),
            protocols: self.protocols.deep_view(),
            file_associations: self.file_associations.deep_view(),
            extra_metadata: self.extra_metadata.deep_view(),
            category: self.category.deep_view(),
            desktop: self.desktop.deep_view(),
        }
    }
}

/// The mathematical shape of a whole configuration.
pub struct EBuilderConfigView {
    pub base: EBuilderBaseView,
    pub linux: EBuilderBaseView,
    pub mac: EBuilderBaseView,
    pub win: EBuilderBaseView,
}

/// A build configuration: a base layer and one override layer per platform.
/// For every list-valued field the effective value for a target platform is
/// the platform entry when non-empty, else the base entry.
pub struct EBuilderConfig {
    pub base: EBuilderBaseConfig,
    pub linux: EBuilderBaseConfig,
    pub mac: EBuilderBaseConfig,
    pub win: EBuilderBaseConfig,
}

impl View for EBuilderConfig {
    type V = EBuilderConfigView;

    open spec fn view(&self) -> EBuilderConfigView {
        EBuilderConfigView { base: self.base@, linux: self.linux@, mac: self.mac@, win: self.win@ }
    }
}

impl EBuilderConfig {
    /// The platform layer consulted first for a target.
    pub open spec fn platform_layer(self, platform: Platform) -> EBuilderBaseConfig {
        match platform {
            Platform::Windows => self.win,
            Platform::Linux => self.linux,
            Platform::Darwin => self.mac,
        }
    }

    /// The effective `files` list for a target.
    pub open spec fn files_spec(self, platform: Platform) -> Seq<CopyDef> {
        if self.platform_layer(platform).files@.len() > 0 {
            self.platform_layer(platform).files@
        } else {
            self.base.files@
        }
    }

    /// The effective `asar_unpack` list for a target.
    pub open spec fn asar_unpack_spec(self, platform: Platform) -> Seq<String> {
        if self.platform_layer(platform).asar_unpack@.len() > 0 {
            self.platform_layer(platform).asar_unpack@
        } else {
            self.base.asar_unpack@
        }
    }

    /// The effective `extra_files` list for a target.
    pub open spec fn extra_files_spec(self, platform: Platform) -> Seq<CopyDef> {
        if self.platform_layer(platform).extra_files@.len() > 0 {
            self.platform_layer(platform).extra_files@
        } else {
            self.base.extra_files@
        }
    }

    /// The effective `extra_resources` list for a target.
    pub open spec fn extra_resources_spec(self, platform: Platform) -> Seq<CopyDef> {
        if self.platform_layer(platform).extra_resources@.len() > 0 {
            self.platform_layer(platform).extra_resources@
        } else {
            self.base.extra_resources@
        }
    }

    /// The effective protocol associations for a target.
    pub open spec fn protocols_spec(self, platform: Platform) -> Seq<ProtocolAssociation> {
        if self.platform_layer(platform).protocols@.len() > 0 {
            self.platform_layer(platform).protocols@
        } else {
            self.base.protocols@
        }
    }

    /// The effective file associations for a target.
    pub open spec fn file_associations_spec(self, platform: Platform) -> Seq<FileAssociation> {
        if self.platform_layer(platform).file_associations@.len() > 0 {
            self.platform_layer(platform).file_associations@
        } else {
            self.base.file_associations@
        }
    }

    /// The effective desktop categories for a target.
    pub open spec fn categories_spec(self, platform: Platform) -> Seq<String> {
        if self.platform_layer(platform).category@.len() > 0 {
            self.platform_layer(platform).category@
        } else {
            self.base.category@
        }
    }

    /// The effective output directory for a target, if configured.
    pub open spec fn output_dir_spec(self, platform: Platform) -> Option<Seq<char>> {
        match self.platform_layer(platform).directories.output {
            Some(o) => Some(o@),
            None => match self.base.directories.output {
                Some(o) => Some(o@),
                None => None,
            },
        }
    }

    pub(crate) fn current_platform(&self, platform: Platform) -> (r: &EBuilderBaseConfig)
        ensures
            *r == self.platform_layer(platform),
    {
        match platform {
            Platform::Windows => &self.win,
            Platform::Linux => &self.linux,
            Platform::Darwin => &self.mac,
        }
    }

    /// The `files` copy list: the platform entry when non-empty, else base.
    pub fn files(&self, platform: Platform) -> (r: &Vec<CopyDef>)
        ensures
            r@ == self.files_spec(platform),
    {
        let platform_files = &self.current_platform(platform).files;
        if platform_files.len() > 0 {
            platform_files
        } else {
            &self.base.files
        }
    }

    /// The `asar_unpack` globs: the platform entry when non-empty, else base.
    pub fn asar_unpack(&self, platform: Platform) -> (r: &Vec<String>)
        ensures
            r@ == self.asar_unpack_spec(platform),
    {
        let platform_asar = &self.current_platform(platform).asar_unpack;
        if platform_asar.len() > 0 {
            platform_asar
        } else {
            &self.base.asar_unpack
        }
    }

    /// The `extra_files` copy list: the platform entry when non-empty, else base.
    pub fn extra_files(&self, platform: Platform) -> (r: &Vec<CopyDef>)
        ensures
            r@ == self.extra_files_spec(platform),
    {
        let platform_extra = &self.current_platform(platform).extra_files;
        if platform_extra.len() > 0 {
            platform_extra
        } else {
            &self.base.extra_files
        }
    }

    /// The `extra_resources` copy list: the platform entry when non-empty, else base.
    pub fn extra_resources(&self, platform: Platform) -> (r: &Vec<CopyDef>)
        ensures
            r@ == self.extra_resources_spec(platform),
    {
        let platform_extra = &self.current_platform(platform).extra_resources;
        if platform_extra.len() > 0 {
            platform_extra
        } else {
            &self.base.extra_resources
        }
    }

    /// The extra metadata document: the platform entry when present, else base.
    pub fn extra_metadata(&self, platform: Platform) -> (r: Option<&DocValue>)
        ensures
            match r {
                Some(v) => {
                    &&& self.extra_metadata_spec(platform) is Some
                    &&& *v == self.extra_metadata_spec(platform)->0
                },
                None => self.extra_metadata_spec(platform) is None,
            },
    {
        let layer = self.current_platform(platform);
        match &layer.extra_metadata {
            Some(m) => Some(m),
            None => match &self.base.extra_metadata {
                Some(m) => Some(m),
                None => None,
            },
        }
    }

    /// The effective extra metadata for a target, if configured.
    pub open spec fn extra_metadata_spec(self, platform: Platform) -> Option<DocValue> {
        match self.platform_layer(platform).extra_metadata {
            Some(m) => Some(m),
            None => self.base.extra_metadata,
        }
    }

    /// The effective desktop-entry additions for a target, if configured.
    pub open spec fn desktop_properties_spec(self, platform: Platform) -> Option<
        Seq<(String, String)>,
    > {
        match self.platform_layer(platform).desktop {
            Some(d) => Some(d@),
            None => match self.base.desktop {
                Some(d) => Some(d@),
                None => None,
            },
        }
    }

    /// Extra desktop-entry lines: the platform mapping when present, else base.
    pub fn desktop_properties(&self, platform: Platform) -> (r: Option<&Vec<(String, String)>>)
        ensures
            match r {
                Some(d) => {
                    &&& self.desktop_properties_spec(platform) is Some
                    &&& d@ == self.desktop_properties_spec(platform)->0
                },
                None => self.desktop_properties_spec(platform) is None,
            },
    {
        let layer = self.current_platform(platform);
        match &layer.desktop {
            Some(d) => Some(d),
            None => match &self.base.desktop {
                Some(d) => Some(d),
                None => None,
            },
        }
    }

    /// The configured output directory: the platform entry when present, else base.
    pub fn output_dir(&self, platform: Platform) -> (r: Option<&str>)
        ensures
            match r {
                Some(s) => self.output_dir_spec(platform) == Some(s@),
                None => self.output_dir_spec(platform) is None,
            },
    {
        let layer = self.current_platform(platform);
        match &layer.directories.output {
            Some(o) => Some(o.as_str()),
            None => match &self.base.directories.output {
                Some(o) => Some(o.as_str()),
                None => None,
            },
        }
    }

    /// Protocol associations: the platform entry when non-empty, else base.
    pub fn protocol_associations(&self, platform: Platform) -> (r: &Vec<ProtocolAssociation>)
        ensures
            r@ == self.protocols_spec(platform),
    {
        let platform_protocols = &self.current_platform(platform).protocols;
        if platform_protocols.len() > 0 {
            platform_protocols
        } else {
            &self.base.protocols
        }
    }

    /// File associations: the platform entry when non-empty, else base.
    pub fn file_associations(&self, platform: Platform) -> (r: &Vec<FileAssociation>)
        ensures
            r@ == self.file_associations_spec(platform),
    {
        let platform_assocs = &self.current_platform(platform).file_associations;
        if platform_assocs.len() > 0 {
            platform_assocs
        } else {
            &self.base.file_associations
        }
    }

    /// Freedesktop menu categories: the platform entry when non-empty, else base.
    pub fn desktop_categories(&self, platform: Platform) -> (r: &Vec<String>)
        ensures
            r@ == self.categories_spec(platform),
    {
        let platform_categories = &self.current_platform(platform).category;
        if platform_categories.len() > 0 {
            platform_categories
        } else {
            &self.base.category
        }
    }

    /// The candidate icon paths, in the fixed probe order: the Linux icon,
    /// the Darwin icon or its default, the Windows icon or its default,
    /// and the base icon. Defaults are included whether or not the file exists.
    pub open spec fn icon_locations_spec(self) -> Seq<Seq<char>> {
        let lin: Seq<Seq<char>> = match self.linux.icon {
            Some(i) => seq![i@],
            None => seq![],
        };
        let mac: Seq<Seq<char>> = match self.mac.icon {
            Some(i) => seq![i@],
            None => seq!["build/icon.icns"@],
        };
        let win: Seq<Seq<char>> = match self.win.icon {
            Some(i) => seq![i@],
            None => seq!["build/icon.ico"@],
        };
        let base: Seq<Seq<char>> = match self.base.icon {
            Some(i) => seq![i@],
            None => seq![],
        };
        lin + mac + win + base
    }

    /// The candidate icon paths for the transcoder, in probe order.
    pub fn icon_locations(&self) -> (r: Vec<String>)
        ensures
            r.deep_view() == self.icon_locations_spec(),
    {
        let mut out: Vec<String> = Vec::new();
        match &self.linux.icon {
            Some(i) => { out.push(i.clone()) },
            None => {},
        }
        match &self.mac.icon {
            Some(i) => { out.push(i.clone()) },
            None => { out.push("build/icon.icns".to_owned()) },
        }
        match &self.win.icon {
            Some(i) => { out.push(i.clone()) },
            None => { out.push("build/icon.ico".to_owned()) },
        }
        match &self.base.icon {
            Some(i) => { out.push(i.clone()) },
            None => {},
        }
        proof {
            assert(out.deep_view() =~= self.icon_locations_spec());
        }
        out
    }
}

/// A configuration whose layers all declare no files and no unpack globs
/// resolves to an empty file list and an empty unpack list, whatever the
/// target platform.
pub proof fn lemma_empty_selection(cfg: EBuilderConfig, platform: Platform)
    requires
        cfg.base.files@.len() == 0,
        cfg.linux.files@.len() == 0,
        cfg.mac.files@.len() == 0,
        cfg.win.files@.len() == 0,
        cfg.base.asar_unpack@.len() == 0,
        cfg.linux.asar_unpack@.len() == 0,
        cfg.mac.asar_unpack@.len() == 0,
        cfg.win.asar_unpack@.len() == 0,
    ensures
        cfg.files_spec(platform).len() == 0,
        cfg.asar_unpack_spec(platform).len() == 0,
{
}

/// The effective file list is the platform override exactly when that
/// override is non-empty, and the base list otherwise — never a mix of
/// the two.
pub proof fn lemma_files_layering(cfg: EBuilderConfig, platform: Platform)
    ensures
        cfg.platform_layer(platform).files@.len() > 0 ==> cfg.files_spec(platform)
            == cfg.platform_layer(platform).files@,
        cfg.platform_layer(platform).files@.len() == 0 ==> cfg.files_spec(platform)
            == cfg.base.files@,
{
}

} // verus!
