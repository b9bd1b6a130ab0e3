use vstd::prelude::*;

use crate::app::App;
use crate::config::{views_of_copydefs, CopyDef, CopyDefView};
use crate::desktop::views_of_strings;
use crate::environment::Environment;
use crate::utils::{path_join, spec_path_join};

verus! {

broadcast use vstd::string::group_string_axioms;

/// The glob that always heads the archive's file selection, so that
/// excludes can reach inside vendored packages.
pub open spec fn node_modules_glob() -> CopyDefView {
    CopyDefView::Simple("node_modules/**/*"@)
}

/// The fixed excludes appended after the configured files: development
/// and version-control detritus never ships, whatever the configuration.
pub open spec fn forced_filters_spec() -> Seq<CopyDefView> {
    seq![
        CopyDefView::Simple("!**/node_modules/.bin"@),
        CopyDefView::Simple("!**/*.{md,rst,markdown}"@),
        CopyDefView::Simple(
            "!**/{__tests__,powered-test,spec,example,examples,readme,README,Readme,changelog,CHANGELOG,Changelog,ChangeLog}"@,
        ),
        CopyDefView::Simple("!**/*.{spec,test}.*"@),
        CopyDefView::Simple("!**/._*"@),
        CopyDefView::Simple(
            "!**/{.editorconfig,.DS_Store,.git,.svn,.hg,CVS,RCS,.gitattributes,.nvmrc,.nycrc,Makefile,CMakeLists.txt}"@,
        ),
        CopyDefView::Simple(
            "!**/{__pycache__,thumbs.db,.flowconfig,.idea,.vs,.vscode,.nyc_output,.docker-compose.yml}"@,
        ),
        CopyDefView::Simple(
            "!**/{.github,.gitlab,.gitlab-ci.yml,appveyor.yml,.travis.yml,circle.yml,.woodpecker.yml}"@,
        ),
        CopyDefView::Simple("!**/{package-lock.json,yarn.lock}"@),
        CopyDefView::Simple("!**/.{git,eslint,tslint,prettier,docker,npm,yarn}ignore"@),
        CopyDefView::Simple("!**/.{prettier,eslint,jshint,jsdoc}rc"@),
        CopyDefView::Simple(
            "!**/{.prettierrc,webpack.config,.jshintrc,jsdoc,.eslintrc,tsconfig}{,.json,.js,.yml,yaml}"@,
        ),
        CopyDefView::Simple("!**/{yarn,npm}-{debug,error}{,.log,.json}"@),
        CopyDefView::Simple("!**/.{yarn,npm}-{metadata,integrity}"@),
        CopyDefView::Simple(
            "!**/*.{iml,o,hprof,orig,pyc,pyo,rbc,swp,csproj,sln,xproj,c,h,cc,cpp,hpp,lzz,gyp,d.ts}"@,
        ),
    ]
}

/// The fixed exclude overlay, as copy declarations.
pub fn forced_filters() -> (r: Vec<CopyDef>)
    ensures
        r.deep_view() == forced_filters_spec(),
{
    let mut out: Vec<CopyDef> = Vec::new();
    out.push(CopyDef::Simple("!**/node_modules/.bin".to_owned()));
    out.push(CopyDef::Simple("!**/*.{md,rst,markdown}".to_owned()));
    out.push(
        CopyDef::Simple(
            "!**/{__tests__,powered-test,spec,example,examples,readme,README,Readme,changelog,CHANGELOG,Changelog,ChangeLog}".to_owned(),
        ),
    );
    out.push(CopyDef::Simple("!**/*.{spec,test}.*".to_owned()));
    out.push(CopyDef::Simple("!**/._*".to_owned()));
    out.push(
        CopyDef::Simple(
            "!**/{.editorconfig,.DS_Store,.git,.svn,.hg,CVS,RCS,.gitattributes,.nvmrc,.nycrc,Makefile,CMakeLists.txt}".to_owned(),
        ),
    );
    out.push(
        CopyDef::Simple(
            "!**/{__pycache__,thumbs.db,.flowconfig,.idea,.vs,.vscode,.nyc_output,.docker-compose.yml}".to_owned(),
        ),
    );
    out.push(
        CopyDef::Simple(
            "!**/{.github,.gitlab,.gitlab-ci.yml,appveyor.yml,.travis.yml,circle.yml,.woodpecker.yml}".to_owned(),
        ),
    );
    out.push(CopyDef::Simple("!**/{package-lock.json,yarn.lock}".to_owned()));
    out.push(CopyDef::Simple("!**/.{git,eslint,tslint,prettier,docker,npm,yarn}ignore".to_owned()));
    out.push(CopyDef::Simple("!**/.{prettier,eslint,jshint,jsdoc}rc".to_owned()));
    out.push(
        CopyDef::Simple(
            "!**/{.prettierrc,webpack.config,.jshintrc,jsdoc,.eslintrc,tsconfig}{,.json,.js,.yml,yaml}".to_owned(),
        ),
    );
    out.push(CopyDef::Simple("!**/{yarn,npm}-{debug,error}{,.log,.json}".to_owned()));
    out.push(CopyDef::Simple("!**/.{yarn,npm}-{metadata,integrity}".to_owned()));
    out.push(
        CopyDef::Simple(
            "!**/*.{iml,o,hprof,orig,pyc,pyo,rbc,swp,csproj,sln,xproj,c,h,cc,cpp,hpp,lzz,gyp,d.ts}".to_owned(),
        ),
    );
    proof {
        assert(out.deep_view() =~= forced_filters_spec());
    }
    out
}

/// Records the optional overrides and extra globs of one pack run,
/// then binds them into an immutable packing process.
pub struct PackingProcessBuilder {
    pub app: App,
    pub base_output_dir: Option<String>,
    pub icons_output_dir: Option<String>,
    pub resources_output_dir: Option<String>,
    pub target_environment: Option<Environment>,
    pub additional_files: Vec<CopyDef>,
    pub additional_asar_unpack: Vec<String>,
    pub additional_extra_resources: Vec<CopyDef>,
}

impl PackingProcessBuilder {
    /// A builder with nothing overridden yet.
    pub fn new(app: App) -> (r: PackingProcessBuilder)
        ensures
            r.app == app,
            r.base_output_dir is None,
            r.icons_output_dir is None,
            r.resources_output_dir is None,
            r.target_environment is None,
            r.additional_files@.len() == 0,
            r.additional_asar_unpack@.len() == 0,
            r.additional_extra_resources@.len() == 0,
    {
        PackingProcessBuilder {
            app,
            base_output_dir: None,
            icons_output_dir: None,
            resources_output_dir: None,
            target_environment: None,
            additional_files: Vec::new(),
            additional_asar_unpack: Vec::new(),
            additional_extra_resources: Vec::new(),
        }
    }

    /// Overrides where the build lands, resolved under the package root.
    pub fn base_output_dir(self, path: &str) -> (r: PackingProcessBuilder)
        ensures
            r.base_output_dir matches Some(p) && p@ == spec_path_join(self.app.root@, path@),
            r.app == self.app,
            r.icons_output_dir == self.icons_output_dir,
            r.resources_output_dir == self.resources_output_dir,
            r.target_environment == self.target_environment,
            r.additional_files == self.additional_files,
            r.additional_asar_unpack == self.additional_asar_unpack,
            r.additional_extra_resources == self.additional_extra_resources,
    {
        let joined = path_join(self.app.root.as_str(), path);
        PackingProcessBuilder { base_output_dir: Some(joined), ..self }
    }

    /// Sets the environment the pack targets.
    pub fn target_environment(self, environment: Environment) -> (r: PackingProcessBuilder)
        ensures
            r.target_environment == Some(environment),
            r.app == self.app,
            r.base_output_dir == self.base_output_dir,
            r.icons_output_dir == self.icons_output_dir,
            r.resources_output_dir == self.resources_output_dir,
            r.additional_files == self.additional_files,
            r.additional_asar_unpack == self.additional_asar_unpack,
            r.additional_extra_resources == self.additional_extra_resources,
    {
        PackingProcessBuilder { target_environment: Some(environment), ..self }
    }

    /// Appends globs treated as part of the configured `files`.
    pub fn additional_files(self, add: Vec<CopyDef>) -> (r: PackingProcessBuilder)
        ensures
            r.additional_files@ == self.additional_files@ + add@,
            r.app == self.app,
            r.base_output_dir == self.base_output_dir,
            r.icons_output_dir == self.icons_output_dir,
            r.resources_output_dir == self.resources_output_dir,
            r.target_environment == self.target_environment,
            r.additional_asar_unpack == self.additional_asar_unpack,
            r.additional_extra_resources == self.additional_extra_resources,
    {
        let mut this = self;
        let mut add = add;
        this.additional_files.append(&mut add);
        this
    }

    /// Appends globs treated as part of the configured `asar_unpack`.
    pub fn additional_asar_unpack(self, add: Vec<String>) -> (r: PackingProcessBuilder)
        ensures
            r.additional_asar_unpack@ == self.additional_asar_unpack@ + add@,
            r.app == self.app,
            r.base_output_dir == self.base_output_dir,
            r.icons_output_dir == self.icons_output_dir,
            r.resources_output_dir == self.resources_output_dir,
            r.target_environment == self.target_environment,
            r.additional_files == self.additional_files,
            r.additional_extra_resources == self.additional_extra_resources,
    {
        let mut this = self;
        let mut add = add;
        this.additional_asar_unpack.append(&mut add);
        this
    }

    /// Appends globs treated as part of the configured `extra_resources`.
    pub fn additional_extra_resources(self, add: Vec<CopyDef>) -> (r: PackingProcessBuilder)
        ensures
            r.additional_extra_resources@ == self.additional_extra_resources@ + add@,
            r.app == self.app,
            r.base_output_dir == self.base_output_dir,
            r.icons_output_dir == self.icons_output_dir,
            r.resources_output_dir == self.resources_output_dir,
            r.target_environment == self.target_environment,
            r.additional_files == self.additional_files,
            r.additional_asar_unpack == self.additional_asar_unpack,
    {
        let mut this = self;
        let mut add = add;
        this.additional_extra_resources.append(&mut add);
        this
    }

    /// Where the build lands: the override if given, else the configured
    /// output directory, else `tasje_out`; always under the package root.
    pub open spec fn resolved_base_dir(self, environment: Environment) -> Seq<char> {
        spec_path_join(
            self.app.root@,
            match self.base_output_dir {
                Some(p) => p@,
                None => match self.app.config.output_dir_spec(environment.platform) {
                    Some(o) => o,
                    None => "tasje_out"@,
                },
            },
        )
    }

    /// Binds the recorded choices into an immutable packing process.
    /// The caller names the target environment before building.
    pub fn build(self) -> (r: PackingProcess)
        requires
            self.target_environment is Some,
        ensures
            ({
                let environment = self.target_environment->0;
                let base = self.resolved_base_dir(environment);
                &&& r.app == self.app
                &&& r.environment == environment
                &&& r.base_output_dir@ == base
                &&& r.icons_output_dir@ == spec_path_join(
                    base,
                    match self.icons_output_dir {
                        Some(p) => p@,
                        None => "icons"@,
                    },
                )
                &&& r.resources_output_dir@ == spec_path_join(
                    base,
                    match self.resources_output_dir {
                        Some(p) => p@,
                        None => "resources"@,
                    },
                )
                &&& r.additional_files == self.additional_files
                &&& r.additional_asar_unpack == self.additional_asar_unpack
                &&& r.additional_extra_resources == self.additional_extra_resources
            }),
    {
        let environment = match &self.target_environment {
            Some(e) => *e,
            None => unreached(),
        };
        let base_output_dir: String = match &self.base_output_dir {
            Some(p) => path_join(self.app.root.as_str(), p.as_str()),
            None => match self.app.config.output_dir(environment.platform) {
                Some(o) => {
                    let owned = o.to_owned();
                    path_join(self.app.root.as_str(), owned.as_str())
                },
                None => path_join(self.app.root.as_str(), "tasje_out"),
            },
        };
        let icons_output_dir = match &self.icons_output_dir {
            Some(p) => path_join(base_output_dir.as_str(), p.as_str()),
            None => path_join(base_output_dir.as_str(), "icons"),
        };
        let resources_output_dir = match &self.resources_output_dir {
            Some(p) => path_join(base_output_dir.as_str(), p.as_str()),
            None => path_join(base_output_dir.as_str(), "resources"),
        };
        PackingProcess {
            app: self.app,
            base_output_dir,
            icons_output_dir,
            resources_output_dir,
            environment: environment,
            additional_files: self.additional_files,
            additional_asar_unpack: self.additional_asar_unpack,
            additional_extra_resources: self.additional_extra_resources,
        }
    }
}

/// One pack run, bound to an app, a target environment and the resolved
/// output directories.
pub struct PackingProcess {
    pub app: App,
    pub base_output_dir: String,
    pub icons_output_dir: String,
    pub resources_output_dir: String,
    pub environment: Environment,
    pub additional_files: Vec<CopyDef>,
    pub additional_asar_unpack: Vec<String>,
    pub additional_extra_resources: Vec<CopyDef>,
}

impl PackingProcess {
    /// The file selection the archive walks: the vendored-packages glob,
    /// the configured files, the extra globs from the command line, and
    /// the fixed excludes, in that order.
    pub open spec fn composed_files_spec(self) -> Seq<CopyDefView> {
        seq![node_modules_glob()] + views_of_copydefs(
            self.app.config.files_spec(self.environment.platform),
        ) + self.additional_files.deep_view() + forced_filters_spec()
    }

    /// The archive's file selection, ready for planning a walk.
    #[verifier::loop_isolation(false)]
    pub fn compose_files(&self) -> (r: Vec<CopyDef>)
        ensures
            r.deep_view() == self.composed_files_spec(),
    {
        let mut out: Vec<CopyDef> = Vec::new();
        out.push(CopyDef::Simple("node_modules/**/*".to_owned()));
        let configured = self.app.config.files(self.environment.platform);
        let ghost cv = views_of_copydefs(self.app.config.files_spec(self.environment.platform));
        let n = configured.len();
        let mut i: usize = 0;
        while i < n
            invariant
                i <= n,
                n == configured.len(),
                configured@ == self.app.config.files_spec(self.environment.platform),
                out.deep_view() == seq![node_modules_glob()] + cv.take(i as int),
            decreases n - i,
        {
            let d = configured[i].duplicate();
            let ghost prev = out.deep_view();
            let ghost dv_elem = d.deep_view();
            out.push(d);
            proof {
                assert(out.deep_view() =~= prev.push(dv_elem));
                assert(dv_elem == cv[i as int]);
                assert(cv.take(i + 1 as int) =~= cv.take(i as int).push(cv[i as int]));
                assert(prev.push(dv_elem) =~= seq![node_modules_glob()] + cv.take(i + 1 as int));
            }
            i += 1;
        }
        proof {
            assert(cv.take(n as int) =~= cv);
        }
        let ghost av = self.additional_files.deep_view();
        let m = self.additional_files.len();
        let mut j: usize = 0;
        while j < m
            invariant
                j <= m,
                m == self.additional_files@.len(),
                out.deep_view() == seq![node_modules_glob()] + cv + av.take(j as int),
            decreases m - j,
        {
            let d = self.additional_files[j].duplicate();
            let ghost prev = out.deep_view();
            let ghost dv_elem = d.deep_view();
            out.push(d);
            proof {
                assert(out.deep_view() =~= prev.push(dv_elem));
                assert(dv_elem == av[j as int]);
                assert(av.take(j + 1 as int) =~= av.take(j as int).push(av[j as int]));
                assert(prev.push(dv_elem) =~= seq![node_modules_glob()] + cv + av.take(
                    j + 1 as int,
                ));
            }
            j += 1;
        }
        proof {
            assert(av.take(m as int) =~= av);
        }
        let mut forced = forced_filters();
        let ghost before = out.deep_view();
        let ghost fv = forced.deep_view();
        let k = forced.len();
        let mut t: usize = 0;
        while t < k
            invariant
                t <= k,
                k == forced@.len(),
                forced.deep_view() == fv,
                out.deep_view() == before + fv.take(t as int),
            decreases k - t,
        {
            let d = forced[t].duplicate();
            let ghost prev = out.deep_view();
            let ghost dv_elem = d.deep_view();
            out.push(d);
            proof {
                assert(out.deep_view() =~= prev.push(dv_elem));
                assert(dv_elem == fv[t as int]);
                assert(fv.take(t + 1 as int) =~= fv.take(t as int).push(fv[t as int]));
                assert(prev.push(dv_elem) =~= before + fv.take(t + 1 as int));
            }
            t += 1;
        }
        proof {
            assert(fv.take(k as int) =~= fv);
            assert(out.deep_view() =~= self.composed_files_spec());
        }
        out
    }

    /// The unpack globs the archive walk consults: the configured list
    /// with the command line's additions.
    pub open spec fn composed_unpack_spec(self) -> Seq<Seq<char>> {
        views_of_strings(self.app.config.asar_unpack_spec(self.environment.platform))
            + self.additional_asar_unpack.deep_view()
    }

    /// The unpack glob list, or nothing when it is empty.
    #[verifier::loop_isolation(false)]
    pub fn compose_asar_unpack(&self) -> (r: Option<Vec<String>>)
        ensures
            match r {
                Some(v) => self.composed_unpack_spec().len() > 0 && v.deep_view()
                    == self.composed_unpack_spec(),
                None => self.composed_unpack_spec().len() == 0,
            },
    {
        let configured = self.app.config.asar_unpack(self.environment.platform);
        let ghost cv = views_of_strings(
            self.app.config.asar_unpack_spec(self.environment.platform),
        );
        let mut out: Vec<String> = configured.clone();
        proof {
            assert(out.deep_view() =~= cv);
        }
        let ghost av = self.additional_asar_unpack.deep_view();
        let m = self.additional_asar_unpack.len();
        let mut j: usize = 0;
        while j < m
            invariant
                j <= m,
                m == self.additional_asar_unpack@.len(),
                out.deep_view() == cv + av.take(j as int),
            decreases m - j,
        {
            let s = self.additional_asar_unpack[j].clone();
            let ghost prev = out.deep_view();
            out.push(s);
            proof {
                assert(out.deep_view() =~= prev.push(av[j as int]));
                assert(av.take(j + 1 as int) =~= av.take(j as int).push(av[j as int]));
                assert(prev.push(av[j as int]) =~= cv + av.take(j + 1 as int));
            }
            j += 1;
        }
        proof {
            assert(av.take(m as int) =~= av);
        }
        if out.len() == 0 {
            None
        } else {
            Some(out)
        }
    }

    /// A copy selection with the command line's extra resources appended,
    /// as both extra-file passes walk it.
    #[verifier::loop_isolation(false)]
    pub fn compose_extra(&self, defs: &Vec<CopyDef>) -> (r: Vec<CopyDef>)
        ensures
            r.deep_view() == defs.deep_view() + self.additional_extra_resources.deep_view(),
    {
        let ghost dv = defs.deep_view();
        let mut out: Vec<CopyDef> = Vec::new();
        let n = defs.len();
        let mut i: usize = 0;
        while i < n
            invariant
                i <= n,
                n == defs@.len(),
                out.deep_view() == dv.take(i as int),
            decreases n - i,
        {
            let d = defs[i].duplicate();
            let ghost prev = out.deep_view();
            let ghost dv_elem = d.deep_view();
            out.push(d);
            proof {
                assert(out.deep_view() =~= prev.push(dv_elem));
                assert(dv_elem == dv[i as int]);
                assert(dv.take(i + 1 as int) =~= dv.take(i as int).push(dv[i as int]));
                assert(prev.push(dv_elem) =~= dv.take(i + 1 as int));
            }
            i += 1;
        }
        proof {
            assert(dv.take(n as int) =~= dv);
        }
        let ghost av = self.additional_extra_resources.deep_view();
        let m = self.additional_extra_resources.len();
        let mut j: usize = 0;
        while j < m
            invariant
                j <= m,
                m == self.additional_extra_resources@.len(),
                out.deep_view() == dv + av.take(j as int),
            decreases m - j,
        {
            let d = self.additional_extra_resources[j].duplicate();
            let ghost prev = out.deep_view();
            let ghost dv_elem = d.deep_view();
            out.push(d);
            proof {
                assert(out.deep_view() =~= prev.push(dv_elem));
                assert(dv_elem == av[j as int]);
                assert(av.take(j + 1 as int) =~= av.take(j as int).push(av[j as int]));
                assert(prev.push(dv_elem) =~= dv + av.take(j + 1 as int));
            }
            j += 1;
        }
        proof {
            assert(av.take(m as int) =~= av);
        }
        out
    }
}

} // verus!
