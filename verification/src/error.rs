use vstd::prelude::*;

verus! {

/// Everything that can go wrong while resolving a configuration or packing.
/// Each variant carries enough of the offending input to report it.
#[derive(Debug)]
pub enum Error {
    /// The configuration document does not have the expected shape;
    /// the payload describes the place that was rejected.
    ConfigParse(String),
    /// `--config` points at a file without an extension.
    NoConfigFileExtension,
    /// `--config` points at a file with an extension no parser is known for.
    UnknownConfigFileExtension(String),
    /// The interpreter run for a scripted configuration exited unsuccessfully.
    ConfigChild { status_code: Option<i32>, stderr: Option<String> },
    /// A `${name}` in a glob names neither `arch`, `platform` nor `env.*`.
    UnknownTemplateVariable(String),
    /// A `${env.NAME}` names an environment variable that is not set.
    MissingEnvironmentVariable(String),
    /// A package name holds a character outside `[A-Za-z0-9_-]`
    /// after normalization.
    InvalidPackageName(String),
    /// An ICO/ICNS/PNG container could not be decoded or re-encoded;
    /// the payload names the offending input.
    IconDecode(String),
    /// A target architecture or platform name outside the recognized set.
    UnknownEnvironmentName(String),
    /// A glob pattern the matcher refuses.
    Pattern(String),
    /// Writing the archive failed.
    Archive(String),
}

impl Error {
    /// A short human-readable description, in place of a `Display` impl.
    pub fn describe(&self) -> (r: String)
        ensures
            r@.len() > 0,
    {
        let base = match self {
            Error::ConfigParse(_) => "malformed configuration document",
            Error::NoConfigFileExtension => "no file extension in provided config path",
            Error::UnknownConfigFileExtension(_) => "unknown file extension in config path",
            Error::ConfigChild { .. } => "config interpreter process exited unsuccessfully",
            Error::UnknownTemplateVariable(_) => "unknown template variable",
            Error::MissingEnvironmentVariable(_) => "failed to get an env variable",
            Error::InvalidPackageName(_) => "invalid package name",
            Error::IconDecode(_) => "could not transcode an icon",
            Error::UnknownEnvironmentName(_) => "unknown architecture or platform name",
            Error::Pattern(_) => "invalid glob pattern",
            Error::Archive(_) => "could not write the archive",
        };
        let r = base.to_owned();
        proof {
            reveal_strlit("malformed configuration document");
            reveal_strlit("no file extension in provided config path");
            reveal_strlit("unknown file extension in config path");
            reveal_strlit("config interpreter process exited unsuccessfully");
            reveal_strlit("unknown template variable");
            reveal_strlit("failed to get an env variable");
            reveal_strlit("invalid package name");
            reveal_strlit("could not transcode an icon");
            reveal_strlit("unknown architecture or platform name");
            reveal_strlit("invalid glob pattern");
            reveal_strlit("could not write the archive");
        }
        r
    }
}

} // verus!
