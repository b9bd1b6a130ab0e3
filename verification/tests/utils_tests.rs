use electron_tasje::environment::{Architecture, Environment, Platform};
use electron_tasje::error::Error;
use electron_tasje::utils::{fill_variable_template, filesafe_package_name};

fn aarch64_linux() -> Environment {
    Environment { architecture: Architecture::Aarch64, platform: Platform::Linux }
}

#[test]
fn test_filesafe_name() {
    assert_eq!(filesafe_package_name("tasje").unwrap(), "tasje");
    assert_eq!(filesafe_package_name("@bitwarden/desktop").unwrap(), "bitwarden-desktop");
}

#[test]
fn test_filesafe_name_rejects_invalid() {
    let err = filesafe_package_name("bad name!").unwrap_err();
    assert!(matches!(err, Error::InvalidPackageName(n) if n == "bad name!"));
}

#[test]
fn test_filesafe_name_rejects_empty_mapping() {
    let err = filesafe_package_name("@").unwrap_err();
    assert!(matches!(err, Error::InvalidPackageName(n) if n == "@"));
    let err = filesafe_package_name("").unwrap_err();
    assert!(matches!(err, Error::InvalidPackageName(n) if n.is_empty()));
}

#[test]
fn test_variable_templates() {
    let env = aarch64_linux();
    let vars = vec![("CARGO_PKG_NAME".to_string(), "electron_tasje".to_string())];
    assert_eq!(fill_variable_template("tasje", &env, &vars).unwrap(), "tasje");
    assert_eq!(
        fill_variable_template("tasje-${arch}-${platform}", &env, &vars).unwrap(),
        "tasje-arm64-linux"
    );
    assert_eq!(
        fill_variable_template("_${env.CARGO_PKG_NAME}_", &env, &vars).unwrap(),
        "_electron_tasje_"
    );
}

#[test]
fn test_variable_templates_unknown_variable() {
    let env = aarch64_linux();
    let vars: Vec<(String, String)> = Vec::new();
    let err = fill_variable_template("a-${bogus}-b", &env, &vars).unwrap_err();
    assert!(matches!(err, Error::UnknownTemplateVariable(v) if v == "bogus"));
}

#[test]
fn test_variable_templates_missing_env() {
    let env = aarch64_linux();
    let vars: Vec<(String, String)> = Vec::new();
    let err = fill_variable_template("${env.NO_SUCH_VARIABLE_SET}", &env, &vars).unwrap_err();
    assert!(matches!(err, Error::MissingEnvironmentVariable(v) if v == "NO_SUCH_VARIABLE_SET"));
}

#[test]
fn test_variable_templates_leave_plain_text() {
    let env = aarch64_linux();
    let vars: Vec<(String, String)> = Vec::new();
    assert_eq!(fill_variable_template("${}", &env, &vars).unwrap(), "${}");
    assert_eq!(fill_variable_template("$x{arch}", &env, &vars).unwrap(), "$x{arch}");
    assert_eq!(
        fill_variable_template("${ platform }", &env, &vars).unwrap(),
        "linux"
    );
}

#[test]
fn test_environment_names() {
    assert!(matches!(Architecture::from_tasje_name("x86_64"), Ok(Architecture::X86_64)));
    assert!(matches!(Architecture::from_tasje_name("aarch64"), Ok(Architecture::Aarch64)));
    assert!(matches!(
        Architecture::from_tasje_name("sparc"),
        Err(Error::UnknownEnvironmentName(n)) if n == "sparc"
    ));
    assert!(matches!(Platform::from_tasje_name("windows"), Ok(Platform::Windows)));
    assert!(matches!(
        Platform::from_tasje_name("beos"),
        Err(Error::UnknownEnvironmentName(n)) if n == "beos"
    ));
    assert_eq!(Architecture::ArmV7.to_node(), "arm");
    assert_eq!(Platform::Darwin.to_node(), "darwin");
}
