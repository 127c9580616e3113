use typst_pack::error::ConfigError;
use typst_pack::manifest::{PackageManifest, TemplateConfig};
use typst_pack::naming::{check_package_name, validate_package_name};

#[test]
fn matching_directory_name_passes() {
    assert!(check_package_name("cards", Some("cards".to_string())).is_ok());
    assert!(validate_package_name("cards", "/tmp/work/cards").is_ok());
}

#[test]
fn different_directory_name_fails() {
    match validate_package_name("cards", "/tmp/work/card") {
        Err(ConfigError::NameMismatch { declared, directory }) => {
            assert_eq!(declared, "cards");
            assert_eq!(directory, "card");
        }
        other => panic!("unexpected: {:?}", other),
    }
}

#[test]
fn directory_without_name_fails() {
    assert!(matches!(check_package_name("cards", None), Err(ConfigError::NoDirectoryName)));
    assert!(matches!(validate_package_name("cards", "/"), Err(ConfigError::NoDirectoryName)));
}

#[test]
fn entrypoint_defaults_to_main() {
    let mut m = PackageManifest {
        name: "p".to_string(),
        version: "1.0.0".to_string(),
        exclude: vec![],
        entrypoint: None,
    };
    assert_eq!(m.entrypoint_or_default(), "main.typ");
    m.entrypoint = Some("lib.typ".to_string());
    assert_eq!(m.entrypoint_or_default(), "lib.typ");
}

#[test]
fn template_needs_path_and_entrypoint() {
    let t = TemplateConfig {
        path: Some("template".to_string()),
        entrypoint: Some("main.typ".to_string()),
        thumbnail: Some("thumb.png".to_string()),
    };
    let d = t.descriptor().unwrap();
    assert_eq!(d.relative_path, "template");
    assert_eq!(d.entrypoint, "main.typ");
    assert_eq!(d.thumbnail.as_deref(), Some("thumb.png"));
    let partial = TemplateConfig { path: Some("template".to_string()), entrypoint: None, thumbnail: None };
    assert!(partial.descriptor().is_none());
}
