use cargo_mobile::app::{App, Error, Pack, Raw, DEFAULT_ASSET_DIR};
use cargo_mobile::domain::DomainError;
use cargo_mobile::name::Invalid;

fn raw(name: &str, domain: &str, asset_dir: Option<&str>) -> Raw {
    Raw {
        name: name.to_string(),
        stylized_name: None,
        domain: domain.to_string(),
        asset_dir: asset_dir.map(|s| s.to_string()),
        template_pack: None,
    }
}

#[test]
fn from_raw_accepts_defaults() {
    let app = App::from_raw("/home/me/game".to_string(), raw("my-game", "example.com", None)).unwrap();
    assert_eq!(app.root_dir(), "/home/me/game");
    assert_eq!(app.name(), "my-game");
    assert_eq!(app.stylized_name(), "my-game");
    assert_eq!(app.domain(), "example.com");
    assert_eq!(app.configured_asset_dir(), DEFAULT_ASSET_DIR);
    assert_eq!(app.asset_dir(), "/home/me/game/assets");
    assert_eq!(app.manifest_path(), "/home/me/game/Cargo.toml");
    match app.template_pack() {
        Pack::Simple(dir) => assert_eq!(dir, ""),
    }
}

#[test]
fn from_raw_keeps_stylized_name_and_asset_dir() {
    let mut r = raw("my-game", "example.com", Some("res/art"));
    r.stylized_name = Some("My Game".to_string());
    r.template_pack = Some("brainstorm".to_string());
    let app = App::from_raw("/work/".to_string(), r).unwrap();
    assert_eq!(app.stylized_name(), "My Game");
    assert_eq!(app.asset_dir(), "/work/res/art");
    assert_eq!(app.manifest_path(), "/work/Cargo.toml");
}

#[test]
fn from_raw_refuses_bad_name_first() {
    let err = App::from_raw("/p".to_string(), raw("", "", Some("/etc"))).unwrap_err();
    match err {
        Error::NameInvalid(Invalid::Empty) => {}
        other => panic!("unexpected {:?}", other),
    }
}

#[test]
fn from_raw_refuses_bad_domain() {
    let err = App::from_raw("/p".to_string(), raw("game", "com..example", None)).unwrap_err();
    match err {
        Error::DomainInvalid { domain, cause } => {
            assert_eq!(domain, "com..example");
            assert_eq!(cause, DomainError::EmptyLabel);
        }
        other => panic!("unexpected {:?}", other),
    }
}

#[test]
fn from_raw_refuses_asset_dir_outside_root() {
    let err = App::from_raw("/p/game".to_string(), raw("game", "example.com", Some("../other"))).unwrap_err();
    match err {
        Error::AssetDirOutsideOfAppRoot { asset_dir, root_dir } => {
            assert_eq!(asset_dir, "../other");
            assert_eq!(root_dir, "/p/game");
        }
        other => panic!("unexpected {:?}", other),
    }
    let err = App::from_raw("/p/game".to_string(), raw("game", "example.com", Some("/etc/assets"))).unwrap_err();
    assert!(matches!(err, Error::AssetDirOutsideOfAppRoot { .. }));
}

#[test]
fn from_raw_refuses_asset_dir_above_filesystem_root() {
    let err = App::from_raw("/p".to_string(), raw("game", "example.com", Some("../../x"))).unwrap_err();
    match err {
        Error::AssetDirNormalizationFailed { asset_dir, cause } => {
            assert_eq!(asset_dir, "../../x");
            assert_eq!(cause.path, "../../x");
        }
        other => panic!("unexpected {:?}", other),
    }
}

#[test]
fn from_raw_accepts_asset_dir_that_comes_back_inside() {
    let app = App::from_raw("/p/game".to_string(), raw("game", "example.com", Some("x/../art"))).unwrap();
    assert_eq!(app.asset_dir(), "/p/game/x/../art");
}

#[test]
fn reverse_domain_reverses_labels() {
    let app = App::from_raw("/p".to_string(), raw("game", "studio.example.com", None)).unwrap();
    assert_eq!(app.reverse_domain(), "com.example.studio");
    let again = App::from_raw("/p".to_string(), raw("game", &app.reverse_domain(), None)).unwrap();
    assert_eq!(again.reverse_domain(), "studio.example.com");
}

#[test]
fn name_snake_uses_snake_case() {
    let app = App::from_raw("/p".to_string(), raw("MyGame-Demo", "example.com", None)).unwrap();
    assert_eq!(app.name_snake(), "my_game_demo");
}

#[test]
fn prefix_and_unprefix_paths() {
    let app = App::from_raw("/p/game".to_string(), raw("game", "example.com", None)).unwrap();
    let full = app.prefix_path("src/lib.rs");
    assert_eq!(full, "/p/game/src/lib.rs");
    assert_eq!(app.unprefix_path(&full).unwrap(), "src/lib.rs");
    assert_eq!(app.prefix_path("/etc/hosts"), "/etc/hosts");
    let err = app.unprefix_path("/etc/hosts").unwrap_err();
    assert_eq!(err.path, "/etc/hosts");
    assert_eq!(err.prefix, "/p/game");
    assert_eq!(app.unprefix_path("/p/game").unwrap(), "");
    assert!(app.unprefix_path("/p/gamer/x").is_err());
}

#[test]
fn refusals_are_described() {
    let err = App::from_raw("/p".to_string(), raw("9x", "example.com", None)).unwrap_err();
    assert_eq!(
        err.describe(),
        "app.name invalid: Name \"9x\" starts with a digit, which isn't allowed."
    );
    let report = err.report("Config invalid");
    assert_eq!(report.msg, "Config invalid");
    assert_eq!(report.details, err.describe());

    let err = App::from_raw("/p".to_string(), raw("a b$", "example.com", None)).unwrap_err();
    assert_eq!(
        err.describe(),
        "app.name invalid: Name may only hold ASCII letters, digits, `-` and `_`, not ` `, `$`."
    );

    let err = App::from_raw("/p".to_string(), raw("game", "example.", None)).unwrap_err();
    assert_eq!(
        err.describe(),
        "`app.domain` example. isn't valid: Domain can't start or end with a dot."
    );

    let err = App::from_raw("/p".to_string(), raw("game", "example.com", Some("../../q"))).unwrap_err();
    assert_eq!(
        err.describe(),
        "`app.asset-dir` ../../q couldn't be normalized: Path ../../q climbs above the filesystem root."
    );

    let err = App::from_raw("/p".to_string(), raw("game", "example.com", Some("../q"))).unwrap_err();
    assert_eq!(err.describe(), "`app.asset-dir` ../q is outside of the app root /p");
}

#[test]
fn domain_refusals_are_described() {
    assert_eq!(
        DomainError::ReservedKeyword { keyword: "class".to_string() }.describe(),
        "\"class\" is a Java keyword and can't be a domain label."
    );
    assert_eq!(
        DomainError::NotAsciiAlphanumeric { bad_chars: vec!['%'] }.describe(),
        "Domain labels may only hold ASCII letters, digits, `-` and `_`, not `%`."
    );
    assert_eq!(Invalid::Empty.describe(), "Name can't be empty.");
}

#[test]
fn cloned_app_keeps_everything() {
    let app = App::from_raw("/p".to_string(), raw("game", "a.b", Some("art"))).unwrap();
    let copy = app.clone();
    assert_eq!(copy.root_dir(), app.root_dir());
    assert_eq!(copy.name(), app.name());
    assert_eq!(copy.domain(), "a.b");
    assert_eq!(copy.asset_dir(), "/p/art");
}
