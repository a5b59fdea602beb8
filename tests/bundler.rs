use assets_bundler::{
    AssetBundler, AssetPath, BuildEnv, BuildPlan, BundleError, BundledAssetIoOptions,
};

fn path(absolute: bool, parts: &[&str]) -> AssetPath {
    AssetPath::new(absolute, parts.iter().map(|s| s.to_string()).collect())
}

fn env(profile: Option<&str>, out_dir: Option<&str>, is_dir: bool) -> BuildEnv {
    BuildEnv {
        profile: profile.map(|s| s.to_string()),
        out_dir: out_dir.map(|s| s.to_string()),
        asset_folder_is_dir: is_dir,
        exe_path: Ok(path(true, &["home", "me", "proj", "target", "release", "game"])),
        cwd: Ok("/home/me/proj".to_string()),
    }
}

fn parts(p: &AssetPath) -> Vec<&str> {
    p.parts.iter().map(|s| s.as_str()).collect()
}

#[test]
fn default_bundler_uses_conventional_names() {
    let b = AssetBundler::default();
    assert_eq!(b.asset_folder, "assets");
    assert_eq!(b.options.asset_bundle_name, "assets.bin");
    assert!(!b.options.enabled_on_debug_build);
    assert!(!b.options.encryption_on);
    assert!(b.options.encryption_key.is_none());
}

#[test]
fn from_options_keeps_them() {
    let mut options = BundledAssetIoOptions::default();
    options.asset_bundle_name = "data.tar".to_string();
    let b = AssetBundler::from(options);
    assert_eq!(b.asset_folder, "assets");
    assert_eq!(b.options.asset_bundle_name, "data.tar");
}

#[test]
fn builder_calls_chain() {
    let mut b = AssetBundler::default();
    b.with_asset_folder("res".to_string()).set_encryption_key([7u8; 16]);
    assert_eq!(b.asset_folder, "res");
    assert!(b.options.encryption_on);
    assert_eq!(b.options.encryption_key, Some([7u8; 16]));
}

#[test]
fn debug_build_is_skipped() {
    let b = AssetBundler::default();
    let r = b.plan(&env(Some("debug"), None, true));
    assert!(matches!(r, Ok(BuildPlan::Skip)));
    let r = b.plan(&env(Some("debug"), None, false));
    assert!(matches!(r, Ok(BuildPlan::Skip)));
}

#[test]
fn debug_build_runs_when_enabled() {
    let mut b = AssetBundler::default();
    b.options.enabled_on_debug_build = true;
    let r = b.plan(&env(Some("debug"), None, true));
    assert!(matches!(r, Ok(BuildPlan::Write { .. })));
}

#[test]
fn release_build_writes_next_to_executable() {
    let b = AssetBundler::default();
    match b.plan(&env(Some("release"), None, true)) {
        Ok(BuildPlan::Write { bundle_path }) => {
            assert!(bundle_path.absolute);
            assert_eq!(parts(&bundle_path), vec!["home", "me", "proj", "target", "release", "assets.bin"]);
        }
        _ => panic!("expected a bundle path"),
    }
}

#[test]
fn build_script_output_goes_two_levels_up() {
    let b = AssetBundler::default();
    let mut e = env(None, Some("/x/out"), true);
    e.exe_path = Ok(path(true, &["t", "release", "build", "crate-1", "build-script-build"]));
    match b.plan(&e) {
        Ok(BuildPlan::Write { bundle_path }) => {
            assert_eq!(parts(&bundle_path), vec!["t", "release", "assets.bin"]);
        }
        _ => panic!("expected a bundle path"),
    }
}

#[test]
fn empty_out_dir_is_no_signal() {
    let b = AssetBundler::default();
    match b.plan(&env(None, Some(""), true)) {
        Ok(BuildPlan::Write { bundle_path }) => {
            assert_eq!(parts(&bundle_path), vec!["home", "me", "proj", "target", "release", "assets.bin"]);
        }
        _ => panic!("expected a bundle path"),
    }
}

#[test]
fn missing_key_is_a_configuration_error() {
    let mut b = AssetBundler::default();
    b.options.encryption_on = true;
    let r = b.plan(&env(None, None, true));
    assert!(matches!(r, Err(BundleError::MissingEncryptionKey)));
    let r = b.plan(&env(None, None, false));
    assert!(matches!(r, Err(BundleError::MissingEncryptionKey)));
}

#[test]
fn missing_asset_root_names_it() {
    let mut b = AssetBundler::default();
    b.with_asset_folder("no_such_dir".to_string());
    match b.plan(&env(None, None, false)) {
        Err(BundleError::AssetFolderNotFound { asset_folder, cwd }) => {
            assert_eq!(asset_folder, "no_such_dir");
            assert_eq!(cwd, "/home/me/proj");
        }
        _ => panic!("expected a not-found error"),
    }
}

#[test]
fn unknown_cwd_still_reports_missing_root() {
    let b = AssetBundler::default();
    let mut e = env(None, None, false);
    e.cwd = Err("gone".to_string());
    match b.plan(&e) {
        Err(BundleError::AssetFolderNotFound { asset_folder, cwd }) => {
            assert_eq!(asset_folder, "assets");
            assert_eq!(cwd, "gone");
        }
        _ => panic!("expected a not-found error"),
    }
}

#[test]
fn unknown_executable_is_an_io_error() {
    let b = AssetBundler::default();
    let mut e = env(None, None, true);
    e.exe_path = Err("no exe".to_string());
    match b.plan(&e) {
        Err(BundleError::Io(m)) => assert_eq!(m, "no exe"),
        _ => panic!("expected an io error"),
    }
}
