use std::collections::HashMap;

use mcmod::error::McmodError;
use mcmod::update::{
    fetch_asset_url, fetch_latest_version, get_asset_name, is_up_to_date, replace_strategy,
    strip_version_prefix, ReleaseAsset, ReleaseManifest, ReplaceAction, ReplaceStrategy, Replacer,
};

fn manifest() -> ReleaseManifest {
    ReleaseManifest {
        tag_name: Some("v1.2.3".to_string()),
        assets: Some(vec![
            ReleaseAsset { name: None, download_url: Some("u0".to_string()) },
            ReleaseAsset { name: Some("mcmod-linux-x86_64".to_string()), download_url: Some("u1".to_string()) },
            ReleaseAsset { name: Some("mcmod-linux-x86_64".to_string()), download_url: Some("u2".to_string()) },
            ReleaseAsset { name: Some("mcmod-macos-x86_64".to_string()), download_url: None },
        ]),
    }
}

#[test]
fn latest_version_strips_v() {
    assert_eq!(fetch_latest_version(&manifest()), Ok("1.2.3".to_string()));
    assert_eq!(strip_version_prefix("1.0"), "1.0");
    assert_eq!(strip_version_prefix("vv1"), "v1");
    let none = ReleaseManifest { tag_name: None, assets: None };
    assert_eq!(fetch_latest_version(&none), Err(McmodError::Other("No tag_name in release response".to_string())));
    assert!(is_up_to_date("1.2.3", "1.2.3"));
    assert!(!is_up_to_date("1.2.3", "1.2.4"));
}

#[test]
fn asset_names() {
    assert_eq!(get_asset_name("linux", "x86_64"), Ok("mcmod-linux-x86_64".to_string()));
    assert_eq!(get_asset_name("macos", "aarch64"), Ok("mcmod-macos-aarch64".to_string()));
    assert_eq!(get_asset_name("windows", "x86_64"), Ok("mcmod-windows-x86_64.exe".to_string()));
    assert_eq!(
        get_asset_name("linux", "aarch64"),
        Err(McmodError::Other("Unsupported platform: linux/aarch64".to_string()))
    );
}

#[test]
fn asset_url_by_exact_name() {
    let m = manifest();
    assert_eq!(fetch_asset_url(&m, "1.2.3", "mcmod-linux-x86_64"), Ok("u1".to_string()));
    assert_eq!(
        fetch_asset_url(&m, "1.2.3", "mcmod-macos-x86_64"),
        Err(McmodError::Other("No download URL for asset".to_string()))
    );
    assert_eq!(
        fetch_asset_url(&m, "1.2.3", "mcmod-linux"),
        Err(McmodError::Other("No release asset found matching 'mcmod-linux' for v1.2.3".to_string()))
    );
    let none = ReleaseManifest { tag_name: None, assets: None };
    assert_eq!(
        fetch_asset_url(&none, "1", "x"),
        Err(McmodError::Other("No assets in release response".to_string()))
    );
}

#[derive(Clone, Debug, PartialEq)]
struct SimFile {
    data: Vec<u8>,
    exec: bool,
}

/// Runs the replacement on an in-memory file table; `fail_write` makes
/// writing the payload fail.
fn simulate(r: &mut Replacer, fs: &mut HashMap<String, SimFile>, payload: &[u8], fail_write: bool) -> bool {
    loop {
        let ok = match r.action() {
            ReplaceAction::Finish => return true,
            ReplaceAction::Fail => return false,
            ReplaceAction::WritePayload { path } => {
                if fail_write {
                    false
                } else {
                    let exec = fs.get(&path).map(|f| f.exec).unwrap_or(false);
                    fs.insert(path, SimFile { data: payload.to_vec(), exec });
                    true
                }
            }
            ReplaceAction::MarkExecutable { path } => match fs.get_mut(&path) {
                Some(f) => {
                    f.exec = true;
                    true
                }
                None => false,
            },
            ReplaceAction::Rename { from, to } => match fs.remove(&from) {
                Some(f) => {
                    fs.insert(to, f);
                    true
                }
                None => false,
            },
            ReplaceAction::RemoveFile { path } => fs.remove(&path).is_some(),
        };
        r.advance(ok);
    }
}

#[test]
fn rename_based_success() {
    let mut fs: HashMap<String, SimFile> = HashMap::new();
    fs.insert("bin/mcmod".to_string(), SimFile { data: b"old".to_vec(), exec: true });
    let mut r = Replacer::new(replace_strategy(true), "bin/mcmod".to_string(), "bin/mcmod.new".to_string());
    assert!(simulate(&mut r, &mut fs, b"new", false));
    assert_eq!(fs["bin/mcmod"], SimFile { data: b"new".to_vec(), exec: true });
    assert!(!fs.contains_key("bin/mcmod.new"));
}

#[test]
fn displace_and_write_rolls_back() {
    let mut fs: HashMap<String, SimFile> = HashMap::new();
    fs.insert("mcmod.exe".to_string(), SimFile { data: b"old".to_vec(), exec: true });
    fs.insert("mcmod.exe.old".to_string(), SimFile { data: b"stale".to_vec(), exec: false });
    let mut r = Replacer::new(replace_strategy(false), "mcmod.exe".to_string(), "mcmod.exe.old".to_string());
    assert!(r.strategy == ReplaceStrategy::DisplaceAndWrite);
    assert!(!simulate(&mut r, &mut fs, b"new", true));
    assert_eq!(fs["mcmod.exe"], SimFile { data: b"old".to_vec(), exec: true });
    assert!(!fs.contains_key("mcmod.exe.old"));
}

#[test]
fn displace_and_write_success() {
    let mut fs: HashMap<String, SimFile> = HashMap::new();
    fs.insert("mcmod.exe".to_string(), SimFile { data: b"old".to_vec(), exec: true });
    let mut r = Replacer::new(ReplaceStrategy::DisplaceAndWrite, "mcmod.exe".to_string(), "mcmod.exe.old".to_string());
    assert!(simulate(&mut r, &mut fs, b"new", false));
    assert_eq!(fs["mcmod.exe"].data, b"new".to_vec());
    assert!(!fs.contains_key("mcmod.exe.old"));
}

#[test]
fn rename_based_write_failure_fails() {
    let mut fs: HashMap<String, SimFile> = HashMap::new();
    fs.insert("m".to_string(), SimFile { data: b"old".to_vec(), exec: true });
    let mut r = Replacer::new(ReplaceStrategy::RenameBased, "m".to_string(), "m.new".to_string());
    assert!(!simulate(&mut r, &mut fs, b"new", true));
    assert_eq!(fs["m"].data, b"old".to_vec());
}
