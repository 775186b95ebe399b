use mcmod::error::McmodError;
use mcmod::versions::{fetch_fabric_api_version, fetch_neoforge_version, first_stable_version, VersionEntry};

const FABRIC_META: &str = "<metadata>\n  <versioning>\n    <versions>\n      <version>0.110.0+1.21.4</version>\n      <version>0.111.0+1.21.4</version>\r\n      <version>0.112.0+1.21.5</version>\n      <version>0.113.0+1.21.40</version>\n    </versions>\n  </versioning>\n</metadata>\n";

const NEOFORGE_META: &str = "<versions>\n<version>21.3.1</version>\n<version>21.4.10</version>\n<version>21.4.156</version>\n<version>21.40.1</version>\n</versions>";

#[test]
fn fabric_api_last_matching() {
    assert_eq!(fetch_fabric_api_version(FABRIC_META, "1.21.4"), Ok("0.111.0+1.21.4".to_string()));
    assert_eq!(fetch_fabric_api_version(FABRIC_META, "1.21.5"), Ok("0.112.0+1.21.5".to_string()));
    assert_eq!(
        fetch_fabric_api_version(FABRIC_META, "1.20"),
        Err(McmodError::Other("No Fabric API version found for 1.20".to_string()))
    );
}

#[test]
fn neoforge_by_prefix() {
    assert_eq!(fetch_neoforge_version(NEOFORGE_META, "1.21.4"), Ok("21.4.156".to_string()));
    assert_eq!(fetch_neoforge_version(NEOFORGE_META, "1.21"), Ok("21.40.1".to_string()));
    assert_eq!(
        fetch_neoforge_version(NEOFORGE_META, "121"),
        Err(McmodError::Other("Cannot parse Minecraft version: 121".to_string()))
    );
    assert_eq!(
        fetch_neoforge_version(NEOFORGE_META, "1.20.1"),
        Err(McmodError::Other("No NeoForge version found for 1.20.1".to_string()))
    );
}

#[test]
fn first_stable_entry() {
    let es = vec![
        VersionEntry { stable: Some(false), version: Some("25w01a".to_string()) },
        VersionEntry { stable: Some(true), version: None },
        VersionEntry { stable: None, version: Some("x".to_string()) },
        VersionEntry { stable: Some(true), version: Some("1.21.4".to_string()) },
        VersionEntry { stable: Some(true), version: Some("1.21.3".to_string()) },
    ];
    assert_eq!(first_stable_version(&es), Some("1.21.4".to_string()));
    assert_eq!(first_stable_version(&es[..1].iter().map(|e| VersionEntry { stable: e.stable, version: e.version.clone() }).collect()), None);
}
