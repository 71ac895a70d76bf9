use anvs::version_file::{
    parse_declaration, search_dirs, DirProbe, EnginesField, FileProbe, FindError, PackageJson,
    VersionFile, VersionFileSource,
};

fn manifest(node: Option<&str>) -> FileProbe {
    FileProbe::Manifest(PackageJson {
        path: "package.json".to_string(),
        engines: Some(EnginesField { node: node.map(|s| s.to_string()), npm: None }),
        name: Some("test-app".to_string()),
        version: None,
    })
}

fn names(list: &[&str]) -> Vec<String> {
    list.iter().map(|s| s.to_string()).collect()
}

#[test]
fn declarations_are_read_from_the_first_real_line() {
    assert_eq!(parse_declaration("18.20.0"), Some("18.20.0".to_string()));
    assert_eq!(parse_declaration("  18.20.0  \n\n"), Some("18.20.0".to_string()));
    assert_eq!(parse_declaration("# This is a comment\n18.20.0"), Some("18.20.0".to_string()));
    assert_eq!(parse_declaration("lts/hydrogen"), Some("lts/hydrogen".to_string()));
    assert_eq!(parse_declaration("\r\nv20\r\n"), Some("v20".to_string()));
    assert_eq!(parse_declaration(""), None);
    assert_eq!(parse_declaration("# only\n   \n"), None);
}

#[test]
fn closer_directory_wins_over_filename_order() {
    let levels = vec![
        DirProbe {
            dir: "/home/u/app/sub".to_string(),
            files: vec![FileProbe::Missing, FileProbe::Contents("20.0.0".to_string())],
        },
        DirProbe {
            dir: "/home/u/app".to_string(),
            files: vec![FileProbe::Contents("18.0.0".to_string()), FileProbe::Missing],
        },
    ];
    let vf = VersionFile::find(&levels, &names(&[".nvmrc", ".node-version"])).unwrap().unwrap();
    assert_eq!(vf.version, "20.0.0");
    assert_eq!(vf.path, "/home/u/app/sub/.node-version");
    assert_eq!(vf.source, VersionFileSource::NodeVersion);
}

#[test]
fn earlier_filename_wins_in_one_directory() {
    let levels = vec![DirProbe {
        dir: "/p".to_string(),
        files: vec![FileProbe::Contents("18.20.0".to_string()), manifest(Some(">=20.0.0"))],
    }];
    let vf = VersionFile::find(&levels, &names(&[".nvmrc", "package.json"])).unwrap().unwrap();
    assert_eq!(vf.version, "18.20.0");
    assert_eq!(vf.source, VersionFileSource::Nvmrc);
    let levels = vec![DirProbe {
        dir: "/p".to_string(),
        files: vec![manifest(Some(">=20.0.0")), FileProbe::Contents("18.20.0".to_string())],
    }];
    let vf = VersionFile::find(&levels, &names(&["package.json", ".nvmrc"])).unwrap().unwrap();
    assert_eq!(vf.version, ">=20.0.0");
    assert_eq!(vf.source, VersionFileSource::PackageJson);
}

#[test]
fn manifest_without_engines_node_is_passed_over() {
    let levels = vec![
        DirProbe { dir: "/p/q".to_string(), files: vec![manifest(None), FileProbe::Missing] },
        DirProbe { dir: "/p".to_string(), files: vec![manifest(Some("20")), FileProbe::Missing] },
    ];
    let vf = VersionFile::find(&levels, &names(&["package.json", "package.json"])).unwrap().unwrap();
    assert_eq!(vf.version, "20");
    assert_eq!(vf.path, "/p/package.json");
    let alone = vec![DirProbe { dir: "/p".to_string(), files: vec![manifest(None)] }];
    assert!(VersionFile::find(&alone, &names(&["package.json"])).unwrap().is_none());
}

#[test]
fn malformed_manifest_is_an_error() {
    let levels = vec![
        DirProbe { dir: "/p/q".to_string(), files: vec![FileProbe::BadManifest] },
        DirProbe { dir: "/p".to_string(), files: vec![manifest(Some("20"))] },
    ];
    assert_eq!(
        VersionFile::find(&levels, &names(&["package.json"])).unwrap_err(),
        FindError::InvalidManifest { path: "/p/q/package.json".to_string() }
    );
}

#[test]
fn unreadable_file_is_an_error() {
    let levels = vec![DirProbe { dir: "/".to_string(), files: vec![FileProbe::Unreadable] }];
    assert_eq!(
        VersionFile::find(&levels, &names(&[".nvmrc"])).unwrap_err(),
        FindError::Unreadable { path: "/.nvmrc".to_string() }
    );
}

#[test]
fn other_file_names_are_kept() {
    let levels = vec![DirProbe {
        dir: "/p".to_string(),
        files: vec![FileProbe::Contents("nodejs 20.1.0".to_string())],
    }];
    let vf = VersionFile::find(&levels, &names(&[".versions"])).unwrap().unwrap();
    assert_eq!(vf.source, VersionFileSource::Other(".versions".to_string()));
}

#[test]
fn search_stops_at_home() {
    assert_eq!(search_dirs("/home/u/app/src", "/home/u"), vec!["/home/u/app/src", "/home/u/app", "/home/u"]);
    assert_eq!(search_dirs("/home/u", "/home/u"), vec!["/home/u"]);
}

#[test]
fn search_outside_home_stops_at_root() {
    assert_eq!(search_dirs("/opt/x", "/home/u"), vec!["/opt/x", "/opt", "/"]);
    assert_eq!(search_dirs("/", "/home/u"), vec!["/"]);
}

#[test]
fn manifest_fields_are_read() {
    let p = PackageJson {
        path: "package.json".to_string(),
        engines: Some(EnginesField { node: Some(">=18.0.0".to_string()), npm: Some(">=9".to_string()) }),
        name: Some("test-app".to_string()),
        version: Some("1.0.0".to_string()),
    };
    assert_eq!(p.node_version(), Some(">=18.0.0"));
    assert!(p.has_node_version());
    let q = PackageJson { path: String::new(), engines: None, name: None, version: None };
    assert_eq!(q.node_version(), None);
    assert!(!q.has_node_version());
}
