use farmfe_plugin_css::manifest::{ManifestProbe, WalkStep};
use farmfe_plugin_css::error::CompilationError;
use farmfe_plugin_css::manifest::{ManifestWalk, PackageJsonLoader};

fn s(text: &str) -> String {
    text.to_string()
}

/// Walks `dirs` (deepest first); the last one holds a manifest with `content`.
fn resolve_at_last(
    loader: &mut PackageJsonLoader,
    dirs: &[&str],
    content: &str,
) -> Result<farmfe_plugin_css::manifest::ManifestInfo, CompilationError> {
    let mut walk = ManifestWalk::new(s(dirs[0]));
    for d in dirs {
        if let Some(hit) = loader.visit(&mut walk, s(d)) {
            return Ok(hit);
        }
    }
    let file = format!("{}/package.json", dirs[dirs.len() - 1]);
    loader.found(&walk, file, s(content))
}

#[test]
fn new_loader_has_empty_cache() {
    let loader = PackageJsonLoader::new();
    assert!(loader.cache().is_empty());
    assert!(loader.get(&s("/a")).is_none());
}

#[test]
fn every_visited_directory_is_cached() {
    let mut loader = PackageJsonLoader::new();
    let dirs = ["/p/app/src/ui", "/p/app/src", "/p/app"];
    let info = resolve_at_last(&mut loader, &dirs, "{\"name\": \"app\"}").unwrap();
    assert_eq!(info.dir, "/p/app");
    assert_eq!(info.raw, "{\"name\": \"app\"}");
    assert_eq!(loader.cache().len(), 3);
    for d in dirs {
        let hit = loader.get(&s(d)).unwrap();
        assert_eq!(hit.dir, "/p/app");
        assert_eq!(hit.raw, info.raw);
    }
    assert!(loader.get(&s("/p")).is_none());
}

#[test]
fn later_walk_from_visited_directory_hits_cache() {
    let mut loader = PackageJsonLoader::new();
    let dirs = ["/p/app/src", "/p/app"];
    resolve_at_last(&mut loader, &dirs, "{\"name\": \"app\"}").unwrap();
    let mut walk = ManifestWalk::new(s("/p/app/src"));
    let hit = loader.visit(&mut walk, s("/p/app/src")).unwrap();
    assert_eq!(hit.dir, "/p/app");
    assert!(walk.visited.is_empty());
    assert_eq!(loader.cache().len(), 2);
}

#[test]
fn walk_stops_at_cached_ancestor_without_backfill() {
    let mut loader = PackageJsonLoader::new();
    resolve_at_last(&mut loader, &["/p/app"], "{}").unwrap();
    let mut walk = ManifestWalk::new(s("/p/app/lib/x"));
    assert!(loader.visit(&mut walk, s("/p/app/lib/x")).is_none());
    assert!(loader.visit(&mut walk, s("/p/app/lib")).is_none());
    let hit = loader.visit(&mut walk, s("/p/app")).unwrap();
    assert_eq!(hit.dir, "/p/app");
    assert_eq!(walk.visited, vec![s("/p/app/lib/x"), s("/p/app/lib")]);
    assert!(loader.get(&s("/p/app/lib")).is_none());
}

#[test]
fn malformed_manifest_is_a_load_error() {
    let mut loader = PackageJsonLoader::new();
    let mut walk = ManifestWalk::new(s("/q/pkg"));
    assert!(loader.visit(&mut walk, s("/q/pkg")).is_none());
    let r = loader.found(&walk, s("/q/pkg/package.json"), s("{ not json"));
    match r {
        Err(CompilationError::LoadPackageJson { package_json_path, err_message }) => {
            assert_eq!(package_json_path, "/q/pkg/package.json");
            assert!(!err_message.is_empty());
        }
        _ => panic!("expected a load error"),
    }
    assert!(loader.cache().is_empty());
}

#[test]
fn manifest_must_be_an_object() {
    let mut loader = PackageJsonLoader::new();
    let mut walk = ManifestWalk::new(s("/q"));
    loader.visit(&mut walk, s("/q"));
    assert!(loader.found(&walk, s("/q/package.json"), s("[1, 2]")).is_err());
}

#[test]
fn not_found_names_start_directory() {
    let mut loader = PackageJsonLoader::new();
    let mut walk = ManifestWalk::new(s("/none/deep"));
    assert!(loader.visit(&mut walk, s("/none/deep")).is_none());
    assert!(loader.visit(&mut walk, s("/none")).is_none());
    match PackageJsonLoader::not_found(walk) {
        CompilationError::PackageJsonNotFound { package_json_path, err_message } => {
            assert_eq!(package_json_path, "/none/deep");
            assert_eq!(err_message, "Can not find package.json in all ancestor directories");
        }
        _ => panic!("expected a not-found error"),
    }
    assert!(loader.cache().is_empty());
}

#[test]
fn record_overwrites_and_adds() {
    let mut loader = PackageJsonLoader::new();
    let mut walk = ManifestWalk::new(s("/r/a"));
    loader.visit(&mut walk, s("/r/a"));
    loader.visit(&mut walk, s("/r"));
    let info = loader.record(&walk, s("{\"version\": \"1.0.0\"}"));
    assert_eq!(info.dir, "/r");
    assert_eq!(loader.get(&s("/r/a")).unwrap().raw, "{\"version\": \"1.0.0\"}");
    let mut again = ManifestWalk::new(s("/r"));
    again.visited.push(s("/r"));
    let newer = loader.record(&again, s("{}"));
    assert_eq!(newer.raw, "{}");
    assert_eq!(loader.get(&s("/r")).unwrap().raw, "{}");
    assert_eq!(loader.get(&s("/r/a")).unwrap().raw, "{\"version\": \"1.0.0\"}");
    assert_eq!(loader.cache().len(), 2);
}

#[test]
fn probe_missing_continues_and_found_ends() {
    let mut loader = PackageJsonLoader::new();
    let mut walk = ManifestWalk::new(s("/w/a"));
    loader.visit(&mut walk, s("/w/a"));
    assert!(matches!(loader.after_probe(&walk, ManifestProbe::Missing), WalkStep::Continue));
    assert!(loader.cache().is_empty());
    loader.visit(&mut walk, s("/w"));
    let step = loader.after_probe(
        &walk,
        ManifestProbe::Found { file: s("/w/package.json"), content: s("{\"name\": \"w\"}") },
    );
    match step {
        WalkStep::Done(Ok(info)) => assert_eq!(info.dir, "/w"),
        _ => panic!("expected the manifest"),
    }
    assert_eq!(loader.cache().len(), 2);
    assert_eq!(loader.get(&s("/w/a")).unwrap().dir, "/w");
}

#[test]
fn probe_unreadable_is_io_error() {
    let mut loader = PackageJsonLoader::new();
    let mut walk = ManifestWalk::new(s("/u"));
    loader.visit(&mut walk, s("/u"));
    let step = loader.after_probe(
        &walk,
        ManifestProbe::Unreadable { file: s("/u/package.json"), msg: s("permission denied") },
    );
    match step {
        WalkStep::Done(Err(CompilationError::Io { path, msg })) => {
            assert_eq!(path, "/u/package.json");
            assert_eq!(msg, "permission denied");
        }
        _ => panic!("expected an io error"),
    }
    assert!(loader.cache().is_empty());
}

#[test]
fn malformed_manifest_stops_even_below_cached_ancestor() {
    let mut loader = PackageJsonLoader::new();
    let mut top = ManifestWalk::new(s("/m"));
    loader.visit(&mut top, s("/m"));
    loader.found(&top, s("/m/package.json"), s("{}")).unwrap();
    let mut walk = ManifestWalk::new(s("/m/sub"));
    assert!(loader.visit(&mut walk, s("/m/sub")).is_none());
    let step = loader.after_probe(
        &walk,
        ManifestProbe::Found { file: s("/m/sub/package.json"), content: s("{,}") },
    );
    assert!(matches!(step, WalkStep::Done(Err(CompilationError::LoadPackageJson { .. }))));
    assert!(loader.get(&s("/m/sub")).is_none());
}

fn chain() -> Vec<String> {
    vec![s("/ws/app/src/ui"), s("/ws/app/src"), s("/ws/app"), s("/ws")]
}

fn fake_fs(dir: &String, files: &[(&str, &str)]) -> ManifestProbe {
    for (d, text) in files {
        if dir == d {
            return ManifestProbe::Found { file: format!("{d}/package.json"), content: s(text) };
        }
    }
    ManifestProbe::Missing
}

#[test]
fn resolve_caches_whole_chain_and_reuses_it() {
    let mut loader = PackageJsonLoader::new();
    let dirs = chain();
    let probed = std::cell::RefCell::new(Vec::new());
    let info = loader
        .resolve(&dirs[0], &dirs, |d: &String| {
            probed.borrow_mut().push(d.clone());
            fake_fs(d, &[("/ws/app", "{\"name\": \"app\"}")])
        })
        .unwrap();
    assert_eq!(info.dir, "/ws/app");
    assert_eq!(*probed.borrow(), vec![s("/ws/app/src/ui"), s("/ws/app/src"), s("/ws/app")]);
    assert_eq!(loader.cache().len(), 3);
    for i in 0..3 {
        let again = loader
            .resolve(&dirs[i], &dirs[i..].to_vec(), |_: &String| -> ManifestProbe {
                panic!("a cached directory must not be probed")
            })
            .unwrap();
        assert_eq!(again.dir, "/ws/app");
        assert_eq!(again.raw, "{\"name\": \"app\"}");
    }
    assert!(loader.get(&s("/ws")).is_none());
}

#[test]
fn resolve_without_manifest_is_not_found() {
    let mut loader = PackageJsonLoader::new();
    let dirs = chain();
    match loader.resolve(&dirs[0], &dirs, |d: &String| fake_fs(d, &[])) {
        Err(CompilationError::PackageJsonNotFound { package_json_path, err_message }) => {
            assert_eq!(package_json_path, "/ws/app/src/ui");
            assert_eq!(err_message, "Can not find package.json in all ancestor directories");
        }
        _ => panic!("expected not found"),
    }
    assert!(loader.cache().is_empty());
}

#[test]
fn resolve_stops_at_malformed_manifest() {
    let mut loader = PackageJsonLoader::new();
    let dirs = chain();
    let files = [("/ws/app/src/ui", "{\"name\": "), ("/ws/app", "{}")];
    match loader.resolve(&dirs[0], &dirs, |d: &String| fake_fs(d, &files)) {
        Err(CompilationError::LoadPackageJson { package_json_path, .. }) => {
            assert_eq!(package_json_path, "/ws/app/src/ui/package.json");
        }
        _ => panic!("expected a parse error"),
    }
    assert!(loader.cache().is_empty());
}
