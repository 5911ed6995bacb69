use pixi::export::ExportError;
use pixi::lock::{LockEnvironment, LockFile, NamedEnvironment, PlatformPackages};
use pixi::lock_update::{plan_lock_update, LockFileUsage, LockPlan, LockUpdateError};
use pixi::selection::select_work_items;

fn env(name: &str, platforms: &[&str]) -> NamedEnvironment {
    NamedEnvironment {
        name: name.to_string(),
        environment: LockEnvironment {
            platforms: platforms
                .iter()
                .map(|p| PlatformPackages { platform: p.to_string(), packages: vec![] })
                .collect(),
        },
    }
}

fn lock() -> LockFile {
    LockFile {
        environments: vec![env("default", &["linux-64", "osx-arm64"]), env("cuda", &["linux-64"])],
    }
}

fn pairs(items: &[pixi::selection::WorkItem]) -> Vec<(usize, String, String)> {
    items.iter().map(|w| (w.env_index, w.environment.clone(), w.platform.clone())).collect()
}

fn owned(v: &[&str]) -> Option<Vec<String>> {
    Some(v.iter().map(|s| s.to_string()).collect())
}

#[test]
fn unknown_environment_is_fatal() {
    let r = select_work_items(&lock(), &owned(&["default", "ci"]), &None);
    assert!(matches!(r, Err(ExportError::UnknownEnvironment { name }) if name == "ci"));
}

#[test]
fn default_selects_everything() {
    let sel = select_work_items(&lock(), &None, &None).unwrap();
    assert_eq!(
        pairs(&sel.items),
        vec![
            (0, "default".to_string(), "linux-64".to_string()),
            (0, "default".to_string(), "osx-arm64".to_string()),
            (1, "cuda".to_string(), "linux-64".to_string()),
        ]
    );
    assert!(sel.skipped.is_empty());
}

#[test]
fn unavailable_platform_is_skipped_per_environment() {
    let sel = select_work_items(&lock(), &None, &owned(&["osx-arm64", "linux-64"])).unwrap();
    assert_eq!(
        pairs(&sel.items),
        vec![
            (0, "default".to_string(), "osx-arm64".to_string()),
            (0, "default".to_string(), "linux-64".to_string()),
            (1, "cuda".to_string(), "linux-64".to_string()),
        ]
    );
    assert_eq!(pairs(&sel.skipped), vec![(1, "cuda".to_string(), "osx-arm64".to_string())]);
}

#[test]
fn environment_filter_keeps_requested_order() {
    let sel = select_work_items(&lock(), &owned(&["cuda", "default"]), &None).unwrap();
    assert_eq!(
        pairs(&sel.items),
        vec![
            (1, "cuda".to_string(), "linux-64".to_string()),
            (0, "default".to_string(), "linux-64".to_string()),
            (0, "default".to_string(), "osx-arm64".to_string()),
        ]
    );
    let sel = select_work_items(&lock(), &owned(&["cuda"]), &owned(&["linux-64", "osx-arm64"]));
    assert!(matches!(sel, Err(ExportError::UnknownPlatform { platform }) if platform == "osx-arm64"));
}

#[test]
fn platform_in_no_environment_is_fatal() {
    let r = select_work_items(&lock(), &None, &owned(&["linux-64", "win-64"]));
    assert!(matches!(r, Err(ExportError::UnknownPlatform { platform }) if platform == "win-64"));
}

#[test]
fn lock_policies() {
    assert_eq!(plan_lock_update(LockFileUsage::Update, true, true, false), Ok(LockPlan { resolve: false, install: false }));
    assert_eq!(plan_lock_update(LockFileUsage::Update, true, false, false), Ok(LockPlan { resolve: true, install: true }));
    assert_eq!(plan_lock_update(LockFileUsage::Update, false, false, true), Ok(LockPlan { resolve: true, install: false }));
    assert_eq!(plan_lock_update(LockFileUsage::Locked, true, false, false), Err(LockUpdateError::LockOutdated));
    assert_eq!(plan_lock_update(LockFileUsage::Locked, false, false, false), Err(LockUpdateError::LockMissing));
    assert_eq!(plan_lock_update(LockFileUsage::Frozen, true, false, false), Ok(LockPlan { resolve: false, install: false }));
    assert_eq!(plan_lock_update(LockFileUsage::Frozen, false, true, false), Err(LockUpdateError::LockMissing));
}
