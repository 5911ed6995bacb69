use pixi::explicit_spec::{
    build_explicit_spec, pin_url, render_explicit_spec, spec_file_name, ExplicitEnvironmentEntry,
    ExplicitEnvironmentSpec,
};
use pixi::export::{render_env_platform, split_packages, ExportError};
use pixi::lock::{CondaRecord, LockEnvironment, LockedPackage, PlatformPackages, PypiRecord};
use pixi::topo_sort::sort_topologically;

fn conda(name: &str, md5: Option<[u8; 16]>, depends: &[&str]) -> CondaRecord {
    CondaRecord {
        name: name.to_string(),
        version: "1".to_string(),
        url: format!("https://conda.anaconda.org/test/linux-64/{name}-1-0.conda"),
        md5,
        depends: depends.iter().map(|d| d.to_string()).collect(),
    }
}

fn pypi(name: &str) -> LockedPackage {
    LockedPackage::Pypi(PypiRecord {
        name: name.to_string(),
        version: "1.0".to_string(),
        url: format!("https://files.example.org/{name}-1.0-py3-none-any.whl"),
    })
}

fn md5(b: u8) -> Option<[u8; 16]> {
    let mut h = [0u8; 16];
    for (i, x) in h.iter_mut().enumerate() {
        *x = b.wrapping_add(i as u8);
    }
    Some(h)
}

fn env_of(platform: &str, packages: Vec<LockedPackage>) -> LockEnvironment {
    LockEnvironment {
        platforms: vec![PlatformPackages { platform: platform.to_string(), packages }],
    }
}

fn names(v: &[CondaRecord]) -> Vec<String> {
    v.iter().map(|p| p.name.clone()).collect()
}

fn clean_env() -> LockEnvironment {
    env_of(
        "linux-64",
        vec![
            LockedPackage::Conda(conda("foo", md5(0x10), &["bar >=1"])),
            LockedPackage::Conda(conda("bar", md5(0xa0), &[])),
        ],
    )
}

#[test]
fn clean_export() {
    let out = render_env_platform("default", clean_env(), "linux-64", false).unwrap();
    assert_eq!(out.file_name, "default_linux-64_conda_spec.txt");
    assert!(out.ignored_pypi.is_empty());
    let text = out.contents.unwrap();
    assert_eq!(
        text,
        "# Generated by `pixi project export`\n\
         # platform: linux-64\n\
         @EXPLICIT\n\
         https://conda.anaconda.org/test/linux-64/bar-1-0.conda#a0a1a2a3a4a5a6a7a8a9aaabacadaeaf\n\
         https://conda.anaconda.org/test/linux-64/foo-1-0.conda#101112131415161718191a1b1c1d1e1f\n"
    );
}

#[test]
fn mixed_ecosystem_without_flag_fails() {
    let mut env = clean_env();
    env.platforms[0].packages.push(pypi("requests"));
    let r = render_env_platform("default", env, "linux-64", false);
    assert!(matches!(r, Err(ExportError::PypiNotSupported)));
}

#[test]
fn mixed_ecosystem_with_flag_drops_wheels() {
    let mut env = clean_env();
    env.platforms[0].packages.push(pypi("requests"));
    let out = render_env_platform("default", env, "linux-64", true).unwrap();
    assert_eq!(out.ignored_pypi, vec!["requests".to_string()]);
    let text = out.contents.unwrap();
    assert!(!text.contains("requests"));
    assert_eq!(text.lines().count(), 5);
}

#[test]
fn test_render_conda_explicit_spec() {
    let env = LockEnvironment {
        platforms: vec![
            PlatformPackages {
                platform: "linux-64".to_string(),
                packages: vec![
                    pypi("flask"),
                    LockedPackage::Conda(conda("python", md5(1), &["libzlib >=1.2"])),
                    LockedPackage::Conda(conda("libzlib", md5(2), &["__glibc >=2.17"])),
                ],
            },
            PlatformPackages {
                platform: "osx-arm64".to_string(),
                packages: vec![
                    pypi("flask"),
                    LockedPackage::Conda(conda("python", md5(3), &[])),
                ],
            },
        ],
    };
    for platform in ["linux-64", "osx-arm64"] {
        assert!(render_env_platform("default", env.clone(), platform, false).is_err());
        let out = render_env_platform("default", env.clone(), platform, true).unwrap();
        assert_eq!(out.file_name, format!("default_{}_conda_spec.txt", platform));
        let text = out.contents.unwrap();
        assert!(text.starts_with("# Generated by `pixi project export`\n"));
        assert!(text.contains(&format!("# platform: {platform}\n@EXPLICIT\n")));
        assert!(!text.contains("flask"));
    }
    let out = render_env_platform("default", env, "linux-64", true).unwrap();
    let text = out.contents.unwrap();
    let zlib = text.find("libzlib-1-0.conda#").unwrap();
    let python = text.find("python-1-0.conda#").unwrap();
    assert!(zlib < python);
}

#[test]
fn empty_platform_writes_nothing() {
    let env = env_of("win-64", vec![pypi("requests")]);
    let out = render_env_platform("default", env, "win-64", true).unwrap();
    assert!(out.contents.is_none());
    let empty = env_of("win-64", vec![]);
    let out = render_env_platform("default", empty, "win-64", false).unwrap();
    assert!(out.contents.is_none());
}

#[test]
fn missing_platform_is_an_error() {
    let r = render_env_platform("default", clean_env(), "osx-64", false);
    assert!(matches!(r, Err(ExportError::PlatformNotFound { platform }) if platform == "osx-64"));
}

#[test]
fn missing_checksum_is_an_error() {
    let env = env_of(
        "linux-64",
        vec![
            LockedPackage::Conda(conda("foo", None, &["bar"])),
            LockedPackage::Conda(conda("bar", md5(1), &[])),
        ],
    );
    let r = render_env_platform("default", env, "linux-64", true);
    match r {
        Err(ExportError::MissingChecksum(m)) => assert_eq!(m.name, "foo"),
        other => panic!("unexpected {other:?}"),
    }
}

#[test]
fn cycle_is_an_error() {
    let env = env_of(
        "linux-64",
        vec![
            LockedPackage::Conda(conda("a", md5(1), &["b"])),
            LockedPackage::Conda(conda("b", md5(2), &["a"])),
            LockedPackage::Conda(conda("c", md5(3), &[])),
        ],
    );
    match render_env_platform("default", env, "linux-64", false) {
        Err(ExportError::DependencyCycle(c)) => assert_eq!(names(&c.unsorted), vec!["a", "b"]),
        other => panic!("unexpected {other:?}"),
    }
}

#[test]
fn sort_puts_dependencies_first() {
    let pkgs = vec![
        conda("app", md5(1), &["lib >=2", "Python 3.12.*", "__unix"]),
        conda("python", md5(2), &["lib"]),
        conda("lib", md5(3), &[]),
        conda("other", md5(4), &[]),
    ];
    let sorted = sort_topologically(pkgs).unwrap();
    assert_eq!(names(&sorted), vec!["lib", "python", "app", "other"]);
}

#[test]
fn sort_keeps_input_order_among_ready_packages() {
    let pkgs = vec![conda("c", md5(1), &[]), conda("a", md5(2), &[]), conda("b", md5(3), &[])];
    let sorted = sort_topologically(pkgs).unwrap();
    assert_eq!(names(&sorted), vec!["c", "a", "b"]);
}

#[test]
fn sort_is_idempotent() {
    let pkgs = vec![
        conda("foo", md5(1), &["bar"]),
        conda("baz", md5(2), &["foo"]),
        conda("bar", md5(3), &[]),
    ];
    let once = sort_topologically(pkgs.clone()).unwrap();
    let again = sort_topologically(pkgs).unwrap();
    assert_eq!(names(&once), names(&again));
    let twice = sort_topologically(once.clone()).unwrap();
    assert_eq!(names(&once), vec!["bar", "foo", "baz"]);
    assert_eq!(names(&twice), names(&once));
}

#[test]
fn self_dependency_is_a_cycle() {
    let r = sort_topologically(vec![conda("a", md5(1), &["a"])]);
    assert!(r.is_err());
}

#[test]
fn pinned_url_replaces_fragment() {
    let mut h = [0u8; 16];
    h[1] = 0xab;
    h[2] = 0xff;
    h[15] = 0x0f;
    assert_eq!(
        pin_url("https://x.org/a.conda#old", &h),
        "https://x.org/a.conda#00abff0000000000000000000000000f"
    );
    let u = pin_url("https://x.org/a.conda", &[0xAB; 16]);
    assert_eq!(u, format!("https://x.org/a.conda#{}", "ab".repeat(16)));
    let fragment = u.split('#').nth(1).unwrap();
    assert_eq!(fragment.len(), 32);
    assert!(fragment.chars().all(|c| c.is_ascii_hexdigit() && !c.is_ascii_uppercase()));
}

#[test]
fn build_spec_pins_each_package() {
    let pkgs = vec![conda("bar", md5(0xa0), &[])];
    let spec = build_explicit_spec("linux-64", &pkgs).unwrap();
    assert_eq!(spec.platform, "linux-64");
    assert_eq!(spec.packages.len(), 1);
    assert_eq!(
        spec.packages[0].url,
        "https://conda.anaconda.org/test/linux-64/bar-1-0.conda#a0a1a2a3a4a5a6a7a8a9aaabacadaeaf"
    );
    let bad = vec![conda("x", md5(1), &[]), conda("y", None, &[]), conda("z", None, &[])];
    assert_eq!(build_explicit_spec("linux-64", &bad).unwrap_err().name, "y");
}

#[test]
fn rendering_spec_text() {
    let spec = ExplicitEnvironmentSpec {
        platform: "osx-64".to_string(),
        packages: vec![
            ExplicitEnvironmentEntry { url: "https://a/x.conda#01".to_string() },
            ExplicitEnvironmentEntry { url: "https://a/y.tar.bz2#02".to_string() },
        ],
    };
    assert_eq!(
        spec.to_spec_string(),
        "# platform: osx-64\n@EXPLICIT\nhttps://a/x.conda#01\nhttps://a/y.tar.bz2#02\n"
    );
    let text = render_explicit_spec(&spec).unwrap();
    assert_eq!(text, format!("# Generated by `pixi project export`\n{}", spec.to_spec_string()));
    let empty = ExplicitEnvironmentSpec { platform: "osx-64".to_string(), packages: vec![] };
    assert!(render_explicit_spec(&empty).is_none());
}

#[test]
fn file_name_joins_environment_and_platform() {
    assert_eq!(spec_file_name("cuda", "linux-aarch64"), "cuda_linux-aarch64_conda_spec.txt");
}

#[test]
fn split_keeps_order_of_each_ecosystem() {
    let pkgs = vec![
        pypi("wheel-a"),
        LockedPackage::Conda(conda("c1", md5(1), &[])),
        pypi("wheel-b"),
        LockedPackage::Conda(conda("c2", md5(2), &[])),
    ];
    let (c, p) = split_packages(pkgs.clone(), true).unwrap();
    assert_eq!(names(&c), vec!["c1", "c2"]);
    assert_eq!(p, vec!["wheel-a".to_string(), "wheel-b".to_string()]);
    assert!(matches!(split_packages(pkgs, false), Err(ExportError::PypiNotSupported)));
}
