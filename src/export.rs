//! Export of one (environment, platform) work-item: the packages are split
//! by ecosystem, ordered by dependency, pinned and rendered.
use vstd::prelude::*;

use crate::explicit_spec::{
    all_have_checksums, build_explicit_spec, first_without_checksum, generator_header,
    pinned_urls, render_explicit_spec, spec_file_name, spec_text, MissingChecksum,
};
use crate::lock::{CondaRecord, LockEnvironment, LockedPackage, PlatformPackages};
use crate::text::texts;
use crate::explicit_spec::pinned_url;
use crate::pypi_name::ascii_lower;
use crate::topo_sort::{
    dependency_names, depends_on, first_ready_from, is_matchspec_delimiter,
    matchspec_package_name, ready_in, sort_topologically, topological_order, DependencyCycle,
};

verus! {

/// Why an export stopped.
#[derive(Debug)]
pub enum ExportError {
    /// An environment that was asked for is not in the lock.
    UnknownEnvironment { name: String },
    /// A requested platform is in none of the chosen environments.
    UnknownPlatform { platform: String },
    /// The environment was not resolved for the platform.
    PlatformNotFound { platform: String },
    /// Wheel-ecosystem packages are present and were not allowed to be dropped.
    PypiNotSupported,
    /// The dependencies of some packages form a cycle.
    DependencyCycle(DependencyCycle),
    /// A binary-ecosystem package has no checksum.
    MissingChecksum(MissingChecksum),
}

/// What one work-item produced.
#[derive(Debug)]
pub struct RenderedSpec {
    /// The file to write, inside the output directory.
    pub file_name: String,
    /// The file's text; none when there is nothing to export.
    pub contents: Option<String>,
    /// Names of the wheel-ecosystem packages that were left out.
    pub ignored_pypi: Vec<String>,
}

/// The binary-ecosystem packages, in their order.
pub open spec fn conda_part(pkgs: Seq<LockedPackage>) -> Seq<CondaRecord>
    decreases pkgs.len(),
{
    if pkgs.len() == 0 {
        seq![]
    } else {
        match pkgs.last() {
            LockedPackage::Conda(c) => conda_part(pkgs.drop_last()).push(c),
            LockedPackage::Pypi(_) => conda_part(pkgs.drop_last()),
        }
    }
}

/// The names of the wheel-ecosystem packages, in their order.
pub open spec fn pypi_names(pkgs: Seq<LockedPackage>) -> Seq<Seq<char>>
    decreases pkgs.len(),
{
    if pkgs.len() == 0 {
        seq![]
    } else {
        match pkgs.last() {
            LockedPackage::Conda(_) => pypi_names(pkgs.drop_last()),
            LockedPackage::Pypi(p) => pypi_names(pkgs.drop_last()).push(p.name@),
        }
    }
}

/// Some package is of the wheel ecosystem.
pub open spec fn has_pypi(pkgs: Seq<LockedPackage>) -> bool {
    exists|i: int| 0 <= i < pkgs.len() && #[trigger] pkgs[i] is Pypi
}

/// Index `i` holds the first entry for `platform`.
pub open spec fn first_platform(ps: Seq<PlatformPackages>, platform: Seq<char>, i: int) -> bool {
    &&& 0 <= i < ps.len()
    &&& ps[i].platform@ == platform
    &&& forall|j: int| 0 <= j < i ==> (#[trigger] ps[j]).platform@ != platform
}

/// No entry is for `platform`.
pub open spec fn lacks_platform(ps: Seq<PlatformPackages>, platform: Seq<char>) -> bool {
    forall|j: int| 0 <= j < ps.len() ==> (#[trigger] ps[j]).platform@ != platform
}

/// The outcome of exporting `pkgs` for `env_name` and `platform`: the
/// wheel-ecosystem check first, then the dependency order, then the
/// checksums; on success the file name, its text (none when no package is
/// left) and the names of the dropped wheel-ecosystem packages.
pub open spec fn export_outcome(
    r: Result<RenderedSpec, ExportError>,
    env_name: Seq<char>,
    platform: Seq<char>,
    pkgs: Seq<LockedPackage>,
    ignore_pypi_errors: bool,
) -> bool {
    let sorted = topological_order(conda_part(pkgs));
    if has_pypi(pkgs) && !ignore_pypi_errors {
        r matches Err(ExportError::PypiNotSupported)
    } else if sorted.1.len() > 0 {
        r matches Err(ExportError::DependencyCycle(c)) && c.unsorted@ == sorted.1
    } else if !all_have_checksums(sorted.0) {
        r matches Err(ExportError::MissingChecksum(m)) && exists|i: int|
            first_without_checksum(sorted.0, i) && m.name@ == sorted.0[i].name@
    } else {
        &&& r matches Ok(x)
        &&& x.file_name@ == env_name + "_"@ + platform + "_conda_spec.txt"@
        &&& texts(x.ignored_pypi@) == pypi_names(pkgs)
        &&& sorted.0.len() == 0 ==> x.contents is None
        &&& sorted.0.len() > 0 ==> (x.contents matches Some(text) && text@ == generator_header()
            + spec_text(platform, pinned_urls(sorted.0)))
    }
}

proof fn lemma_pinned_urls_len(pkgs: Seq<CondaRecord>)
    ensures
        pinned_urls(pkgs).len() == pkgs.len(),
    decreases pkgs.len(),
{
    if pkgs.len() > 0 {
        lemma_pinned_urls_len(pkgs.drop_last());
    }
}

proof fn lemma_no_pypi_names(pkgs: Seq<LockedPackage>)
    requires
        !has_pypi(pkgs),
    ensures
        pypi_names(pkgs).len() == 0,
    decreases pkgs.len(),
{
    if pkgs.len() > 0 {
        assert(!has_pypi(pkgs.drop_last())) by {
            assert forall|i: int| 0 <= i < pkgs.drop_last().len() implies !(
            #[trigger] pkgs.drop_last()[i] is Pypi) by {
                assert(pkgs.drop_last()[i] == pkgs[i]);
            }
        }
        lemma_no_pypi_names(pkgs.drop_last());
        assert(!(pkgs[pkgs.len() - 1] is Pypi));
    }
}

/// Splits the packages by ecosystem. Wheel-ecosystem packages are an error
/// unless `ignore_pypi_errors`, in which case their names are handed back
/// for a warning each.
pub fn split_packages(packages: Vec<LockedPackage>, ignore_pypi_errors: bool) -> (r: Result<
    (Vec<CondaRecord>, Vec<String>),
    ExportError,
>)
    ensures
        has_pypi(packages@) && !ignore_pypi_errors ==> r matches Err(ExportError::PypiNotSupported),
        !(has_pypi(packages@) && !ignore_pypi_errors) ==> (r matches Ok((c, names)) && c@
            == conda_part(packages@) && texts(names@) == pypi_names(packages@)),
{
    let ghost all = packages@;
    let mut rest = packages;
    let mut conda: Vec<CondaRecord> = Vec::new();
    let mut names: Vec<String> = Vec::new();
    let ghost mut i: int = 0;
    while rest.len() > 0
        invariant
            0 <= i,
            all == packages@,
            i + rest@.len() == all.len(),
            rest@ == all.subrange(i, all.len() as int),
            conda@ == conda_part(all.subrange(0, i)),
            texts(names@) == pypi_names(all.subrange(0, i)),
            !ignore_pypi_errors ==> !has_pypi(all.subrange(0, i)),
        decreases rest@.len(),
    {
        assert(i < all.len());
        let p = rest.remove(0);
        assert(p == all[i]);
        assert(all.subrange(0, i + 1).drop_last() =~= all.subrange(0, i));
        match p {
            LockedPackage::Conda(c) => {
                conda.push(c);
            },
            LockedPackage::Pypi(pyp) => {
                if !ignore_pypi_errors {
                    assert(packages@[i] is Pypi);
                    assert(has_pypi(packages@));
                    return Err(ExportError::PypiNotSupported);
                }
                let ghost before = names@;
                names.push(pyp.name);
                assert(texts(names@) =~= texts(before).push(names@.last()@));
            },
        }
        proof {
            i = i + 1;
        }
        assert(rest@ =~= all.subrange(i, all.len() as int));
        assert(!ignore_pypi_errors ==> !has_pypi(all.subrange(0, i))) by {
            if !ignore_pypi_errors {
                assert forall|j: int| 0 <= j < i implies !(#[trigger] all.subrange(
                    0,
                    i as int,
                )[j] is Pypi) by {
                    if j < i - 1 {
                        assert(all.subrange(0, i)[j] == all.subrange(0, i - 1)[j]);
                    }
                }
            }
        }
    }
    assert(all.subrange(0, i) =~= all);
    Ok((conda, names))
}

fn find_platform(ps: &Vec<PlatformPackages>, platform: &str) -> (r: Option<usize>)
    ensures
        match r {
            Some(i) => first_platform(ps@, platform@, i as int),
            None => lacks_platform(ps@, platform@),
        },
{
    let wanted = platform.to_owned();
    let mut i: usize = 0;
    while i < ps.len()
        invariant
            i <= ps@.len(),
            wanted@ == platform@,
            forall|j: int| 0 <= j < i ==> (#[trigger] ps@[j]).platform@ != platform@,
        decreases ps@.len() - i,
    {
        if ps[i].platform == wanted {
            return Some(i);
        }
        i = i + 1;
    }
    None
}

/// Exports the packages that `env` holds for `platform`.
pub fn render_env_platform(
    env_name: &str,
    env: LockEnvironment,
    platform: &str,
    ignore_pypi_errors: bool,
) -> (r: Result<RenderedSpec, ExportError>)
    ensures
        lacks_platform(env.platforms@, platform@) ==> r matches Err(
            ExportError::PlatformNotFound { .. },
        ),
        forall|i: int|
            first_platform(env.platforms@, platform@, i) ==> export_outcome(
                r,
                env_name@,
                platform@,
                #[trigger] env.platforms@[i].packages@,
                ignore_pypi_errors,
            ),
{
    let mut platforms = env.platforms;
    let ghost ps = platforms@;
    let i = match find_platform(&platforms, platform) {
        Some(i) => i,
        None => {
            return Err(ExportError::PlatformNotFound { platform: platform.to_owned() });
        },
    };
    proof {
        assert forall|k: int| first_platform(ps, platform@, k) implies k == i by {
            if k < i {
            } else if k > i {
            }
        }
    }
    let entry = platforms.remove(i);
    let ghost pkgs = entry.packages@;
    let (conda, ignored_pypi) = match split_packages(entry.packages, ignore_pypi_errors) {
        Ok(parts) => parts,
        Err(e) => {
            return Err(e);
        },
    };
    let sorted = match sort_topologically(conda) {
        Ok(v) => v,
        Err(c) => {
            return Err(ExportError::DependencyCycle(c));
        },
    };
    let ees = match build_explicit_spec(platform, &sorted) {
        Ok(s) => s,
        Err(m) => {
            return Err(ExportError::MissingChecksum(m));
        },
    };
    proof {
        lemma_pinned_urls_len(sorted@);
        if !ignore_pypi_errors {
            lemma_no_pypi_names(pkgs);
        }
    }
    let contents = render_explicit_spec(&ees);
    let file_name = spec_file_name(env_name, platform);
    Ok(RenderedSpec { file_name, contents, ignored_pypi })
}

} // verus!

verus! {

/// The name has no match-spec delimiter and no ASCII upper case, so a match
/// spec made of it names it.
pub open spec fn is_plain_matchspec_name(s: Seq<char>) -> bool {
    forall|i: int|
        0 <= i < s.len() ==> !is_matchspec_delimiter(#[trigger] s[i]) && ascii_lower(s[i]) == s[i]
}

proof fn lemma_plain_name_is_its_own_matchspec(s: Seq<char>)
    requires
        is_plain_matchspec_name(s),
    ensures
        matchspec_package_name(s) == s,
    decreases s.len(),
{
    if s.len() > 0 {
        assert(is_plain_matchspec_name(s.drop_first())) by {
            assert forall|i: int| 0 <= i < s.drop_first().len() implies !is_matchspec_delimiter(
                #[trigger] s.drop_first()[i],
            ) && ascii_lower(s.drop_first()[i]) == s.drop_first()[i] by {
                assert(s.drop_first()[i] == s[i + 1]);
            }
        }
        lemma_plain_name_is_its_own_matchspec(s.drop_first());
        assert(!is_matchspec_delimiter(s[0]) && ascii_lower(s[0]) == s[0]);
        assert(seq![s[0]] + s.drop_first() =~= s);
    }
}

/// A work-item whose binary-ecosystem packages are `foo`, which depends on
/// `bar`, and `bar`, which depends on nothing, in either order, both with
/// checksums, exports exactly two pinned lines, `bar`'s before `foo`'s;
/// wheel-ecosystem packages, when allowed, appear in no line.
pub proof fn lemma_two_package_export(
    r: Result<RenderedSpec, ExportError>,
    env_name: Seq<char>,
    platform: Seq<char>,
    pkgs: Seq<LockedPackage>,
    ignore_pypi_errors: bool,
    foo: CondaRecord,
    bar: CondaRecord,
)
    requires
        export_outcome(r, env_name, platform, pkgs, ignore_pypi_errors),
        !has_pypi(pkgs) || ignore_pypi_errors,
        conda_part(pkgs) == seq![foo, bar] || conda_part(pkgs) == seq![bar, foo],
        foo.depends@.len() == 1,
        foo.depends@[0]@ == bar.name@,
        is_plain_matchspec_name(bar.name@),
        bar.depends@.len() == 0,
        foo.name@ != bar.name@,
        foo.md5 is Some,
        bar.md5 is Some,
    ensures
        r matches Ok(x) && x.contents matches Some(text) && text@ == generator_header()
            + spec_text(
            platform,
            seq![
                pinned_url(bar.url@, bar.md5->Some_0@),
                pinned_url(foo.url@, foo.md5->Some_0@),
            ],
        ),
{
    lemma_plain_name_is_its_own_matchspec(bar.name@);
    assert(dependency_names(foo) =~= seq![bar.name@]);
    assert(dependency_names(bar) =~= Seq::<Seq<char>>::empty());
    assert(dependency_names(foo)[0] == bar.name@);
    assert(depends_on(foo, bar));
    assert(!depends_on(foo, foo));
    assert(!depends_on(bar, foo));
    assert(!depends_on(bar, bar));
    let single = seq![foo];
    assert(ready_in(foo, single));
    assert(first_ready_from(single, 0) == 0);
    assert(single.remove(0) =~= Seq::<CondaRecord>::empty());
    assert(topological_order(single) == (seq![foo], Seq::<CondaRecord>::empty())) by {
        assert(topological_order(single.remove(0)) == (
            Seq::<CondaRecord>::empty(),
            Seq::<CondaRecord>::empty(),
        ));
        assert(seq![foo] + Seq::<CondaRecord>::empty() =~= seq![foo]);
    }
    let fb = seq![foo, bar];
    let bf = seq![bar, foo];
    if conda_part(pkgs) == fb {
        assert(!ready_in(foo, fb)) by {
            assert(fb[1] == bar);
        }
        assert(ready_in(bar, fb));
        assert(first_ready_from(fb, 1) == 1);
        assert(first_ready_from(fb, 0) == 1);
        assert(fb.remove(1) =~= single);
        assert(seq![bar] + seq![foo] =~= bf);
    } else {
        assert(ready_in(bar, bf));
        assert(first_ready_from(bf, 0) == 0);
        assert(bf.remove(0) =~= single);
        assert(seq![bar] + seq![foo] =~= bf);
    }
    assert(topological_order(conda_part(pkgs)) == (bf, Seq::<CondaRecord>::empty()));
    assert(all_have_checksums(bf));
    assert(bf.drop_last() =~= seq![bar]);
    assert(seq![bar].drop_last() =~= Seq::<CondaRecord>::empty());
    assert(pinned_urls(Seq::<CondaRecord>::empty()) == Seq::<Seq<char>>::empty());
    assert(pinned_urls(seq![bar]) =~= seq![pinned_url(bar.url@, bar.md5->Some_0@)]);
    assert(bf.last() == foo);
    assert(pinned_urls(bf) =~= seq![
        pinned_url(bar.url@, bar.md5->Some_0@),
        pinned_url(foo.url@, foo.md5->Some_0@),
    ]);
}

} // verus!
