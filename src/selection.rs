//! Expansion of the lock into (environment, platform) work-items under
//! optional environment and platform filters.
use vstd::prelude::*;

use crate::export::ExportError;
use crate::lock::{LockEnvironment, LockFile, NamedEnvironment};
use crate::text::texts;

verus! {

/// One environment and platform to export.
#[derive(Debug, Clone)]
pub struct WorkItem {
    /// Position of the environment in the lock.
    pub env_index: usize,
    pub environment: String,
    pub platform: String,
}

/// The work-items, and the requested combinations that were skipped
/// because the environment was not resolved for the platform.
#[derive(Debug)]
pub struct Selection {
    pub items: Vec<WorkItem>,
    pub skipped: Vec<WorkItem>,
}

/// A work-item as plain values.
pub open spec fn item_view(w: WorkItem) -> (int, Seq<char>, Seq<char>) {
    (w.env_index as int, w.environment@, w.platform@)
}

pub open spec fn item_views(ws: Seq<WorkItem>) -> Seq<(int, Seq<char>, Seq<char>)> {
    ws.map_values(|w: WorkItem| item_view(w))
}

/// The platforms an environment was resolved for, in the lock's order.
pub open spec fn platform_names(e: LockEnvironment) -> Seq<Seq<char>> {
    e.platforms@.map_values(|p: crate::lock::PlatformPackages| p.platform@)
}

/// `e` was resolved for `p`.
pub open spec fn is_available(e: LockEnvironment, p: Seq<char>) -> bool {
    platform_names(e).contains(p)
}

/// The requested platforms that `e` was resolved for (`keep`) or not.
pub open spec fn filter_platforms(e: LockEnvironment, ps: Seq<Seq<char>>, keep: bool) -> Seq<
    Seq<char>,
>
    decreases ps.len(),
{
    if ps.len() == 0 {
        seq![]
    } else {
        let prefix = filter_platforms(e, ps.drop_last(), keep);
        if is_available(e, ps.last()) == keep {
            prefix.push(ps.last())
        } else {
            prefix
        }
    }
}

/// The platform filter as plain values.
pub open spec fn requested_view(platforms: Option<Vec<String>>) -> Option<Seq<Seq<char>>> {
    match platforms {
        Some(v) => Some(texts(v@)),
        None => None,
    }
}

/// The platforms to export for `e`: all of them without a filter, else the
/// requested ones it was resolved for.
pub open spec fn chosen_platforms(e: LockEnvironment, requested: Option<Seq<Seq<char>>>) -> Seq<
    Seq<char>,
> {
    match requested {
        Some(ps) => filter_platforms(e, ps, true),
        None => platform_names(e),
    }
}

/// The requested platforms that `e` was not resolved for.
pub open spec fn skipped_platforms(e: LockEnvironment, requested: Option<Seq<Seq<char>>>) -> Seq<
    Seq<char>,
> {
    match requested {
        Some(ps) => filter_platforms(e, ps, false),
        None => seq![],
    }
}

/// Pairs each platform with the environment.
pub open spec fn tag_items(k: int, name: Seq<char>, ps: Seq<Seq<char>>) -> Seq<
    (int, Seq<char>, Seq<char>),
> {
    ps.map_values(|p: Seq<char>| (k, name, p))
}

/// The work-items (`keep`) or skipped combinations of the chosen
/// environments, environment by environment.
pub open spec fn expand(
    envs: Seq<NamedEnvironment>,
    chosen: Seq<int>,
    requested: Option<Seq<Seq<char>>>,
    keep: bool,
) -> Seq<(int, Seq<char>, Seq<char>)>
    decreases chosen.len(),
{
    if chosen.len() == 0 {
        seq![]
    } else {
        let k = chosen.last();
        let e = envs[k];
        let ps = if keep {
            chosen_platforms(e.environment, requested)
        } else {
            skipped_platforms(e.environment, requested)
        };
        expand(envs, chosen.drop_last(), requested, keep) + tag_items(k, e.name@, ps)
    }
}

/// Index `k` holds the first environment named `name`.
pub open spec fn first_env_named(envs: Seq<NamedEnvironment>, name: Seq<char>, k: int) -> bool {
    &&& 0 <= k < envs.len()
    &&& envs[k].name@ == name
    &&& forall|j: int| 0 <= j < k ==> (#[trigger] envs[j]).name@ != name
}

/// Some environment is named `name`.
pub open spec fn has_env(envs: Seq<NamedEnvironment>, name: Seq<char>) -> bool {
    exists|k: int| 0 <= k < envs.len() && (#[trigger] envs[k]).name@ == name
}

/// `chosen` are the environments to export: all of them in order without a
/// filter, else the first environment of each requested name.
pub open spec fn chosen_envs(
    envs: Seq<NamedEnvironment>,
    names: Option<Seq<Seq<char>>>,
    chosen: Seq<int>,
) -> bool {
    match names {
        None => chosen == Seq::new(envs.len(), |k: int| k),
        Some(ns) => chosen.len() == ns.len() && forall|i: int|
            0 <= i < ns.len() ==> first_env_named(envs, ns[i], #[trigger] chosen[i]),
    }
}

fn find_env(envs: &Vec<NamedEnvironment>, name: &String) -> (r: Option<usize>)
    ensures
        match r {
            Some(k) => first_env_named(envs@, name@, k as int),
            None => !has_env(envs@, name@),
        },
{
    let mut k: usize = 0;
    while k < envs.len()
        invariant
            k <= envs@.len(),
            forall|j: int| 0 <= j < k ==> (#[trigger] envs@[j]).name@ != name@,
        decreases envs@.len() - k,
    {
        if envs[k].name == *name {
            return Some(k);
        }
        k = k + 1;
    }
    None
}

fn platform_available(e: &LockEnvironment, p: &String) -> (r: bool)
    ensures
        r == is_available(*e, p@),
{
    let mut j: usize = 0;
    while j < e.platforms.len()
        invariant
            j <= e.platforms@.len(),
            forall|x: int| 0 <= x < j ==> (#[trigger] e.platforms@[x]).platform@ != p@,
        decreases e.platforms@.len() - j,
    {
        if e.platforms[j].platform == *p {
            assert(platform_names(*e)[j as int] == p@);
            return true;
        }
        j = j + 1;
    }
    assert forall|x: int| 0 <= x < platform_names(*e).len() implies #[trigger] platform_names(
        *e,
    )[x] != p@ by {
        assert(platform_names(*e)[x] == e.platforms@[x].platform@);
    }
    false
}

fn push_item(out: &mut Vec<WorkItem>, k: usize, name: &String, platform: &String)
    ensures
        item_views(final(out)@) == item_views(old(out)@).push((k as int, name@, platform@)),
{
    let ghost before = out@;
    out.push(WorkItem { env_index: k, environment: name.clone(), platform: platform.clone() });
    assert(item_views(out@) =~= item_views(before).push((k as int, name@, platform@)));
}

/// Adds the work-items and skipped combinations of environment `k`.
fn expand_env(
    envs: &Vec<NamedEnvironment>,
    k: usize,
    platforms: &Option<Vec<String>>,
    items: &mut Vec<WorkItem>,
    skipped: &mut Vec<WorkItem>,
)
    requires
        k < envs@.len(),
    ensures
        item_views(final(items)@) == item_views(old(items)@) + tag_items(
            k as int,
            envs@[k as int].name@,
            chosen_platforms(envs@[k as int].environment, requested_view(*platforms)),
        ),
        item_views(final(skipped)@) == item_views(old(skipped)@) + tag_items(
            k as int,
            envs@[k as int].name@,
            skipped_platforms(envs@[k as int].environment, requested_view(*platforms)),
        ),
{
    let named = &envs[k];
    let e = &named.environment;
    let ghost items0 = item_views(items@);
    let ghost skipped0 = item_views(skipped@);
    let ghost name = named.name@;
    match platforms {
        None => {
            let mut j: usize = 0;
            while j < e.platforms.len()
                invariant
                    j <= e.platforms@.len(),
                    k < envs@.len(),
                    name == named.name@,
                    skipped@ == old(skipped)@,
                    item_views(items@) == items0 + tag_items(
                        k as int,
                        name,
                        platform_names(*e).subrange(0, j as int),
                    ),
                decreases e.platforms@.len() - j,
            {
                let ghost t = (k as int, name, e.platforms@[j as int].platform@);
                let ghost old_tag = tag_items(k as int, name, platform_names(*e).subrange(0, j as int));
                push_item(items, k, &named.name, &e.platforms[j].platform);
                j = j + 1;
                assert(tag_items(k as int, name, platform_names(*e).subrange(0, j as int))
                    =~= old_tag.push(t));
                assert(items0 + old_tag.push(t) =~= (items0 + old_tag).push(t));
            }
            assert(platform_names(*e).subrange(0, j as int) =~= platform_names(*e));
            assert(tag_items(k as int, name, seq![]) =~= seq![]);
            assert(item_views(skipped@) =~= item_views(old(skipped)@) + seq![]);
        },
        Some(ps) => {
            let ghost req = texts(ps@);
            let mut j: usize = 0;
            while j < ps.len()
                invariant
                    j <= ps@.len(),
                    k < envs@.len(),
                    name == named.name@,
                    req == texts(ps@),
                    item_views(items@) == items0 + tag_items(
                        k as int,
                        name,
                        filter_platforms(*e, req.subrange(0, j as int), true),
                    ),
                    item_views(skipped@) == skipped0 + tag_items(
                        k as int,
                        name,
                        filter_platforms(*e, req.subrange(0, j as int), false),
                    ),
                decreases ps@.len() - j,
            {
                let p = &ps[j];
                assert(req.subrange(0, j + 1).drop_last() =~= req.subrange(0, j as int));
                assert(req.subrange(0, j + 1).last() == p@);
                let ghost t = (k as int, name, p@);
                let ghost old_in = tag_items(k as int, name, filter_platforms(*e, req.subrange(0, j as int), true));
                let ghost old_out = tag_items(k as int, name, filter_platforms(*e, req.subrange(0, j as int), false));
                assert(items0 + old_in.push(t) =~= (items0 + old_in).push(t));
                assert(skipped0 + old_out.push(t) =~= (skipped0 + old_out).push(t));
                if platform_available(e, p) {
                    push_item(items, k, &named.name, p);
                    assert(tag_items(
                        k as int,
                        name,
                        filter_platforms(*e, req.subrange(0, j + 1), true),
                    ) =~= tag_items(
                        k as int,
                        name,
                        filter_platforms(*e, req.subrange(0, j as int), true),
                    ).push((k as int, name, p@)));
                } else {
                    push_item(skipped, k, &named.name, p);
                    assert(tag_items(
                        k as int,
                        name,
                        filter_platforms(*e, req.subrange(0, j + 1), false),
                    ) =~= tag_items(
                        k as int,
                        name,
                        filter_platforms(*e, req.subrange(0, j as int), false),
                    ).push((k as int, name, p@)));
                }
                j = j + 1;
            }
            assert(req.subrange(0, j as int) =~= req);
        },
    }
}

/// Every requested environment is in the lock.
pub open spec fn all_envs_known(envs: Seq<NamedEnvironment>, names: Option<Seq<Seq<char>>>) -> bool {
    names is Some ==> forall|i: int|
        0 <= i < names->Some_0.len() ==> has_env(envs, #[trigger] names->Some_0[i])
}

/// None of the chosen environments was resolved for `p`.
pub open spec fn platform_nowhere(envs: Seq<NamedEnvironment>, chosen: Seq<int>, p: Seq<char>) -> bool {
    forall|i: int| 0 <= i < chosen.len() ==> !is_available(envs[#[trigger] chosen[i]].environment, p)
}

/// Some requested platform is in none of the chosen environments.
pub open spec fn some_platform_nowhere(
    envs: Seq<NamedEnvironment>,
    chosen: Seq<int>,
    requested: Option<Seq<Seq<char>>>,
) -> bool {
    requested is Some && exists|j: int|
        0 <= j < requested->Some_0.len() && platform_nowhere(envs, chosen, #[trigger] requested->Some_0[j])
}

/// The outcome once the environments are chosen: the first requested
/// platform that none of them has is an error; otherwise the work-items
/// and the skipped combinations.
pub open spec fn selection_outcome(
    r: Result<Selection, ExportError>,
    envs: Seq<NamedEnvironment>,
    chosen: Seq<int>,
    requested: Option<Seq<Seq<char>>>,
) -> bool {
    if some_platform_nowhere(envs, chosen, requested) {
        r matches Err(ExportError::UnknownPlatform { platform }) && exists|j: int|
            #![trigger requested->Some_0[j]]
            0 <= j < requested->Some_0.len() && platform@ == requested->Some_0[j]
                && platform_nowhere(envs, chosen, requested->Some_0[j]) && forall|k: int|
                0 <= k < j ==> !platform_nowhere(envs, chosen, #[trigger] requested->Some_0[k])
    } else {
        r matches Ok(sel) && item_views(sel.items@) == expand(envs, chosen, requested, true)
            && item_views(sel.skipped@) == expand(envs, chosen, requested, false)
    }
}

/// Expands the lock into work-items. Without an environment filter every
/// environment is taken in the lock's order; a requested environment that
/// the lock lacks is an error. Without a platform filter every platform of
/// an environment is taken; a requested platform that an environment was
/// not resolved for is skipped for that environment only, and one that
/// none of the chosen environments was resolved for is an error.
pub fn select_work_items(
    lock: &LockFile,
    environments: &Option<Vec<String>>,
    platforms: &Option<Vec<String>>,
) -> (r: Result<Selection, ExportError>)
    ensures
        r matches Err(ExportError::UnknownEnvironment { .. }) <==> !all_envs_known(
            lock.environments@,
            requested_view(*environments),
        ),
        r matches Err(ExportError::UnknownEnvironment { name }) ==> exists|i: int|
            #![trigger environments->Some_0@[i]]
            0 <= i < environments->Some_0@.len() && name@ == environments->Some_0@[i]@
                && !has_env(lock.environments@, name@) && forall|j: int|
                0 <= j < i ==> has_env(lock.environments@, #[trigger] environments->Some_0@[j]@),
        all_envs_known(lock.environments@, requested_view(*environments)) ==> exists|
            chosen: Seq<int>,
        |
            chosen_envs(lock.environments@, requested_view(*environments), chosen)
                && selection_outcome(r, lock.environments@, chosen, requested_view(*platforms)),
{
    let envs = &lock.environments;
    let mut chosen: Vec<usize> = Vec::new();
    match environments {
        None => {
            let mut k: usize = 0;
            while k < envs.len()
                invariant
                    k <= envs@.len(),
                    chosen@.len() == k,
                    forall|x: int| 0 <= x < k ==> chosen@[x] == x,
                decreases envs@.len() - k,
            {
                chosen.push(k);
                k = k + 1;
            }
        },
        Some(names) => {
            let mut i: usize = 0;
            while i < names.len()
                invariant
                    i <= names@.len(),
                    *environments == Some(*names),
                    *envs == lock.environments,
                    chosen@.len() == i,
                    forall|x: int|
                        0 <= x < i ==> first_env_named(
                            envs@,
                            names@[x]@,
                            #[trigger] chosen@[x] as int,
                        ),
                decreases names@.len() - i,
            {
                match find_env(envs, &names[i]) {
                    Some(k) => {
                        chosen.push(k);
                    },
                    None => {
                        proof {
                            assert forall|j: int| 0 <= j < i implies has_env(
                                envs@,
                                #[trigger] names@[j]@,
                            ) by {
                                assert(first_env_named(envs@, names@[j]@, chosen@[j] as int));
                            }
                            assert(environments->Some_0@[i as int] == names@[i as int]);
                            let ns = texts(names@);
                            assert(requested_view(*environments) == Some(ns));
                            assert(!all_envs_known(envs@, Some(ns))) by {
                                if all_envs_known(envs@, Some(ns)) {
                                    let o = Some(ns);
                                    assert(has_env(envs@, o->Some_0[i as int]));
                                }
                            }
                        }
                        return Err(ExportError::UnknownEnvironment { name: names[i].clone() });
                    },
                }
                i = i + 1;
            }
            proof {
                assert forall|x: int| 0 <= x < names@.len() implies has_env(
                    envs@,
                    #[trigger] names@[x]@,
                ) by {
                    assert(first_env_named(envs@, names@[x]@, chosen@[x] as int));
                }
            }
        },
    }
    let ghost cs = chosen@.map_values(|k: usize| k as int);
    assert(chosen_envs(envs@, requested_view(*environments), cs)) by {
        match environments {
            None => {
                assert(cs =~= Seq::new(envs@.len(), |k: int| k));
            },
            Some(ns) => {
                assert forall|i: int| 0 <= i < ns@.len() implies first_env_named(
                    envs@,
                    texts(ns@)[i],
                    #[trigger] cs[i],
                ) by {
                    assert(first_env_named(envs@, ns@[i]@, chosen@[i] as int));
                }
            },
        }
    }
    assert(all_envs_known(envs@, requested_view(*environments))) by {
        if let Some(ns) = environments {
            assert forall|i: int| 0 <= i < texts(ns@).len() implies has_env(envs@, #[trigger] texts(ns@)[i]) by {
                assert(first_env_named(envs@, ns@[i]@, chosen@[i] as int));
            }
        }
    }
    let mut items: Vec<WorkItem> = Vec::new();
    let mut skipped: Vec<WorkItem> = Vec::new();
    let mut c: usize = 0;
    while c < chosen.len()
        invariant
            c <= chosen@.len(),
            all_envs_known(envs@, requested_view(*environments)),
            chosen_envs(envs@, requested_view(*environments), cs),
            *envs == lock.environments,
            cs == chosen@.map_values(|k: usize| k as int),
            forall|x: int| 0 <= x < chosen@.len() ==> #[trigger] chosen@[x] < envs@.len(),
            item_views(items@) == expand(
                envs@,
                cs.subrange(0, c as int),
                requested_view(*platforms),
                true,
            ),
            item_views(skipped@) == expand(
                envs@,
                cs.subrange(0, c as int),
                requested_view(*platforms),
                false,
            ),
        decreases chosen@.len() - c,
    {
        let k = chosen[c];
        expand_env(envs, k, platforms, &mut items, &mut skipped);
        c = c + 1;
        assert(cs.subrange(0, c as int).drop_last() =~= cs.subrange(0, c - 1));
    }
    assert(cs.subrange(0, c as int) =~= cs);
    if let Some(ps) = platforms {
        let mut j: usize = 0;
        while j < ps.len()
            invariant
                j <= ps@.len(),
                *platforms == Some(*ps),
                *envs == lock.environments,
                all_envs_known(envs@, requested_view(*environments)),
                chosen_envs(envs@, requested_view(*environments), cs),
                cs == chosen@.map_values(|k: usize| k as int),
                forall|x: int| 0 <= x < chosen@.len() ==> #[trigger] chosen@[x] < envs@.len(),
                forall|k: int| 0 <= k < j ==> !platform_nowhere(envs@, cs, #[trigger] texts(ps@)[k]),
            decreases ps@.len() - j,
        {
            let p = &ps[j];
            let mut c: usize = 0;
            let mut found = false;
            while c < chosen.len()
                invariant
                    c <= chosen@.len(),
                    cs == chosen@.map_values(|k: usize| k as int),
                    forall|x: int| 0 <= x < chosen@.len() ==> #[trigger] chosen@[x] < envs@.len(),
                    found ==> !platform_nowhere(envs@, cs, p@),
                    !found ==> forall|x: int| 0 <= x < c ==> !is_available(envs@[#[trigger] cs[x]].environment, p@),
                decreases chosen@.len() - c,
            {
                if platform_available(&envs[chosen[c]].environment, p) {
                    assert(cs[c as int] == chosen@[c as int] as int);
                    assert(is_available(envs@[cs[c as int]].environment, p@));
                    found = true;
                }
                c = c + 1;
            }
            assert(texts(ps@)[j as int] == p@);
            if !found {
                proof {
                    let req = texts(ps@);
                    assert(requested_view(*platforms) == Some(req));
                    assert(platform_nowhere(envs@, cs, req[j as int]));
                    assert(requested_view(*platforms)->Some_0[j as int] == req[j as int]);
                    assert(some_platform_nowhere(envs@, cs, requested_view(*platforms)));
                }
                return Err(ExportError::UnknownPlatform { platform: p.clone() });
            }
            j = j + 1;
        }
        assert(requested_view(*platforms) == Some(texts(ps@)));
    }
    Ok(Selection { items, skipped })
}

} // verus!
