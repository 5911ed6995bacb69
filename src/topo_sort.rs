//! Dependency ordering of the binary-ecosystem packages of one
//! (environment, platform) pair.
use rattler_conda_types::PackageName;
use vstd::multiset::Multiset;
use vstd::prelude::*;

use crate::lock::CondaRecord;
use crate::pypi_name::ascii_lower;
use crate::text::texts;

verus! {

broadcast use vstd::seq_lib::group_to_multiset_ensures;

/// Ends the package name at the head of a match spec: ASCII white space or
/// one of `><=!~;[`.
pub open spec fn is_matchspec_delimiter(c: char) -> bool {
    c == ' ' || c == '\t' || c == '\n' || c == '\r' || c == '\u{0C}' || c == '>' || c == '<'
        || c == '=' || c == '!' || c == '~' || c == ';' || c == '['
}

/// The package name that a match spec names: the text before the first
/// delimiter, in ASCII lower case.
pub open spec fn matchspec_package_name(spec: Seq<char>) -> Seq<char>
    decreases spec.len(),
{
    if spec.len() == 0 || is_matchspec_delimiter(spec[0]) {
        seq![]
    } else {
        seq![ascii_lower(spec[0])] + matchspec_package_name(spec.drop_first())
    }
}

/// Relies on rattler_conda_types::PackageName::normalized_name_from_matchspec_str:
/// the bytes before the first delimiter, ASCII upper case made lower case.
#[verifier::external_body]
fn matchspec_name(spec: &str) -> (r: String)
    ensures
        r@ == matchspec_package_name(spec@),
{
    PackageName::normalized_name_from_matchspec_str(spec).into_owned()
}

/// The names of the packages that `p` depends on.
pub open spec fn dependency_names(p: CondaRecord) -> Seq<Seq<char>> {
    p.depends@.map_values(|d: String| matchspec_package_name(d@))
}

/// `p` names `q` among its dependencies.
pub open spec fn depends_on(p: CondaRecord, q: CondaRecord) -> bool {
    dependency_names(p).contains(q.name@)
}

/// None of the packages in `rest` is a dependency of `p`.
pub open spec fn ready_in(p: CondaRecord, rest: Seq<CondaRecord>) -> bool {
    forall|j: int| 0 <= j < rest.len() ==> !depends_on(p, #[trigger] rest[j])
}

/// The first index at or after `k` whose package is ready in `rest`, or -1.
pub open spec fn first_ready_from(rest: Seq<CondaRecord>, k: int) -> int
    decreases rest.len() - k,
{
    if k < 0 || k >= rest.len() {
        -1
    } else if ready_in(rest[k], rest) {
        k
    } else {
        first_ready_from(rest, k + 1)
    }
}

/// Repeatedly takes out the first package none of whose dependencies is
/// left. The first part is the order so found; the second what was left
/// when no package was ready (empty exactly when there is no cycle).
pub open spec fn topological_order(rest: Seq<CondaRecord>) -> (Seq<CondaRecord>, Seq<CondaRecord>)
    decreases rest.len(),
{
    if rest.len() == 0 {
        (seq![], seq![])
    } else {
        let i = first_ready_from(rest, 0);
        if 0 <= i < rest.len() {
            let t = topological_order(rest.remove(i));
            (seq![rest[i]] + t.0, t.1)
        } else {
            (seq![], rest)
        }
    }
}

/// Every package comes after each package it depends on (and none depends
/// on itself).
pub open spec fn dependency_ordered(s: Seq<CondaRecord>) -> bool {
    forall|b: int, a: int| 0 <= b <= a < s.len() ==> !depends_on(#[trigger] s[b], #[trigger] s[a])
}

/// The packages that could not be ordered because their dependencies form
/// a cycle.
#[derive(Debug)]
pub struct DependencyCycle {
    pub unsorted: Vec<CondaRecord>,
}

proof fn lemma_first_ready_found(rest: Seq<CondaRecord>, k: int)
    requires
        0 <= k,
    ensures
        first_ready_from(rest, k) == -1 || (k <= first_ready_from(rest, k) < rest.len()
            && ready_in(rest[first_ready_from(rest, k)], rest)),
        first_ready_from(rest, k) == -1 ==> forall|j: int|
            k <= j < rest.len() ==> !ready_in(#[trigger] rest[j], rest),
    decreases rest.len() - k,
{
    if k < rest.len() && !ready_in(rest[k], rest) {
        lemma_first_ready_found(rest, k + 1);
        assert forall|j: int| k <= j < rest.len() && first_ready_from(rest, k) == -1 implies !ready_in(
            #[trigger] rest[j],
            rest,
        ) by {
            if j > k {
            }
        }
    }
}

/// The order and the remainder together hold exactly the input packages,
/// and no package of the remainder is ready.
pub proof fn lemma_order_is_permutation(s: Seq<CondaRecord>)
    ensures
        topological_order(s).0.to_multiset().add(topological_order(s).1.to_multiset())
            == s.to_multiset(),
        forall|j: int|
            0 <= j < topological_order(s).1.len() ==> !ready_in(
                #[trigger] topological_order(s).1[j],
                topological_order(s).1,
            ),
    decreases s.len(),
{
    broadcast use vstd::multiset::group_multiset_axioms;

    lemma_first_ready_found(s, 0);
    if s.len() > 0 {
        let i = first_ready_from(s, 0);
        if 0 <= i < s.len() {
            lemma_order_is_permutation(s.remove(i));
            let t = topological_order(s.remove(i));
            assert(topological_order(s).0 == seq![s[i]] + t.0);
            vstd::seq_lib::lemma_multiset_commutative(seq![s[i]], t.0);
            assert(seq![s[i]].to_multiset() =~= Multiset::empty().insert(s[i])) by {
                assert(seq![s[i]] == Seq::<CondaRecord>::empty().push(s[i]));
            }
            assert(s.remove(i).to_multiset() == s.to_multiset().remove(s[i]));
            assert(s.contains(s[i]));
            assert(s.to_multiset().count(s[i]) > 0);
            let m = Multiset::empty().insert(s[i]);
            assert(topological_order(s).0.to_multiset() == m.add(t.0.to_multiset()));
            assert(t.0.to_multiset().add(t.1.to_multiset()) == s.to_multiset().remove(s[i]));
            assert(m.add(s.to_multiset().remove(s[i])) =~= s.to_multiset());
            assert(topological_order(s).0.to_multiset().add(topological_order(s).1.to_multiset())
                =~= m.add(t.0.to_multiset().add(t.1.to_multiset())));
        }
    } else {
        assert(s.to_multiset() =~= Multiset::empty());
    }
}

/// In a successful order every dependency comes before the package that
/// needs it.
pub proof fn lemma_order_respects_dependencies(s: Seq<CondaRecord>)
    requires
        topological_order(s).1.len() == 0,
    ensures
        dependency_ordered(topological_order(s).0),
    decreases s.len(),
{
    lemma_first_ready_found(s, 0);
    if s.len() > 0 {
        let i = first_ready_from(s, 0);
        lemma_order_respects_dependencies(s.remove(i));
        lemma_order_is_permutation(s.remove(i));
        let t = topological_order(s.remove(i));
        let o = topological_order(s).0;
        assert(o == seq![s[i]] + t.0);
        assert forall|b: int, a: int| 0 <= b <= a < o.len() implies !depends_on(
            #[trigger] o[b],
            #[trigger] o[a],
        ) by {
            if b == 0 {
                if a == 0 {
                    assert(!depends_on(s[i], s[i]));
                } else {
                    let x = t.0[a - 1];
                    assert(t.0.to_multiset().count(x) > 0);
                    assert(s.remove(i).to_multiset().count(x) > 0);
                    assert(s.remove(i).contains(x));
                    let j = choose|j: int| 0 <= j < s.remove(i).len() && s.remove(i)[j] == x;
                    if j < i {
                        assert(s[j] == x);
                    } else {
                        assert(s[j + 1] == x);
                    }
                }
            } else {
                assert(o[b] == t.0[b - 1]);
                assert(o[a] == t.0[a - 1]);
            }
        }
    }
}

/// Sorting a list that is already dependency-ordered returns it unchanged;
/// in particular sorting the output of a successful sort again gives the
/// same output.
pub proof fn lemma_sort_of_ordered_is_identity(s: Seq<CondaRecord>)
    requires
        dependency_ordered(s),
    ensures
        topological_order(s) == (s, Seq::<CondaRecord>::empty()),
    decreases s.len(),
{
    if s.len() > 0 {
        assert(ready_in(s[0], s)) by {
            assert forall|j: int| 0 <= j < s.len() implies !depends_on(s[0], #[trigger] s[j]) by {
                assert(!depends_on(s[0], s[j]));
            }
        }
        let r = s.remove(0);
        assert(dependency_ordered(r)) by {
            assert forall|b: int, a: int| 0 <= b <= a < r.len() implies !depends_on(
                #[trigger] r[b],
                #[trigger] r[a],
            ) by {
                assert(r[b] == s[b + 1] && r[a] == s[a + 1]);
            }
        }
        lemma_sort_of_ordered_is_identity(r);
        assert(seq![s[0]] + r =~= s);
    }
}

/// Running the sort on its own successful output reproduces that output.
pub proof fn lemma_sort_idempotent(s: Seq<CondaRecord>)
    requires
        topological_order(s).1.len() == 0,
    ensures
        topological_order(topological_order(s).0) == (
            topological_order(s).0,
            Seq::<CondaRecord>::empty(),
        ),
{
    lemma_order_respects_dependencies(s);
    lemma_sort_of_ordered_is_identity(topological_order(s).0);
}

/// The dependency names of each remaining package, kept beside it.
spec fn names_match(names: Seq<Vec<String>>, rest: Seq<CondaRecord>) -> bool {
    &&& names.len() == rest.len()
    &&& forall|i: int|
        0 <= i < rest.len() ==> texts((#[trigger] names[i])@)
            == dependency_names(rest[i])
}

fn dependency_names_of(p: &CondaRecord) -> (r: Vec<String>)
    ensures
        texts(r@) == dependency_names(*p),
{
    let mut r: Vec<String> = Vec::new();
    let mut k: usize = 0;
    while k < p.depends.len()
        invariant
            k <= p.depends@.len(),
            texts(r@) == dependency_names(*p).subrange(0, k as int),
        decreases p.depends@.len() - k,
    {
        let n = matchspec_name(p.depends[k].as_str());
        let ghost before = r@;
        r.push(n);
        assert(texts(r@) =~= texts(before).push(n@));
        k = k + 1;
        assert(texts(r@) =~= dependency_names(*p).subrange(0, k as int));
    }
    assert(dependency_names(*p).subrange(0, k as int) =~= dependency_names(*p));
    r
}

fn is_ready(k: usize, rest: &Vec<CondaRecord>, names: &Vec<Vec<String>>) -> (r: bool)
    requires
        k < rest@.len(),
        names_match(names@, rest@),
    ensures
        r == ready_in(rest@[k as int], rest@),
{
    let ghost deps = dependency_names(rest@[k as int]);
    assert(texts(names@[k as int]@) == deps);
    let mine = &names[k];
    let mut j: usize = 0;
    while j < rest.len()
        invariant
            j <= rest@.len(),
            k < rest@.len(),
            texts(mine@) == deps,
            deps == dependency_names(rest@[k as int]),
            forall|jj: int| 0 <= jj < j ==> !depends_on(rest@[k as int], #[trigger] rest@[jj]),
        decreases rest@.len() - j,
    {
        let mut d: usize = 0;
        while d < mine.len()
            invariant
                d <= mine@.len(),
                j < rest@.len(),
                k < rest@.len(),
                texts(mine@) == deps,
                deps == dependency_names(rest@[k as int]),
                forall|dd: int| 0 <= dd < d ==> deps[dd] != rest@[j as int].name@,
            decreases mine@.len() - d,
        {
            if mine[d] == rest[j].name {
                assert(deps[d as int] == rest@[j as int].name@);
                assert(depends_on(rest@[k as int], rest@[j as int]));
                return false;
            }
            d = d + 1;
        }
        assert(!deps.contains(rest@[j as int].name@));
        j = j + 1;
    }
    true
}

fn first_ready(rest: &Vec<CondaRecord>, names: &Vec<Vec<String>>) -> (r: Option<usize>)
    requires
        names_match(names@, rest@),
    ensures
        match r {
            Some(k) => k as int == first_ready_from(rest@, 0) && k < rest@.len(),
            None => first_ready_from(rest@, 0) == -1,
        },
{
    let mut k: usize = 0;
    while k < rest.len()
        invariant
            k <= rest@.len(),
            names_match(names@, rest@),
            first_ready_from(rest@, 0) == first_ready_from(rest@, k as int),
        decreases rest@.len() - k,
    {
        if is_ready(k, rest, names) {
            return Some(k);
        }
        k = k + 1;
    }
    None
}

/// Orders `packages` so that each comes after every package it depends on.
/// Among packages that are ready at the same step the earliest in the input
/// goes first, so the result depends on the input list alone. A cycle is an
/// error that hands back the packages left unordered.
pub fn sort_topologically(packages: Vec<CondaRecord>) -> (r: Result<
    Vec<CondaRecord>,
    DependencyCycle,
>)
    ensures
        match r {
            Ok(v) => topological_order(packages@).1.len() == 0 && v@ == topological_order(
                packages@,
            ).0,
            Err(e) => topological_order(packages@).1.len() > 0 && e.unsorted@ == topological_order(
                packages@,
            ).1,
        },
{
    let mut rest = packages;
    let mut names: Vec<Vec<String>> = Vec::new();
    let mut i: usize = 0;
    while i < rest.len()
        invariant
            i <= rest@.len(),
            rest@ == packages@,
            names@.len() == i,
            forall|x: int|
                0 <= x < i ==> texts((#[trigger] names@[x])@)
                    == dependency_names(rest@[x]),
        decreases rest@.len() - i,
    {
        let n = dependency_names_of(&rest[i]);
        names.push(n);
        i = i + 1;
    }
    let mut out: Vec<CondaRecord> = Vec::new();
    while rest.len() > 0
        invariant
            names_match(names@, rest@),
            topological_order(packages@) == (out@ + topological_order(rest@).0, topological_order(
                rest@,
            ).1),
        decreases rest@.len(),
    {
        let k = match first_ready(&rest, &names) {
            Some(k) => k,
            None => {
                return Err(DependencyCycle { unsorted: rest });
            },
        };
        let ghost before = rest@;
        let p = rest.remove(k);
        names.remove(k);
        assert(names_match(names@, rest@)) by {
            assert forall|x: int| 0 <= x < rest@.len() implies texts((#[trigger] names@[x])@) == dependency_names(rest@[x]) by {
                if x >= k {
                    assert(rest@[x] == before[x + 1]);
                }
            }
        }
        out.push(p);
        assert(out@ + topological_order(rest@).0 =~= out@.drop_last() + (seq![p]
            + topological_order(rest@).0));
    }
    Ok(out)
}

} // verus!
