//! The explicit environment spec: one pinned URL per package, with the
//! archive's checksum as the URL fragment.
use vstd::prelude::*;
use vstd::string::*;

use crate::lock::CondaRecord;

verus! {

broadcast use vstd::array::group_array_axioms;

/// The lowercase hexadecimal digit of `n` (below 16).
pub open spec fn hex_digit(n: u8) -> char {
    if n < 10 {
        ((48 + n) as u8) as char
    } else {
        ((87 + n) as u8) as char
    }
}

/// Two lowercase hexadecimal digits per byte, high nibble first.
pub open spec fn lower_hex(b: Seq<u8>) -> Seq<char>
    decreases b.len(),
{
    if b.len() == 0 {
        seq![]
    } else {
        lower_hex(b.drop_last()).push(hex_digit(b.last() / 16)).push(hex_digit(b.last() % 16))
    }
}

/// The URL up to, and without, its first `#`.
pub open spec fn url_without_fragment(u: Seq<char>) -> Seq<char>
    decreases u.len(),
{
    if u.len() == 0 || u[0] == '#' {
        seq![]
    } else {
        seq![u[0]] + url_without_fragment(u.drop_first())
    }
}

/// The URL with `checksum` as its fragment, replacing any fragment it had.
pub open spec fn pinned_url(url: Seq<char>, checksum: Seq<u8>) -> Seq<char> {
    url_without_fragment(url) + seq!['#'] + lower_hex(checksum)
}

/// A digit of lowercase hexadecimal.
pub open spec fn is_lower_hex_digit(c: char) -> bool {
    ('0' <= c && c <= '9') || ('a' <= c && c <= 'f')
}

/// The text after the URL's first `#`.
pub open spec fn url_fragment(u: Seq<char>) -> Seq<char> {
    u.subrange(url_without_fragment(u).len() + 1 as int, u.len() as int)
}

/// The URL has a fragment of exactly 32 lowercase hexadecimal digits: an
/// MD5 digest.
pub open spec fn is_md5_pinned(u: Seq<char>) -> bool {
    &&& url_without_fragment(u).len() < u.len()
    &&& url_fragment(u).len() == 32
    &&& forall|j: int| 0 <= j < 32 ==> is_lower_hex_digit(#[trigger] url_fragment(u)[j])
}

/// The pinned URL of each package (each must have a checksum).
pub open spec fn pinned_urls(pkgs: Seq<CondaRecord>) -> Seq<Seq<char>>
    decreases pkgs.len(),
{
    if pkgs.len() == 0 {
        seq![]
    } else {
        let p = pkgs.last();
        pinned_urls(pkgs.drop_last()).push(pinned_url(p.url@, p.md5->Some_0@))
    }
}

/// Every package carries a checksum.
pub open spec fn all_have_checksums(pkgs: Seq<CondaRecord>) -> bool {
    forall|i: int| 0 <= i < pkgs.len() ==> (#[trigger] pkgs[i]).md5 is Some
}

/// Index `i` is the first package without a checksum.
pub open spec fn first_without_checksum(pkgs: Seq<CondaRecord>, i: int) -> bool {
    &&& 0 <= i < pkgs.len()
    &&& pkgs[i].md5 is None
    &&& forall|j: int| 0 <= j < i ==> (#[trigger] pkgs[j]).md5 is Some
}

/// One line per entry, each ended by a newline.
pub open spec fn lines(entries: Seq<Seq<char>>) -> Seq<char>
    decreases entries.len(),
{
    if entries.len() == 0 {
        seq![]
    } else {
        lines(entries.drop_last()) + entries.last() + seq!['\n']
    }
}

/// The platform marker, the format's start marker, and one URL per line.
pub open spec fn spec_text(platform: Seq<char>, urls: Seq<Seq<char>>) -> Seq<char> {
    "# platform: "@ + platform + seq!['\n'] + "@EXPLICIT\n"@ + lines(urls)
}

/// The comment that opens every rendered file.
pub open spec fn generator_header() -> Seq<char> {
    "# Generated by `pixi project export`\n"@
}

/// One pinned package of an explicit spec.
#[derive(Debug, Clone)]
pub struct ExplicitEnvironmentEntry {
    pub url: String,
}

/// A target platform and the pinned packages in installation order.
#[derive(Debug, Clone)]
pub struct ExplicitEnvironmentSpec {
    pub platform: String,
    pub packages: Vec<ExplicitEnvironmentEntry>,
}

impl ExplicitEnvironmentSpec {
    /// The URLs of the entries.
    pub open spec fn urls(&self) -> Seq<Seq<char>> {
        self.packages@.map_values(|e: ExplicitEnvironmentEntry| e.url@)
    }

    /// The spec in the explicit format: platform marker, start marker and
    /// one URL per line.
    pub fn to_spec_string(&self) -> (r: String)
        ensures
            r@ == spec_text(self.platform@, self.urls()),
    {
        let mut s = String::new();
        s.push_str("# platform: ");
        s.push_str(self.platform.as_str());
        s.push('\n');
        s.push_str("@EXPLICIT\n");
        let ghost head = s@;
        let mut i: usize = 0;
        while i < self.packages.len()
            invariant
                i <= self.packages@.len(),
                s@ == head + lines(self.urls().subrange(0, i as int)),
            decreases self.packages@.len() - i,
        {
            s.push_str(self.packages[i].url.as_str());
            s.push('\n');
            i = i + 1;
            assert(self.urls().subrange(0, i as int).drop_last() =~= self.urls().subrange(
                0,
                i - 1,
            ));
        }
        assert(self.urls().subrange(0, i as int) =~= self.urls());
        s
    }
}

/// A binary-ecosystem package that has no checksum.
#[derive(Debug, Clone)]
pub struct MissingChecksum {
    /// The package's name.
    pub name: String,
}

fn hex_digit_char(n: u8) -> (c: char)
    requires
        n < 16,
    ensures
        c == hex_digit(n),
{
    if n < 10 {
        (48 + n) as char
    } else {
        (87 + n) as char
    }
}

fn push_lower_hex(out: &mut String, bytes: &[u8; 16])
    ensures
        final(out)@ == old(out)@ + lower_hex(bytes@),
{
    let ghost start = out@;
    let mut i: usize = 0;
    while i < 16
        invariant
            bytes@.len() == 16,
            i <= bytes@.len(),
            out@ == start + lower_hex(bytes@.subrange(0, i as int)),
        decreases bytes@.len() - i,
    {
        let b = bytes[i];
        out.push(hex_digit_char(b / 16));
        out.push(hex_digit_char(b % 16));
        i = i + 1;
        assert(bytes@.subrange(0, i as int).drop_last() =~= bytes@.subrange(0, i - 1));
    }
    assert(bytes@.subrange(0, i as int) =~= bytes@);
}

proof fn lemma_url_step(u: Seq<char>, i: int)
    requires
        0 <= i < u.len(),
    ensures
        u[i] == '#' ==> url_without_fragment(u.subrange(i, u.len() as int)) == Seq::<char>::empty(),
        u[i] != '#' ==> url_without_fragment(u.subrange(i, u.len() as int)) == seq![u[i]]
            + url_without_fragment(u.subrange(i + 1, u.len() as int)),
{
    assert(u.subrange(i, u.len() as int).drop_first() =~= u.subrange(i + 1, u.len() as int));
}

/// `url` without its fragment, if it has one.
fn strip_fragment(url: &str) -> (r: String)
    ensures
        r@ == url_without_fragment(url@),
{
    let n = url.unicode_len();
    let mut i: usize = 0;
    assert(url@.subrange(0, n as int) =~= url@);
    assert(url@.subrange(0, 0) + url_without_fragment(url@) =~= url_without_fragment(url@));
    while i < n
        invariant
            i <= n,
            n == url@.len(),
            url_without_fragment(url@) == url@.subrange(0, i as int) + url_without_fragment(
                url@.subrange(i as int, n as int),
            ),
        decreases n - i,
    {
        proof {
            lemma_url_step(url@, i as int);
        }
        if url.get_char(i) == '#' {
            assert(url_without_fragment(url@) =~= url@.subrange(0, i as int));
            return url.substring_char(0, i).to_owned();
        }
        assert(url@.subrange(0, i as int) + seq![url@[i as int]] =~= url@.subrange(0, i + 1));
        i = i + 1;
    }
    assert(url@.subrange(i as int, n as int) =~= Seq::<char>::empty());
    assert(url@.subrange(0, i as int) =~= url@);
    url.to_owned()
}

/// The package's URL with the checksum as its fragment, in lowercase
/// hexadecimal.
pub fn pin_url(url: &str, checksum: &[u8; 16]) -> (r: String)
    ensures
        r@ == pinned_url(url@, checksum@),
        is_md5_pinned(r@),
{
    proof {
        assert(checksum@.len() == 16);
        lemma_md5_pinned(url@, checksum@);
        assert(is_md5_pinned(pinned_url(url@, checksum@)));
    }
    let mut s = strip_fragment(url);
    s.push('#');
    push_lower_hex(&mut s, checksum);
    s
}

proof fn lemma_hex_has_no_hash(b: Seq<u8>)
    ensures
        lower_hex(b).len() == 2 * b.len(),
        forall|i: int| 0 <= i < lower_hex(b).len() ==> is_lower_hex_digit(lower_hex(b)[i]),
        forall|i: int| 0 <= i < lower_hex(b).len() ==> lower_hex(b)[i] != '#',
    decreases b.len(),
{
    if b.len() > 0 {
        lemma_hex_has_no_hash(b.drop_last());
        let x = b.last();
        assert(is_lower_hex_digit(hex_digit(x / 16)));
        assert(is_lower_hex_digit(hex_digit(x % 16)));
    }
}

proof fn lemma_base_is_prefix(u: Seq<char>)
    ensures
        url_without_fragment(u).len() <= u.len(),
        url_without_fragment(u) == u.subrange(0, url_without_fragment(u).len() as int),
        forall|i: int| 0 <= i < url_without_fragment(u).len() ==> url_without_fragment(u)[i] != '#',
    decreases u.len(),
{
    if u.len() > 0 && u[0] != '#' {
        lemma_base_is_prefix(u.drop_first());
        assert(url_without_fragment(u) =~= u.subrange(0, url_without_fragment(u).len() as int));
    }
}

proof fn lemma_split_at_first_hash(a: Seq<char>, rest: Seq<char>)
    requires
        forall|i: int| 0 <= i < a.len() ==> a[i] != '#',
    ensures
        url_without_fragment(a + seq!['#'] + rest) == a,
    decreases a.len(),
{
    if a.len() == 0 {
        assert((a + seq!['#'] + rest)[0] == '#');
    } else {
        lemma_split_at_first_hash(a.drop_first(), rest);
        assert((a + seq!['#'] + rest).drop_first() =~= a.drop_first() + seq!['#'] + rest);
        assert(seq![a[0]] + a.drop_first() =~= a);
    }
}

/// The pinned URL splits at its first `#` into the package URL, kept as
/// it was up to its own fragment, and the lowercase hexadecimal checksum.
pub proof fn lemma_checksum_fragment_round_trip(url: Seq<char>, checksum: Seq<u8>)
    ensures
        url_without_fragment(pinned_url(url, checksum)) == url_without_fragment(url),
        url_without_fragment(url) == url.subrange(0, url_without_fragment(url).len() as int),
        url_fragment(pinned_url(url, checksum)) == lower_hex(checksum),
{
    lemma_base_is_prefix(url);
    lemma_split_at_first_hash(url_without_fragment(url), lower_hex(checksum));
    let base = url_without_fragment(url);
    assert(pinned_url(url, checksum).subrange(base.len() + 1 as int, pinned_url(url, checksum).len() as int)
        =~= lower_hex(checksum));
}

/// A pinned URL with a 16-byte checksum carries a fragment of exactly 32
/// lowercase hexadecimal digits.
proof fn lemma_md5_pinned(url: Seq<char>, checksum: Seq<u8>)
    requires
        checksum.len() == 16,
    ensures
        is_md5_pinned(pinned_url(url, checksum)),
{
    lemma_checksum_fragment_round_trip(url, checksum);
    lemma_hex_has_no_hash(checksum);
    lemma_base_is_prefix(url);
}

/// One pinned entry per package, in the given order; the first package
/// without a checksum is an error.
pub fn build_explicit_spec(platform: &str, conda_packages: &Vec<CondaRecord>) -> (r: Result<
    ExplicitEnvironmentSpec,
    MissingChecksum,
>)
    ensures
        r is Ok <==> all_have_checksums(conda_packages@),
        r matches Ok(spec) ==> spec.platform@ == platform@ && spec.urls() == pinned_urls(
            conda_packages@,
        ),
        r matches Ok(spec) ==> forall|i: int|
            0 <= i < spec.urls().len() ==> is_md5_pinned(#[trigger] spec.urls()[i]),
        r matches Err(e) ==> exists|i: int|
            first_without_checksum(conda_packages@, i) && e.name@ == conda_packages@[i].name@,
{
    let mut packages: Vec<ExplicitEnvironmentEntry> = Vec::new();
    let mut i: usize = 0;
    while i < conda_packages.len()
        invariant
            i <= conda_packages@.len(),
            all_have_checksums(conda_packages@.subrange(0, i as int)),
            packages@.map_values(|e: ExplicitEnvironmentEntry| e.url@) == pinned_urls(
                conda_packages@.subrange(0, i as int),
            ),
            forall|x: int| 0 <= x < packages@.len() ==> is_md5_pinned(#[trigger] packages@[x].url@),
        decreases conda_packages@.len() - i,
    {
        let cp = &conda_packages[i];
        let hash = match &cp.md5 {
            Some(h) => h,
            None => {
                assert(first_without_checksum(conda_packages@, i as int)) by {
                    assert forall|j: int| 0 <= j < i implies (#[trigger] conda_packages@[j]).md5 is Some by {
                        assert(conda_packages@.subrange(0, i as int)[j] == conda_packages@[j]);
                    }
                }
                return Err(MissingChecksum { name: cp.name.clone() });
            },
        };
        let url = pin_url(cp.url.as_str(), hash);
        let ghost before = packages@;
        packages.push(ExplicitEnvironmentEntry { url });
        i = i + 1;
        assert(conda_packages@.subrange(0, i as int).drop_last() =~= conda_packages@.subrange(
            0,
            i - 1,
        ));
        assert(packages@.map_values(|e: ExplicitEnvironmentEntry| e.url@) =~= before.map_values(
            |e: ExplicitEnvironmentEntry| e.url@,
        ).push(pinned_url(cp.url@, hash@)));
        assert(all_have_checksums(conda_packages@.subrange(0, i as int))) by {
            assert forall|j: int| 0 <= j < i implies (#[trigger] conda_packages@.subrange(
                0,
                i as int,
            )[j]).md5 is Some by {
                if j < i - 1 {
                    assert(conda_packages@.subrange(0, i as int)[j] == conda_packages@.subrange(
                        0,
                        i - 1,
                    )[j]);
                }
            }
        }
    }
    assert(conda_packages@.subrange(0, i as int) =~= conda_packages@);
    Ok(ExplicitEnvironmentSpec { platform: platform.to_owned(), packages })
}

/// The file's text: the generator comment followed by the spec, or
/// nothing when the spec has no packages.
pub fn render_explicit_spec(exp_env_spec: &ExplicitEnvironmentSpec) -> (r: Option<String>)
    ensures
        r is None <==> exp_env_spec.packages@.len() == 0,
        r matches Some(text) ==> text@ == generator_header() + spec_text(
            exp_env_spec.platform@,
            exp_env_spec.urls(),
        ),
{
    if exp_env_spec.packages.len() == 0 {
        return None;
    }
    let mut environment = String::new();
    environment.push_str("# Generated by `pixi project export`\n");
    let body = exp_env_spec.to_spec_string();
    environment.push_str(body.as_str());
    Some(environment)
}

/// The name of the file for one environment and platform.
pub fn spec_file_name(env_name: &str, platform: &str) -> (r: String)
    ensures
        r@ == env_name@ + "_"@ + platform@ + "_conda_spec.txt"@,
{
    let mut s = env_name.to_owned();
    s.push_str("_");
    s.push_str(platform);
    s.push_str("_conda_spec.txt");
    s
}

} // verus!
