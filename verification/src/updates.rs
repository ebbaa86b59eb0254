//! Deciding whether a published release is newer than the running build,
//! and which of its files to offer for this platform.

use vstd::prelude::*;
use vstd::string::{StrSliceExecFns, StringExecFns};

use crate::media::args::texts;
use crate::text::{chars_of, u64_parse, parse_u64_in};
use crate::timeline::model::opt_text;

verus! {

/// A downloadable file of a release.
#[derive(Debug)]
pub struct ReleaseAsset {
    pub name: String,
    pub browser_download_url: String,
}

impl View for ReleaseAsset {
    type V = (Seq<char>, Seq<char>);

    open spec fn view(&self) -> (Seq<char>, Seq<char>) {
        (self.name@, self.browser_download_url@)
    }
}

impl Clone for ReleaseAsset {
    fn clone(&self) -> (r: Self)
        ensures
            r@ == self@,
    {
        ReleaseAsset { name: self.name.clone(), browser_download_url: self.browser_download_url.clone() }
    }
}

/// The outcome of an update check.
#[derive(Debug)]
pub struct UpdateCheckResult {
    pub current_version: String,
    pub latest_version: String,
    pub update_available: bool,
    pub release_url: String,
    pub release_notes: Option<String>,
    pub published_at: Option<String>,
    pub download_url: Option<String>,
    pub asset_name: Option<String>,
}

/// The characters that separate the numbers of a version.
pub open spec fn is_version_sep(c: char) -> bool {
    c == '.' || c == '-' || c == '+'
}

/// The pieces of a version text between separators (empty pieces
/// included), as `str::split` yields them.
pub open spec fn version_pieces(s: Seq<char>) -> Seq<Seq<char>>
    decreases s.len(),
{
    if s.len() == 0 {
        seq![Seq::empty()]
    } else {
        let p = version_pieces(s.drop_last());
        if is_version_sep(s.last()) {
            p.push(Seq::empty())
        } else {
            p.update(p.len() - 1, p.last().push(s.last()))
        }
    }
}

/// The number of a version piece; zero when it is not a number.
pub open spec fn piece_value(piece: Seq<char>) -> u64 {
    match u64_parse(piece) {
        Some(v) => v,
        None => 0,
    }
}

/// The numbers of a version text.
pub open spec fn version_numbers(s: Seq<char>) -> Seq<u64> {
    version_pieces(s).map_values(|p: Seq<char>| piece_value(p))
}

/// The `i`-th number of a version, zero past its end.
pub open spec fn number_at(v: Seq<u64>, i: int) -> u64 {
    if 0 <= i < v.len() {
        v[i]
    } else {
        0
    }
}

/// `a` is a later version than `b`: at the first position where they
/// differ (missing numbers counting as zero), `a`'s number is larger.
pub open spec fn later(a: Seq<u64>, b: Seq<u64>) -> bool {
    exists|i: int|
        #![trigger number_at(a, i), number_at(b, i)]
        0 <= i && number_at(a, i) > number_at(b, i) && forall|j: int|
            0 <= j < i ==> number_at(a, j) == number_at(b, j)
}

/// The version pieces never run out.
proof fn lemma_version_pieces_nonempty(s: Seq<char>)
    ensures
        version_pieces(s).len() >= 1,
    decreases s.len(),
{
    if s.len() > 0 {
        lemma_version_pieces_nonempty(s.drop_last());
    }
}

/// The numbers of a version text.
fn version_number_list(text: &str) -> (v: Vec<u64>)
    ensures
        v@ == version_numbers(text@),
{
    let s = chars_of(text);
    let mut values: Vec<u64> = Vec::new();
    let mut start: usize = 0;
    let mut i: usize = 0;
    proof {
        assert(s@.take(0) =~= Seq::<char>::empty());
    }
    while i < s.len()
        invariant
            start <= i <= s.len(),
            s@ == text@,
            version_pieces(s@.take(i as int)).len() >= 1,
            values@ == version_pieces(s@.take(i as int)).drop_last().map_values(
                |p: Seq<char>| piece_value(p),
            ),
            version_pieces(s@.take(i as int)).last() == s@.subrange(start as int, i as int),
        decreases s.len() - i,
    {
        let c = s[i];
        let ghost p = version_pieces(s@.take(i as int));
        proof {
            assert(s@.take(i + 1).drop_last() =~= s@.take(i as int));
            assert(s@.take(i + 1).last() == c);
            lemma_version_pieces_nonempty(s@.take(i + 1));
        }
        if c == '.' || c == '-' || c == '+' {
            let v = match parse_u64_in(&s, start, i) {
                Some(v) => v,
                None => 0,
            };
            values.push(v);
            proof {
                let q = version_pieces(s@.take(i + 1));
                assert(q == p.push(Seq::empty()));
                assert(q.drop_last() =~= p);
                assert(values@ =~= q.drop_last().map_values(|p: Seq<char>| piece_value(p)));
                assert(q.last() =~= s@.subrange(i + 1, i + 1));
            }
            start = i + 1;
        } else {
            proof {
                let q = version_pieces(s@.take(i + 1));
                assert(q == p.update(p.len() - 1, p.last().push(c)));
                assert(q.drop_last() =~= p.drop_last());
                assert(q.last() =~= s@.subrange(start as int, i + 1));
            }
        }
        i = i + 1;
    }
    let v = match parse_u64_in(&s, start, s.len()) {
        Some(v) => v,
        None => 0,
    };
    values.push(v);
    proof {
        assert(s@.take(s.len() as int) =~= s@);
        let q = version_pieces(s@);
        assert(q =~= q.drop_last().push(q.last()));
        assert(values@ =~= version_numbers(text@));
    }
    values
}

/// Whether `latest` is a later version than `current`, comparing the
/// numbers between `.`, `-` and `+` in order (a piece that is not a
/// number counts as zero, and so does a missing one).
pub fn is_newer(latest: &str, current: &str) -> (newer: bool)
    ensures
        newer == later(version_numbers(latest@), version_numbers(current@)),
{
    let l = version_number_list(latest);
    let c = version_number_list(current);
    let n = if l.len() > c.len() {
        l.len()
    } else {
        c.len()
    };
    let mut i: usize = 0;
    while i < n
        invariant
            i <= n,
            n == if l@.len() > c@.len() {
                l@.len()
            } else {
                c@.len()
            },
            forall|j: int| 0 <= j < i ==> number_at(l@, j) == number_at(c@, j),
            l@ == version_numbers(latest@),
            c@ == version_numbers(current@),
        decreases n - i,
    {
        let a = if i < l.len() {
            l[i]
        } else {
            0
        };
        let b = if i < c.len() {
            c[i]
        } else {
            0
        };
        assert(a == number_at(l@, i as int) && b == number_at(c@, i as int));
        if a != b {
            proof {
                if a > b {
                    assert(number_at(l@, i as int) > number_at(c@, i as int));
                    assert(later(l@, c@));
                } else {
                    lemma_earlier_at(l@, c@, i as int);
                }
            }
            return a > b;
        }
        i = i + 1;
    }
    proof {
        assert forall|k: int|
            #![trigger number_at(l@, k), number_at(c@, k)]
            0 <= k && number_at(l@, k) > number_at(c@, k) implies false by {
            if k < n {
            }
        }
    }
    false
}

/// A version that agrees with another up to position `i` and has a
/// smaller number there is not the later one.
proof fn lemma_earlier_at(a: Seq<u64>, b: Seq<u64>, i: int)
    requires
        0 <= i,
        number_at(a, i) < number_at(b, i),
        forall|j: int| 0 <= j < i ==> number_at(a, j) == number_at(b, j),
    ensures
        !later(a, b),
{
    if later(a, b) {
        let k = choose|k: int|
            #![trigger number_at(a, k), number_at(b, k)]
            0 <= k && number_at(a, k) > number_at(b, k) && forall|j: int|
                0 <= j < k ==> number_at(a, j) == number_at(b, j);
        if k < i {
            assert(number_at(a, k) == number_at(b, k));
        } else if k > i {
            assert(number_at(a, i) == number_at(b, i));
        }
    }
}

/// No version is later than itself.
pub proof fn lemma_not_later_than_itself(v: Seq<u64>)
    ensures
        !later(v, v),
{
}

/// Of two versions, at most one is later than the other.
pub proof fn lemma_later_is_asymmetric(a: Seq<u64>, b: Seq<u64>)
    requires
        later(a, b),
    ensures
        !later(b, a),
{
    let i = choose|i: int|
        #![trigger number_at(a, i), number_at(b, i)]
        0 <= i && number_at(a, i) > number_at(b, i) && forall|j: int|
            0 <= j < i ==> number_at(a, j) == number_at(b, j);
    assert forall|k: int|
        #![trigger number_at(b, k), number_at(a, k)]
        0 <= k && number_at(b, k) > number_at(a, k) implies !(forall|j: int|
        0 <= j < k ==> number_at(b, j) == number_at(a, j)) by {
        if k > i {
            if forall|j: int| 0 <= j < k ==> number_at(b, j) == number_at(a, j) {
                assert(number_at(b, i) == number_at(a, i));
            }
        }
    }
}

/// Being a later version is transitive.
pub proof fn lemma_later_is_transitive(a: Seq<u64>, b: Seq<u64>, c: Seq<u64>)
    requires
        later(a, b),
        later(b, c),
    ensures
        later(a, c),
{
    let i = choose|i: int|
        #![trigger number_at(a, i), number_at(b, i)]
        0 <= i && number_at(a, i) > number_at(b, i) && forall|j: int|
            0 <= j < i ==> number_at(a, j) == number_at(b, j);
    let k = choose|k: int|
        #![trigger number_at(b, k), number_at(c, k)]
        0 <= k && number_at(b, k) > number_at(c, k) && forall|j: int|
            0 <= j < k ==> number_at(b, j) == number_at(c, j);
    let m = if i < k {
        i
    } else {
        k
    };
    assert(forall|j: int| 0 <= j < m ==> number_at(a, j) == number_at(c, j));
    if i < k {
        assert(number_at(b, i) == number_at(c, i));
    } else if k < i {
        assert(number_at(a, k) == number_at(b, k));
    }
    assert(number_at(a, m) > number_at(c, m));
}

/// Whether `s` ends with `suffix`.
pub open spec fn ends_with(s: Seq<char>, suffix: Seq<char>) -> bool {
    suffix.len() <= s.len() && s.subrange(s.len() - suffix.len(), s.len() as int) == suffix
}

/// Whether `s` ends with `suffix`.
fn text_ends_with(s: &Vec<char>, suffix: &Vec<char>) -> (b: bool)
    ensures
        b == ends_with(s@, suffix@),
{
    if suffix.len() > s.len() {
        return false;
    }
    let offset = s.len() - suffix.len();
    let mut k: usize = 0;
    while k < suffix.len()
        invariant
            offset + suffix.len() == s.len(),
            k <= suffix.len(),
            forall|j: int| 0 <= j < k ==> s@[offset + j] == suffix@[j],
        decreases suffix.len() - k,
    {
        if s[offset + k] != suffix[k] {
            assert(s@.subrange(offset as int, s.len() as int)[k as int] != suffix@[k as int]);
            return false;
        }
        k = k + 1;
    }
    assert(s@.subrange(offset as int, s.len() as int) =~= suffix@);
    true
}

/// The names of a list of assets.
pub open spec fn asset_names(assets: Seq<ReleaseAsset>) -> Seq<Seq<char>> {
    assets.map_values(|a: ReleaseAsset| a.name@)
}

/// The index of the first name that ends with `suffix`.
pub open spec fn first_ending_with(names: Seq<Seq<char>>, suffix: Seq<char>) -> Option<int>
    decreases names.len(),
{
    if names.len() == 0 {
        None
    } else {
        match first_ending_with(names.drop_last(), suffix) {
            Some(i) => Some(i),
            None => if ends_with(names.last(), suffix) {
                Some(names.len() - 1)
            } else {
                None
            },
        }
    }
}

/// The index of the asset to offer: for the first preferred suffix that
/// some name ends with, the first such name.
pub open spec fn preferred_asset(names: Seq<Seq<char>>, suffixes: Seq<Seq<char>>) -> Option<int>
    decreases suffixes.len(),
{
    if suffixes.len() == 0 {
        None
    } else {
        match preferred_asset(names, suffixes.drop_last()) {
            Some(i) => Some(i),
            None => first_ending_with(names, suffixes.last()),
        }
    }
}

/// A found index is that of a name.
proof fn lemma_first_ending_with_bounds(names: Seq<Seq<char>>, suffix: Seq<char>)
    ensures
        first_ending_with(names, suffix) matches Some(i) ==> 0 <= i < names.len(),
    decreases names.len(),
{
    if names.len() > 0 {
        lemma_first_ending_with_bounds(names.drop_last(), suffix);
    }
}

/// The first asset whose name ends with `suffix`.
fn find_ending_with(assets: &Vec<ReleaseAsset>, suffix: &str) -> (r: Option<usize>)
    ensures
        r matches Some(i) ==> i < assets.len() && first_ending_with(asset_names(assets@), suffix@) == Some(
            i as int,
        ),
        r is None ==> first_ending_with(asset_names(assets@), suffix@) is None,
{
    let suf = chars_of(suffix);
    let ghost names = asset_names(assets@);
    let mut i: usize = 0;
    while i < assets.len()
        invariant
            i <= assets.len(),
            names == asset_names(assets@),
            suf@ == suffix@,
            first_ending_with(names.take(i as int), suffix@) is None,
        decreases assets.len() - i,
    {
        let name = chars_of(assets[i].name.as_str());
        proof {
            assert(names.take(i + 1).drop_last() =~= names.take(i as int));
            assert(names.take(i + 1).last() == assets@[i as int].name@);
        }
        if text_ends_with(&name, &suf) {
            proof {
                assert(first_ending_with(names.take(i + 1), suffix@) == Some(i as int));
                lemma_first_prefix_stable(names, suffix@, i + 1);
            }
            return Some(i);
        }
        i = i + 1;
    }
    assert(names.take(assets.len() as int) =~= names);
    None
}

/// A match found in a prefix is the match of the whole list.
proof fn lemma_first_prefix_stable(names: Seq<Seq<char>>, suffix: Seq<char>, n: int)
    requires
        0 <= n <= names.len(),
        first_ending_with(names.take(n), suffix) is Some,
    ensures
        first_ending_with(names, suffix) == first_ending_with(names.take(n), suffix),
    decreases names.len() - n,
{
    if n < names.len() {
        assert(names.take(n + 1).drop_last() =~= names.take(n));
        lemma_first_prefix_stable(names, suffix, n + 1);
    } else {
        assert(names.take(n) =~= names);
    }
}

/// The asset to offer for this platform: for the first of the preferred
/// suffixes (in order) that some asset's name ends with, the first such
/// asset.
pub fn pick_asset_for_platform(assets: &Vec<ReleaseAsset>, preferred_suffixes: &Vec<String>) -> (r: Option<
    ReleaseAsset,
>)
    ensures
        match preferred_asset(asset_names(assets@), texts(preferred_suffixes@)) {
            Some(i) => r matches Some(a) && 0 <= i < assets.len() && a@ == assets@[i]@,
            None => r is None,
        },
{
    let ghost names = asset_names(assets@);
    let ghost sufs = texts(preferred_suffixes@);
    let mut k: usize = 0;
    while k < preferred_suffixes.len()
        invariant
            k <= preferred_suffixes.len(),
            names == asset_names(assets@),
            sufs == texts(preferred_suffixes@),
            preferred_asset(names, sufs.take(k as int)) is None,
        decreases preferred_suffixes.len() - k,
    {
        proof {
            assert(sufs.take(k + 1).drop_last() =~= sufs.take(k as int));
            assert(sufs.take(k + 1).last() == preferred_suffixes@[k as int]@);
        }
        match find_ending_with(assets, preferred_suffixes[k].as_str()) {
            Some(i) => {
                proof {
                    assert(preferred_asset(names, sufs.take(k + 1)) == Some(i as int));
                    lemma_preferred_prefix_stable(names, sufs, k + 1);
                }
                return Some(assets[i].clone());
            },
            None => {},
        }
        k = k + 1;
    }
    assert(sufs.take(preferred_suffixes.len() as int) =~= sufs);
    None
}

/// A choice made by a prefix of the suffixes is the choice of all of them.
proof fn lemma_preferred_prefix_stable(names: Seq<Seq<char>>, sufs: Seq<Seq<char>>, n: int)
    requires
        0 <= n <= sufs.len(),
        preferred_asset(names, sufs.take(n)) is Some,
    ensures
        preferred_asset(names, sufs) == preferred_asset(names, sufs.take(n)),
    decreases sufs.len() - n,
{
    if n < sufs.len() {
        assert(sufs.take(n + 1).drop_last() =~= sufs.take(n));
        lemma_preferred_prefix_stable(names, sufs, n + 1);
    } else {
        assert(sufs.take(n) =~= sufs);
    }
}

/// A version text without its leading `v`s.
pub open spec fn without_leading_v(s: Seq<char>) -> Seq<char>
    decreases s.len(),
{
    if s.len() > 0 && s[0] == 'v' {
        without_leading_v(s.drop_first())
    } else {
        s
    }
}

/// A version text without its leading `v`s.
pub fn strip_leading_v(text: &str) -> (r: String)
    ensures
        r@ == without_leading_v(text@),
{
    let s = chars_of(text);
    let mut k: usize = 0;
    assert(s@.subrange(0, s.len() as int) =~= s@);
    while k < s.len() && s[k] == 'v'
        invariant
            k <= s.len(),
            s@ == text@,
            without_leading_v(s@) == without_leading_v(s@.subrange(k as int, s.len() as int)),
        decreases s.len() - k,
    {
        assert(s@.subrange(k + 1, s.len() as int) =~= s@.subrange(k as int, s.len() as int).drop_first());
        k = k + 1;
    }
    let rest = text.substring_char(k, s.len());
    String::from_str(rest)
}

/// The outcome of an update check, from the running version, the latest
/// release's tag, page, notes, date and files, and the file suffixes that
/// this platform prefers: the latest version is the tag without its
/// leading `v`s; an update is available when it is later than the running
/// version (also without its leading `v`s); the offered file is the one
/// that [`pick_asset_for_platform`] picks.
pub fn update_check_result(
    current_version: &str,
    tag_name: &str,
    html_url: String,
    body: Option<String>,
    published_at: Option<String>,
    assets: &Vec<ReleaseAsset>,
    preferred_suffixes: &Vec<String>,
) -> (r: UpdateCheckResult)
    ensures
        r.current_version@ == current_version@,
        r.latest_version@ == without_leading_v(tag_name@),
        r.update_available == later(
            version_numbers(without_leading_v(tag_name@)),
            version_numbers(without_leading_v(current_version@)),
        ),
        r.release_url@ == html_url@,
        opt_text(r.release_notes) == opt_text(body),
        opt_text(r.published_at) == opt_text(published_at),
        match preferred_asset(asset_names(assets@), texts(preferred_suffixes@)) {
            Some(i) => 0 <= i < assets.len() && opt_text(r.download_url) == Some(
                assets@[i].browser_download_url@,
            ) && opt_text(r.asset_name) == Some(assets@[i].name@),
            None => r.download_url is None && r.asset_name is None,
        },
{
    let latest_version = strip_leading_v(tag_name);
    let current = strip_leading_v(current_version);
    let update_available = is_newer(latest_version.as_str(), current.as_str());
    let asset = pick_asset_for_platform(assets, preferred_suffixes);
    let (download_url, asset_name) = match asset {
        Some(a) => (Some(a.browser_download_url), Some(a.name)),
        None => (None, None),
    };
    UpdateCheckResult {
        current_version: String::from_str(current_version),
        latest_version,
        update_available,
        release_url: html_url,
        release_notes: body,
        published_at,
        download_url,
        asset_name,
    }
}

} // verus!
