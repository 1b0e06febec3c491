//! Selecting the version list offered to the observer: of the fetched
//! releases, the stable ones, newest first, at most ten.
//!
//! A release is stable when its own pre-release flag is off and its tag
//! carries no release-candidate marker.  The tags are ordered by the semver
//! triple they denote, newest first, whatever order they were fetched in.

use vstd::prelude::*;

use crate::version::parse_semver;
use crate::version::spec_parse_semver;

verus! {

/// A release-candidate marker: `rc` in either case at position `i`.
pub open spec fn rc_at(s: Seq<char>, i: int) -> bool {
    (s[i] == 'r' || s[i] == 'R') && (s[i + 1] == 'c' || s[i + 1] == 'C')
}

/// The tag carries a release-candidate marker somewhere.
pub open spec fn has_rc_marker(s: Seq<char>) -> bool {
    exists|i: int| 0 <= i && i + 1 < s.len() && #[trigger] rc_at(s, i)
}

/// Whether the tag carries a release-candidate marker.
pub fn contains_rc(s: &str) -> (r: bool)
    ensures
        r == has_rc_marker(s@),
{
    let n = s.unicode_len();
    if n < 2 {
        return false;
    }
    let mut i: usize = 0;
    while i + 1 < n
        invariant
            n == s@.len(),
            i + 1 <= n,
            forall|j: int| 0 <= j && j + 1 < i + 1 ==> !#[trigger] rc_at(s@, j),
        decreases n - i,
    {
        let c = s.get_char(i);
        let d = s.get_char(i + 1);
        if (c == 'r' || c == 'R') && (d == 'c' || d == 'C') {
            proof {
                assert(rc_at(s@, i as int));
            }
            return true;
        }
        proof {
            assert(!rc_at(s@, i as int));
        }
        i = i + 1;
    }
    false
}

/// One fetched release: its tag and its pre-release flag as the release
/// index reports it.
pub struct ReleaseInfo {
    pub tag: String,
    pub prerelease: bool,
}

impl View for ReleaseInfo {
    type V = (Seq<char>, bool);

    open spec fn view(&self) -> (Seq<char>, bool) {
        (self.tag@, self.prerelease)
    }
}

/// A release is kept when its flag says stable and its tag has no
/// release-candidate marker.
pub open spec fn spec_is_stable(r: (Seq<char>, bool)) -> bool {
    !r.1 && !has_rc_marker(r.0)
}

/// The tags of the stable releases, in fetched order.
pub open spec fn spec_stable_tags(rs: Seq<(Seq<char>, bool)>) -> Seq<Seq<char>>
    decreases rs.len(),
{
    if rs.len() == 0 {
        Seq::empty()
    } else {
        spec_stable_tags(rs.drop_last()) + if spec_is_stable(rs.last()) {
            seq![rs.last().0]
        } else {
            Seq::empty()
        }
    }
}

/// Keep the tags of the stable releases, in fetched order.
pub fn stable_tags(releases: &Vec<ReleaseInfo>) -> (r: Vec<String>)
    ensures
        r.deep_view() == spec_stable_tags(releases@.map_values(|x: ReleaseInfo| x@)),
{
    let ghost all = releases@.map_values(|x: ReleaseInfo| x@);
    let mut out: Vec<String> = Vec::new();
    let n = releases.len();
    let mut i: usize = 0;
    while i < n
        invariant
            n == releases@.len(),
            i <= n,
            all == releases@.map_values(|x: ReleaseInfo| x@),
            out.deep_view() == spec_stable_tags(all.take(i as int)),
        decreases n - i,
    {
        proof {
            assert(all.take(i + 1).drop_last() =~= all.take(i as int));
            assert(all.take(i + 1).last() == all[i as int]);
        }
        let keep = !releases[i].prerelease && !contains_rc(releases[i].tag.as_str());
        if keep {
            let ghost pre = out.deep_view();
            let cloned = releases[i].tag.clone();
            out.push(cloned);
            proof {
                assert(out.deep_view() =~= pre.push(all[i as int].0));
                assert(out.deep_view() =~= spec_stable_tags(all.take(i + 1)));
            }
        } else {
            proof {
                assert(spec_stable_tags(all.take(i + 1)) =~= spec_stable_tags(all.take(i as int)));
            }
        }
        i = i + 1;
    }
    proof {
        assert(all.take(n as int) =~= all);
    }
    out
}

/// Tag `a` is at least as new as tag `b`: its semver triple is not smaller.
pub open spec fn semver_ge(a: Seq<char>, b: Seq<char>) -> bool {
    let ka = spec_parse_semver(a);
    let kb = spec_parse_semver(b);
    ka.0 > kb.0 || (ka.0 == kb.0 && (ka.1 > kb.1 || (ka.1 == kb.1 && ka.2 >= kb.2)))
}

/// Newest first: every tag is at least as new as those after it.
pub open spec fn sorted_desc(s: Seq<Seq<char>>) -> bool {
    forall|i: int, j: int| 0 <= i < j < s.len() ==> semver_ge(#[trigger] s[i], #[trigger] s[j])
}

/// The ordering is total.
proof fn lemma_semver_ge_total(a: Seq<char>, b: Seq<char>)
    ensures
        semver_ge(a, b) || semver_ge(b, a),
{
}

/// The ordering is transitive.
proof fn lemma_semver_ge_trans(a: Seq<char>, b: Seq<char>, c: Seq<char>)
    requires
        semver_ge(a, b),
        semver_ge(b, c),
    ensures
        semver_ge(a, c),
{
}

/// Whether tag `a` is at least as new as tag `b`.
fn semver_ge_exec(a: &str, b: &str) -> (r: bool)
    ensures
        r == semver_ge(a@, b@),
{
    let ka = parse_semver(a);
    let kb = parse_semver(b);
    ka.0 > kb.0 || (ka.0 == kb.0 && (ka.1 > kb.1 || (ka.1 == kb.1 && ka.2 >= kb.2)))
}

/// Order tags newest first by the semver triples they denote.  The result
/// holds exactly the given tags.
pub fn sort_versions_desc(tags: &Vec<String>) -> (r: Vec<String>)
    ensures
        sorted_desc(r.deep_view()),
        r.deep_view().to_multiset() == tags.deep_view().to_multiset(),
{
    broadcast use vstd::seq_lib::group_to_multiset_ensures;

    let ghost all = tags.deep_view();
    let mut out: Vec<String> = Vec::new();
    let n = tags.len();
    let mut i: usize = 0;
    while i < n
        invariant
            n == tags@.len(),
            i <= n,
            all == tags.deep_view(),
            sorted_desc(out.deep_view()),
            out.deep_view().to_multiset() == all.take(i as int).to_multiset(),
            out@.len() == i,
        decreases n - i,
    {
        let x = tags[i].clone();
        let ghost xv = all[i as int];
        proof {
            assert(x@ == xv);
        }
        // Find the first position whose tag is older than `x`.
        let mut p: usize = 0;
        let olen = out.len();
        while p < olen && semver_ge_exec(out[p].as_str(), x.as_str())
            invariant
                olen == out@.len(),
                p <= olen,
                x@ == xv,
                forall|a: int| 0 <= a < p ==> semver_ge(#[trigger] out.deep_view()[a], xv),
            decreases olen - p,
        {
            p = p + 1;
        }
        let ghost pre = out.deep_view();
        proof {
            if p < olen {
                lemma_semver_ge_total(pre[p as int], xv);
            }
            assert(forall|b: int| p <= b < pre.len() ==> semver_ge(xv, #[trigger] pre[b])) by {
                assert forall|b: int| p <= b < pre.len() implies semver_ge(xv, pre[b]) by {
                    if p < olen {
                        if b > p {
                            lemma_semver_ge_trans(xv, pre[p as int], pre[b]);
                        }
                    }
                }
            }
        }
        out.insert(p, x);
        proof {
            assert(out.deep_view() =~= pre.insert(p as int, xv));
            assert(out.deep_view().to_multiset() =~= pre.to_multiset().insert(xv)) by {
                vstd::seq_lib::to_multiset_insert(pre, p as int, xv);
            }
            assert(all.take(i + 1).drop_last() =~= all.take(i as int));
            assert(all.take(i + 1).to_multiset() =~= all.take(i as int).to_multiset().insert(xv))
                by {
                assert(all.take(i + 1) =~= all.take(i as int).push(xv));
                vstd::seq_lib::to_multiset_build(all.take(i as int), xv);
            }
            assert(sorted_desc(out.deep_view())) by {
                let dv = out.deep_view();
                assert forall|a: int, b: int| 0 <= a < b < dv.len() implies semver_ge(
                    dv[a],
                    dv[b],
                ) by {
                    if b < p {
                    } else if a < p && b == p {
                        assert(dv[b] == xv);
                    } else if a < p && b > p {
                        assert(dv[a] == pre[a] && dv[b] == pre[b - 1]);
                    } else if a == p {
                        assert(dv[a] == xv && dv[b] == pre[b - 1]);
                    } else {
                        assert(dv[a] == pre[a - 1] && dv[b] == pre[b - 1]);
                    }
                }
            }
        }
        i = i + 1;
    }
    proof {
        assert(all.take(n as int) =~= all);
    }
    out
}

/// Of the fetched releases: the stable tags, newest first, at most ten —
/// the result is the longest newest-first prefix of the sorted stable tags
/// that fits.
pub fn select_stable_versions(releases: &Vec<ReleaseInfo>) -> (r: Vec<String>)
    ensures
        sorted_desc(r.deep_view()),
        ({
            let stable = spec_stable_tags(releases@.map_values(|x: ReleaseInfo| x@));
            &&& r.deep_view().len() == if stable.len() <= 10 {
                stable.len()
            } else {
                10
            }
            &&& forall|i: int|
                0 <= i < r.deep_view().len() ==> stable.to_multiset().contains(
                    #[trigger] r.deep_view()[i],
                )
            &&& exists|full: Seq<Seq<char>>|
                sorted_desc(full) && #[trigger] full.to_multiset() == stable.to_multiset()
                    && r.deep_view() == full.take(r.deep_view().len() as int)
        }),
{
    broadcast use vstd::seq_lib::group_to_multiset_ensures;

    let tags = stable_tags(releases);
    let mut sorted = sort_versions_desc(&tags);
    let ghost full = sorted.deep_view();
    proof {
        assert(full.to_multiset().len() == tags.deep_view().to_multiset().len());
        assert(full.len() == tags.deep_view().len());
    }
    sorted.truncate(10);
    proof {
        if full.len() <= 10 {
            assert(sorted.deep_view() =~= full);
            assert(sorted.deep_view() =~= full.take(sorted.deep_view().len() as int));
        } else {
            assert(sorted.deep_view() =~= full.take(10));
        }
        assert(sorted_desc(sorted.deep_view()));
        assert forall|i: int| 0 <= i < sorted.deep_view().len() implies tags.deep_view()
            .to_multiset().contains(#[trigger] sorted.deep_view()[i]) by {
            assert(sorted.deep_view()[i] == full[i]);
            assert(full.contains(full[i]));
        }
    }
    sorted
}

} // verus!
