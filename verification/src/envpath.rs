//! Package-manager discovery and build-environment path composition.
//!
//! The build environment hands child processes a search path assembled from
//! the package-manager prefix, the toolchain directories, the inherited
//! path and the system directories, deduplicated while preserving
//! first-occurrence order.

use vstd::prelude::*;

use crate::shell::join_with;
use crate::shell::spec_join_with;
use crate::shell::str_eq;

verus! {

/// Relies on `std::path::Path::is_file`: whether `p` names an existing
/// regular file.  The answer depends on the machine's disk, so nothing is
/// promised of it.
#[verifier::external_body]
fn path_is_file(p: &str) -> bool {
    std::path::Path::new(p).is_file()
}

/// The path of the package-manager binary, probing the Apple Silicon
/// location first.  Whatever the disk holds, the answer is one of the two
/// fixed candidate paths, or nothing.
pub fn find_brew() -> (r: Option<String>)
    ensures
        r matches Some(p) ==> p@ == "/opt/homebrew/bin/brew"@ || p@ == "/usr/local/bin/brew"@,
{
    if path_is_file("/opt/homebrew/bin/brew") {
        Some(String::from_str("/opt/homebrew/bin/brew"))
    } else if path_is_file("/usr/local/bin/brew") {
        Some(String::from_str("/usr/local/bin/brew"))
    } else {
        None
    }
}

/// `needle` occurs somewhere in `hay`.
pub open spec fn contains_seq(hay: Seq<char>, needle: Seq<char>) -> bool {
    exists|i: int|
        0 <= i <= hay.len() - needle.len() && #[trigger] hay.subrange(i, i + needle.len())
            == needle
}

/// Whether `needle` occurs in `hay`.
pub fn str_contains(hay: &str, needle: &str) -> (r: bool)
    ensures
        r == contains_seq(hay@, needle@),
{
    let n = hay.unicode_len();
    let m = needle.unicode_len();
    if m > n {
        return false;
    }
    let mut i: usize = 0;
    while i <= n - m
        invariant
            n == hay@.len(),
            m == needle@.len(),
            m <= n,
            i <= n - m + 1,
            forall|j: int| 0 <= j < i ==> #[trigger] hay@.subrange(j, j + m as int) != needle@,
        decreases n - m - i + 1,
    {
        let mut k: usize = 0;
        while k < m && hay.get_char(i + k) == needle.get_char(k)
            invariant
                n == hay@.len(),
                m == needle@.len(),
                i + m <= n,
                k <= m,
                forall|l: int| 0 <= l < k ==> hay@[i + l] == needle@[l],
            decreases m - k,
        {
            k = k + 1;
        }
        if k == m {
            proof {
                assert(hay@.subrange(i as int, i + m as int) =~= needle@);
            }
            return true;
        }
        proof {
            assert(hay@.subrange(i as int, i + m as int)[k as int] == hay@[i + k]);
        }
        i = i + 1;
    }
    false
}

/// The package-manager prefix derived from the binary path: the Apple
/// Silicon prefix when the path mentions it, the Intel one otherwise.
pub fn brew_prefix(brew: &str) -> (r: String)
    ensures
        r@ == if contains_seq(brew@, "/opt/homebrew"@) {
            "/opt/homebrew"@
        } else {
            "/usr/local"@
        },
{
    if str_contains(brew, "/opt/homebrew") {
        String::from_str("/opt/homebrew")
    } else {
        String::from_str("/usr/local")
    }
}

/// The prefixes the toolchain-library installation may live under, most
/// specific first.
pub open spec fn spec_llvm_candidates(brew_pfx: Option<Seq<char>>) -> Seq<Seq<char>> {
    match brew_pfx {
        Some(p) => seq![p + "/opt/llvm"@, "/opt/homebrew/opt/llvm"@, "/usr/local/opt/llvm"@],
        None => seq!["/opt/homebrew/opt/llvm"@, "/usr/local/opt/llvm"@],
    }
}

/// The candidate toolchain-library prefixes, most specific first.
pub fn build_llvm_candidates(brew_pfx: Option<&str>) -> (r: Vec<String>)
    ensures
        r.deep_view() == spec_llvm_candidates(
            match brew_pfx {
                Some(p) => Some(p@),
                None => None,
            },
        ),
{
    let mut v: Vec<String> = Vec::new();
    match brew_pfx {
        Some(p) => {
            let joined = String::from_str(p).concat("/opt/llvm");
            v.push(joined);
            v.push(String::from_str("/opt/homebrew/opt/llvm"));
            v.push(String::from_str("/usr/local/opt/llvm"));
            proof {
                assert(v.deep_view() =~= spec_llvm_candidates(Some(p@)));
            }
        },
        None => {
            v.push(String::from_str("/opt/homebrew/opt/llvm"));
            v.push(String::from_str("/usr/local/opt/llvm"));
            proof {
                assert(v.deep_view() =~= spec_llvm_candidates(None::<Seq<char>>));
            }
        },
    }
    v
}

/// The library directory under a toolchain prefix, handed to the build as
/// the library search hint.
pub fn llvm_lib_path(prefix: &str) -> (r: String)
    ensures
        r@ == prefix@ + "/lib"@,
{
    String::from_str(prefix).concat("/lib")
}

/// The `bin` directory under a prefix.
pub fn bin_dir(prefix: &str) -> (r: String)
    ensures
        r@ == prefix@ + "/bin"@,
{
    String::from_str(prefix).concat("/bin")
}

/// The toolchain binary directory under a home directory.
pub fn cargo_bin_dir(home: &str) -> (r: String)
    ensures
        r@ == home@ + "/.cargo/bin"@,
{
    String::from_str(home).concat("/.cargo/bin")
}

/// `parts` with empty entries dropped and duplicates removed, keeping the
/// first occurrence of each entry in order.
pub open spec fn spec_dedup(parts: Seq<Seq<char>>) -> Seq<Seq<char>>
    decreases parts.len(),
{
    if parts.len() == 0 {
        Seq::empty()
    } else {
        spec_dedup(parts.drop_last()) + if parts.last().len() > 0 && !parts.drop_last().contains(
            parts.last(),
        ) {
            seq![parts.last()]
        } else {
            Seq::empty()
        }
    }
}

/// Drop empty entries and duplicates from `parts`, preserving
/// first-occurrence order.
pub fn dedup_parts(parts: &Vec<String>) -> (r: Vec<String>)
    ensures
        r.deep_view() == spec_dedup(parts.deep_view()),
{
    let ghost all = parts.deep_view();
    let mut out: Vec<String> = Vec::new();
    let n = parts.len();
    let mut i: usize = 0;
    while i < n
        invariant
            n == parts@.len(),
            i <= n,
            all == parts.deep_view(),
            out.deep_view() == spec_dedup(all.take(i as int)),
        decreases n - i,
    {
        proof {
            assert(all.take(i + 1).drop_last() =~= all.take(i as int));
            assert(all.take(i + 1).last() == all[i as int]);
        }
        let p = &parts[i];
        let mut keep = !p.as_str().is_empty();
        let mut j: usize = 0;
        while j < i && keep
            invariant
                i < n,
                n == parts@.len(),
                all == parts.deep_view(),
                j <= i,
                keep ==> all[i as int].len() > 0 && (forall|l: int|
                    0 <= l < j ==> all[l] != all[i as int]),
                !keep ==> all[i as int].len() == 0 || (exists|l: int|
                    0 <= l < j && all[l] == all[i as int]),
                p@ == all[i as int],
            decreases i - j,
        {
            if str_eq(parts[j].as_str(), p.as_str()) {
                keep = false;
                proof {
                    assert(all[j as int] == all[i as int]);
                }
            } else {
                proof {
                    assert(all[j as int] != all[i as int]);
                }
            }
            j = j + 1;
        }
        if keep {
            proof {
                if all.take(i as int).contains(all[i as int]) {
                    let w = choose|l: int|
                        0 <= l < i && all.take(i as int)[l] == all[i as int];
                    assert(all[w] == all[i as int]);
                }
            }
            let ghost pre = out.deep_view();
            let cloned = p.clone();
            out.push(cloned);
            proof {
                assert(out.deep_view() =~= pre.push(all[i as int]));
                assert(out.deep_view() =~= spec_dedup(all.take(i + 1)));
            }
        } else {
            proof {
                if all[i as int].len() > 0 {
                    let w = choose|l: int| 0 <= l < i && all[l] == all[i as int];
                    assert(all.take(i as int)[w] == all[i as int]);
                    assert(all.take(i as int).contains(all[i as int]));
                }
                assert(spec_dedup(all.take(i + 1)) =~= spec_dedup(all.take(i as int)));
            }
        }
        i = i + 1;
    }
    proof {
        assert(all.take(n as int) =~= all);
    }
    out
}

/// The fields of `s` between `:` separators, in order; `n` separators give
/// `n + 1` fields, empty fields included.
pub open spec fn spec_split_colon(s: Seq<char>) -> Seq<Seq<char>>
    decreases s.len(),
{
    if s.len() == 0 {
        seq![Seq::<char>::empty()]
    } else if s[0] == ':' {
        seq![Seq::<char>::empty()] + spec_split_colon(s.drop_first())
    } else {
        let rest = spec_split_colon(s.drop_first());
        seq![seq![s[0]] + rest[0]] + rest.drop_first()
    }
}

/// Splitting always yields at least one field.
proof fn lemma_split_colon_len(s: Seq<char>)
    ensures
        spec_split_colon(s).len() >= 1,
    decreases s.len(),
{
    if s.len() > 0 {
        lemma_split_colon_len(s.drop_first());
    }
}

/// A scan to the first `:` (at `p`, or the end) splits off the first field.
proof fn lemma_split_at_first_colon(s: Seq<char>, p: int)
    requires
        0 <= p <= s.len(),
        forall|j: int| 0 <= j < p ==> #[trigger] s[j] != ':',
        p == s.len() || s[p] == ':',
    ensures
        p == s.len() ==> spec_split_colon(s) == seq![s],
        p < s.len() ==> spec_split_colon(s) == seq![s.take(p)] + spec_split_colon(s.skip(p + 1)),
    decreases p,
{
    if s.len() > 0 {
        lemma_split_colon_len(s.drop_first());
    }
    if p == 0 {
        if s.len() == 0 {
            assert(spec_split_colon(s) =~~= seq![s]);
        } else {
            assert(s[0] == ':');
            assert(s.take(0) =~= Seq::<char>::empty());
            assert(s.skip(1) =~= s.drop_first());
            assert(spec_split_colon(s) =~= seq![s.take(0)] + spec_split_colon(s.skip(1)));
        }
    } else {
        let t = s.drop_first();
        assert(forall|j: int| 0 <= j < p - 1 ==> #[trigger] t[j] == s[j + 1]);
        lemma_split_at_first_colon(t, p - 1);
        let rest = spec_split_colon(t);
        if p == s.len() {
            assert(rest == seq![t]);
            assert(seq![s[0]] + t =~= s);
            assert(spec_split_colon(s) =~= seq![s]);
        } else {
            assert(rest == seq![t.take(p - 1)] + spec_split_colon(t.skip(p)));
            assert(rest[0] == t.take(p - 1));
            assert(seq![s[0]] + t.take(p - 1) =~= s.take(p));
            assert(rest.drop_first() =~= spec_split_colon(t.skip(p)));
            assert(t.skip(p) =~= s.skip(p + 1));
            assert(spec_split_colon(s) =~= seq![s.take(p)] + spec_split_colon(s.skip(p + 1)));
        }
    }
}

/// Split `s` at `:` separators into its fields, in order.
pub fn split_colon(s: &str) -> (r: Vec<String>)
    ensures
        r.deep_view() == spec_split_colon(s@),
{
    let n = s.unicode_len();
    let mut out: Vec<String> = Vec::new();
    let mut start: usize = 0;
    proof {
        assert(out.deep_view() =~= Seq::<Seq<char>>::empty());
        assert(s@.skip(0) =~= s@);
        assert(Seq::<Seq<char>>::empty() + spec_split_colon(s@) =~= spec_split_colon(s@));
    }
    loop
        invariant
            n == s@.len(),
            start <= n,
            spec_split_colon(s@) == out.deep_view() + spec_split_colon(s@.skip(start as int)),
        decreases n - start,
    {
        let mut p: usize = start;
        while p < n && s.get_char(p) != ':'
            invariant
                n == s@.len(),
                start <= p <= n,
                forall|j: int| start <= j < p ==> #[trigger] s@[j] != ':',
            decreases n - p,
        {
            p = p + 1;
        }
        let ghost suffix = s@.skip(start as int);
        proof {
            assert(forall|j: int|
                0 <= j < p - start ==> #[trigger] suffix[j] == s@[j + start as int]);
            lemma_split_at_first_colon(suffix, p - start as int);
        }
        let field = String::from_str(s.substring_char(start, p));
        proof {
            assert(field@ =~= suffix.take(p - start as int));
        }
        let ghost pre = out.deep_view();
        out.push(field);
        proof {
            assert(out.deep_view() =~= pre.push(suffix.take(p - start as int)));
        }
        if p == n {
            proof {
                assert(suffix.take(p - start as int) =~= suffix);
                assert(spec_split_colon(suffix) == seq![suffix]);
                assert(out.deep_view() =~= pre + seq![suffix]);
            }
            return out;
        }
        proof {
            assert(suffix.skip(p - start as int + 1) =~= s@.skip(p + 1));
            assert(out.deep_view() + spec_split_colon(s@.skip(p + 1)) =~= pre + (seq![
                suffix.take(p - start as int),
            ] + spec_split_colon(suffix.skip(p - start as int + 1))));
        }
        start = p + 1;
    }
}

/// One field, or none.
pub open spec fn opt_seq(o: Option<Seq<char>>) -> Seq<Seq<char>> {
    match o {
        Some(s) => seq![s],
        None => Seq::empty(),
    }
}

/// The ordered search-path components of the build environment: the
/// package-manager prefix's binaries first, then the two standard
/// package-manager locations, the toolchain directories that were found,
/// the inherited path, and the system directories last.
pub open spec fn spec_path_parts(
    brew_pfx: Option<Seq<char>>,
    cargo: Option<Seq<char>>,
    llvm: Option<Seq<char>>,
    existing: Seq<Seq<char>>,
) -> Seq<Seq<char>> {
    opt_seq(
        match brew_pfx {
            Some(p) => Some(p + "/bin"@),
            None => None,
        },
    ) + seq!["/opt/homebrew/bin"@, "/usr/local/bin"@] + opt_seq(cargo) + opt_seq(llvm) + existing
        + seq!["/usr/bin"@, "/bin"@, "/usr/sbin"@, "/sbin"@]
}

/// Assemble the ordered search-path components: `cargo` and `llvm` are the
/// probed toolchain directories (when they exist), `existing` the inherited
/// path already split at `:`.
pub fn build_path_parts(
    brew_pfx: Option<&String>,
    cargo: Option<&String>,
    llvm: Option<&String>,
    existing: &Vec<String>,
) -> (r: Vec<String>)
    ensures
        r.deep_view() == spec_path_parts(
            match brew_pfx {
                Some(p) => Some(p@),
                None => None,
            },
            match cargo {
                Some(p) => Some(p@),
                None => None,
            },
            match llvm {
                Some(p) => Some(p@),
                None => None,
            },
            existing.deep_view(),
        ),
{
    let mut v: Vec<String> = Vec::new();
    match brew_pfx {
        Some(p) => {
            v.push(bin_dir(p.as_str()));
        },
        None => {},
    }
    v.push(String::from_str("/opt/homebrew/bin"));
    v.push(String::from_str("/usr/local/bin"));
    match cargo {
        Some(p) => {
            v.push(p.clone());
        },
        None => {},
    }
    match llvm {
        Some(p) => {
            v.push(p.clone());
        },
        None => {},
    }
    let ghost mid = v.deep_view();
    proof {
        assert(mid =~= opt_seq(
            match brew_pfx {
                Some(p) => Some(p@ + "/bin"@),
                None => None,
            },
        ) + seq!["/opt/homebrew/bin"@, "/usr/local/bin"@] + opt_seq(
            match cargo {
                Some(p) => Some(p@),
                None => None,
            },
        ) + opt_seq(
            match llvm {
                Some(p) => Some(p@),
                None => None,
            },
        ));
    }
    let n = existing.len();
    let mut i: usize = 0;
    while i < n
        invariant
            n == existing@.len(),
            i <= n,
            v.deep_view() == mid + existing.deep_view().take(i as int),
        decreases n - i,
    {
        let ghost pre = v.deep_view();
        let cloned = existing[i].clone();
        v.push(cloned);
        proof {
            assert(v.deep_view() =~= pre.push(existing.deep_view()[i as int]));
            assert(v.deep_view() =~= mid + existing.deep_view().take(i + 1));
        }
        i = i + 1;
    }
    proof {
        assert(existing.deep_view().take(n as int) =~= existing.deep_view());
    }
    v.push(String::from_str("/usr/bin"));
    v.push(String::from_str("/bin"));
    v.push(String::from_str("/usr/sbin"));
    v.push(String::from_str("/sbin"));
    proof {
        assert(v.deep_view() =~= spec_path_parts(
            match brew_pfx {
                Some(p) => Some(p@),
                None => None,
            },
            match cargo {
                Some(p) => Some(p@),
                None => None,
            },
            match llvm {
                Some(p) => Some(p@),
                None => None,
            },
            existing.deep_view(),
        ));
    }
    v
}

/// Compose a search path: deduplicate the ordered parts and join them with
/// `:`.
pub fn compose_path(parts: &Vec<String>) -> (r: String)
    ensures
        r@ == spec_join_with(spec_dedup(parts.deep_view()), ":"@),
{
    let d = dedup_parts(parts);
    join_with(&d, ":")
}

} // verus!
