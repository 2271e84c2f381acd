//! Discovery of the runtime's executable as an ordered list of strategies,
//! each a pure function; the host only tells which candidate paths exist.
use vstd::prelude::*;
use vstd::string::StrSliceExecFns;
use crate::text::{prefix_before, trimmed, before_char, trim_text};

verus! {

/// Standard install locations on Unix-like hosts, in the order tried.
pub fn unix_install_candidates() -> (r: Vec<String>)
    ensures
        r@.len() == 3,
        r@[0]@ == "/usr/local/bin/ollama"@,
        r@[1]@ == "/usr/bin/ollama"@,
        r@[2]@ == "/opt/ollama/ollama"@,
{
    let mut r: Vec<String> = Vec::new();
    r.push("/usr/local/bin/ollama".to_owned());
    r.push("/usr/bin/ollama".to_owned());
    r.push("/opt/ollama/ollama".to_owned());
    r
}

/// The candidate named by a search-path lookup (`which`, or `where`, whose
/// first line counts): the output without surrounding white space, if any
/// is left.
pub open spec fn search_candidate(stdout: Seq<char>, first_line_only: bool) -> Option<Seq<char>> {
    let t = if first_line_only {
        trimmed(prefix_before(stdout, '\n'))
    } else {
        trimmed(stdout)
    };
    if t.len() == 0 {
        None
    } else {
        Some(t)
    }
}

/// The path a search-path lookup printed, if it printed one.
pub fn search_output_path(stdout: &str, first_line_only: bool) -> (r: Option<String>)
    ensures
        match r {
            Some(p) => search_candidate(stdout@, first_line_only) == Some(p@),
            None => search_candidate(stdout@, first_line_only) is None,
        },
{
    let line = if first_line_only {
        before_char(stdout, '\n')
    } else {
        stdout
    };
    let t = trim_text(line);
    if t.unicode_len() == 0 {
        None
    } else {
        Some(t.to_owned())
    }
}

/// The first index whose candidate exists.
pub open spec fn first_existing(exists: Seq<bool>) -> Option<int> {
    if exists|i: int| 0 <= i < exists.len() && exists[i] {
        Some(choose|i: int| 0 <= i < exists.len() && exists[i] && forall|j: int| 0 <= j < i ==> !exists[j])
    } else {
        None
    }
}

/// The strategies' candidates are tried in order and the first that exists
/// wins; `exists[i]` tells whether `candidates[i]` is present on disk.
pub fn find_ollama_binary(candidates: &Vec<String>, exists: &Vec<bool>) -> (r: Option<String>)
    requires
        candidates@.len() == exists@.len(),
    ensures
        match first_existing(exists@) {
            Some(i) => r is Some && r->0@ == candidates@[i]@,
            None => r is None,
        },
{
    let n = exists.len();
    let mut i: usize = 0;
    while i < n
        invariant
            n == exists@.len(),
            n == candidates@.len(),
            i <= n,
            forall|j: int| 0 <= j < i ==> !exists@[j],
        decreases n - i,
    {
        if exists[i] {
            let ghost k = choose|k: int| 0 <= k < exists@.len() && exists@[k] && forall|j: int| 0 <= j < k ==> !exists@[j];
            proof {
                assert(0 <= i < exists@.len() && exists@[i as int] && forall|j: int| 0 <= j < i ==> !exists@[j]);
                if k > i {
                    assert(!exists@[i as int]);
                }
            }
            return Some(candidates[i].clone());
        }
        i += 1;
    }
    None
}

} // verus!
