//! Discovery: mapping a lirc device to its sysfs remote-control node and
//! enumerating the tuner frontends associated with that node.

use vstd::prelude::*;
use vstd::string::StringExecFns;

use crate::errors::RcError;
use crate::frontend::spec_parse_frontend;
use crate::frontend::try_extract_frontends;
use crate::frontend::FrontendId;
use crate::text::after_last;
use crate::text::before_last;
use crate::text::final_component;
use crate::text::parent_component;

verus! {

/// Relies on glob::glob: enumerates the filesystem paths that match
/// `pattern`.  `None` when the pattern does not parse, a directory cannot
/// be read, or a matched path is not valid text.
#[verifier::external_body]
fn glob_paths(pattern: &str) -> (r: Option<Vec<String>>) {
    let entries = match glob::glob(pattern) {
        Ok(entries) => entries,
        Err(_) => return None,
    };
    let mut found: Vec<String> = Vec::new();
    for entry in entries {
        match entry.ok().and_then(|p| p.to_str().map(str::to_owned)) {
            Some(text) => found.push(text),
            None => return None,
        }
    }
    Some(found)
}

/// How many candidate paths have `target` as their final component.
pub open spec fn match_count(cands: Seq<String>, target: Seq<char>) -> nat
    decreases cands.len(),
{
    if cands.len() == 0 {
        0
    } else {
        match_count(cands.drop_last(), target) + if after_last(cands.last()@, '/')
            == target {
            1nat
        } else {
            0nat
        }
    }
}

/// A matching candidate makes the count positive.
proof fn lemma_match_at(cands: Seq<String>, target: Seq<char>, i: int)
    requires
        0 <= i < cands.len(),
        after_last(cands[i]@, '/') == target,
    ensures
        match_count(cands, target) >= 1,
    decreases cands.len(),
{
    if i < cands.len() - 1 {
        assert(cands.drop_last()[i] == cands[i]);
        lemma_match_at(cands.drop_last(), target, i);
    }
}

/// Two matching candidates make the count at least two.
proof fn lemma_two_matches(cands: Seq<String>, target: Seq<char>, i: int, j: int)
    requires
        0 <= i < j < cands.len(),
        after_last(cands[i]@, '/') == target,
        after_last(cands[j]@, '/') == target,
    ensures
        match_count(cands, target) >= 2,
    decreases cands.len(),
{
    if j == cands.len() - 1 {
        assert(cands.drop_last()[i] == cands[i]);
        lemma_match_at(cands.drop_last(), target, i);
    } else {
        assert(cands.drop_last()[i] == cands[i]);
        assert(cands.drop_last()[j] == cands[j]);
        lemma_two_matches(cands.drop_last(), target, i, j);
    }
}

/// When exactly one candidate matches, any two matching indices coincide:
/// the selected sysfs node is unique.
pub proof fn lemma_unique_match(cands: Seq<String>, target: Seq<char>, i: int, j: int)
    requires
        match_count(cands, target) == 1,
        0 <= i < cands.len(),
        0 <= j < cands.len(),
        after_last(cands[i]@, '/') == target,
        after_last(cands[j]@, '/') == target,
    ensures
        i == j,
{
    if i < j {
        lemma_two_matches(cands, target, i, j);
    } else if j < i {
        lemma_two_matches(cands, target, j, i);
    }
}

/// Selects, among the candidate `rc*/lirc*` nodes, the one whose final
/// component equals the lirc device's, and returns its parent directory.
/// Succeeds exactly when one candidate matches.
pub fn sys_path_from_candidates(candidates: &Vec<String>, lirc_path: &str) -> (r: Result<
    String,
    RcError,
>)
    ensures
        (r is Ok) == (match_count(candidates@, after_last(lirc_path@, '/')) == 1),
        r matches Ok(p) ==> exists|i: int|
            0 <= i < candidates@.len() && after_last(candidates@[i]@, '/') == after_last(
                lirc_path@,
                '/',
            ) && p@ == before_last(candidates@[i]@, '/'),
        r is Err ==> r == Err::<String, RcError>(RcError::PathResolutionAmbiguous),
{
    let target: String = final_component(lirc_path);
    let mut count: usize = 0;
    let mut first: usize = 0;
    let mut seen: bool = false;
    let mut k: usize = 0;
    while k < candidates.len()
        invariant
            k <= candidates@.len(),
            count <= k,
            target@ == after_last(lirc_path@, '/'),
            count == match_count(candidates@.subrange(0, k as int), target@),
            seen == (count > 0),
            seen ==> first < k && after_last(candidates@[first as int]@, '/') == target@,
        decreases candidates@.len() - k,
    {
        let name: String = final_component(candidates[k].as_str());
        proof {
            assert(candidates@.subrange(0, k + 1).drop_last() =~= candidates@.subrange(
                0,
                k as int,
            ));
            assert(candidates@.subrange(0, k + 1).last() == candidates@[k as int]);
        }
        if name == target {
            if !seen {
                first = k;
                seen = true;
            }
            count = count + 1;
        }
        k = k + 1;
    }
    proof {
        assert(candidates@.subrange(0, candidates@.len() as int) =~= candidates@);
    }
    if count == 1 {
        Ok(parent_component(candidates[first].as_str()))
    } else {
        Err(RcError::PathResolutionAmbiguous)
    }
}

/// Given a `/dev/lircX` path, finds the matching `/sys/class/rc/rcY` node.
///
/// Enumerates the sysfs remote-control nodes on disk; whatever that
/// enumeration yields, a success is the parent directory of a node whose
/// final component equals the lirc path's, and failure reports either an
/// enumeration fault or the lack of a unique match.
pub fn get_sys_path_from_lirc_path(lirc_path: &str) -> (r: Result<String, RcError>)
    ensures
        r matches Ok(p) ==> exists|c: Seq<char>|
            after_last(c, '/') == after_last(lirc_path@, '/') && p@ == before_last(c, '/'),
        r is Err ==> (r == Err::<String, RcError>(RcError::GlobFailed) || r == Err::<
            String,
            RcError,
        >(RcError::PathResolutionAmbiguous)),
{
    match glob_paths("/sys/class/rc/rc*/lirc*") {
        Some(cands) => {
            let res: Result<String, RcError> = sys_path_from_candidates(&cands, lirc_path);
            proof {
                if res is Ok {
                    let i = choose|i: int|
                        0 <= i < cands@.len() && after_last(cands@[i]@, '/') == after_last(
                            lirc_path@,
                            '/',
                        ) && res->Ok_0@ == before_last(cands@[i]@, '/');
                    assert(after_last(cands@[i]@, '/') == after_last(lirc_path@, '/')
                        && res->Ok_0@ == before_last(cands@[i]@, '/'));
                }
            }
            res
        },
        None => Err(RcError::GlobFailed),
    }
}

/// All the tuner frontends associated with the remote control at
/// `sys_rc_path`, read from the `device/dvb/dvb*.frontend*` entries under
/// it, in enumeration order.  Every frontend returned carries numbers read
/// from such an entry's name.
pub fn find_frontends_for_remote_control(sys_rc_path: &str) -> (r: Result<
    Vec<FrontendId>,
    RcError,
>)
    ensures
        r matches Ok(v) ==> forall|i: int|
            0 <= i < v@.len() ==> exists|n: Seq<char>| Some(#[trigger] v@[i])
                == spec_parse_frontend(n),
        r is Err ==> (r == Err::<Vec<FrontendId>, RcError>(RcError::GlobFailed) || r
            == Err::<Vec<FrontendId>, RcError>(RcError::MalformedFrontendName)),
{
    let mut pattern: String = String::from_str(sys_rc_path);
    pattern.append("/device/dvb/dvb*.frontend*");
    match glob_paths(pattern.as_str()) {
        Some(paths) => {
            match try_extract_frontends(&paths) {
                Some(v) => {
                    proof {
                        assert forall|i: int| 0 <= i < v@.len() implies exists|n: Seq<char>|
                            Some(#[trigger] v@[i]) == spec_parse_frontend(n) by {
                            let n = after_last(paths@[i]@, '/');
                            assert(Some(v@[i]) == spec_parse_frontend(n));
                        }
                    }
                    Ok(v)
                },
                None => Err(RcError::MalformedFrontendName),
            }
        },
        None => Err(RcError::GlobFailed),
    }
}

} // verus!
