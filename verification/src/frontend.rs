//! Identities of tuner frontends and the keystroke messages sent to the GUI,
//! and the parser that reads a `dvbN.frontendM` file name.

use vstd::prelude::*;
use vstd::string::StrSliceExecFns;

use crate::text::after_last;
use crate::text::dec_value;
use crate::text::digits_prefix_len;
use crate::text::final_component;
use crate::text::has_prefix;
use crate::text::is_digit_char;
use crate::text::lemma_digits_prefix;
use crate::text::prefix_of;

verus! {

/// Identifies one tuner frontend by its adapter and frontend numbers.
#[derive(Clone, Copy, Debug, PartialEq, Eq, Structural)]
pub struct FrontendId {
    pub adapter: u8,
    pub frontend: u8,
}

/// One decoded key event, tagged with the frontend it is meant for.
#[derive(Clone, Copy, Debug, PartialEq, Eq, Structural)]
pub struct TargettedKeystroke {
    pub frontend_id: FrontendId,
    pub keystroke: u32,
    pub value: u32,
}

/// What a `dvbN.frontendM` file name denotes: the adapter and frontend
/// numbers, read as maximal decimal digit runs.  `None` when the name does
/// not have that shape or a number does not fit in eight bits.
pub open spec fn spec_parse_frontend(name: Seq<char>) -> Option<FrontendId> {
    if !prefix_of(name, "dvb"@) {
        None
    } else {
        let t = name.subrange("dvb"@.len() as int, name.len() as int);
        let d1 = digits_prefix_len(t);
        if d1 == 0 {
            None
        } else {
            let adapter_val = dec_value(t.subrange(0, d1));
            let u = t.subrange(d1, t.len() as int);
            if !prefix_of(u, ".frontend"@) {
                None
            } else {
                let w = u.subrange(".frontend"@.len() as int, u.len() as int);
                let d2 = digits_prefix_len(w);
                if d2 == 0 {
                    None
                } else {
                    let frontend_val = dec_value(w.subrange(0, d2));
                    if adapter_val <= 255 && frontend_val <= 255 {
                        Some(
                            FrontendId {
                                adapter: adapter_val as u8,
                                frontend: frontend_val as u8,
                            },
                        )
                    } else {
                        None
                    }
                }
            }
        }
    }
}

/// End of the run of decimal digits that starts at `start`.
fn scan_digits(s: &str, start: usize) -> (e: usize)
    requires
        start <= s@.len(),
    ensures
        start <= e <= s@.len(),
        forall|j: int| start <= j < e ==> is_digit_char(s@[j]),
        e == s@.len() || !is_digit_char(s@[e as int]),
{
    let n: usize = s.unicode_len();
    let mut i: usize = start;
    while i < n
        invariant
            start <= i <= n,
            n == s@.len(),
            forall|j: int| start <= j < i ==> is_digit_char(s@[j]),
        decreases n - i,
    {
        let v: u32 = s.get_char(i) as u32;
        if !(48 <= v && v <= 57) {
            return i;
        }
        i = i + 1;
    }
    n
}

/// The number written by the digits `s[start..end]`, or 256 when it exceeds
/// 255.
fn digits_value_capped(s: &str, start: usize, end: usize) -> (v: u32)
    requires
        start <= end <= s@.len(),
        forall|j: int| start <= j < end ==> is_digit_char(s@[j]),
    ensures
        v <= 255 ==> v == dec_value(s@.subrange(start as int, end as int)),
        v > 255 ==> v == 256 && dec_value(s@.subrange(start as int, end as int)) > 255,
{
    let mut acc: u32 = 0;
    let mut j: usize = start;
    proof {
        assert(s@.subrange(start as int, start as int) =~= Seq::<char>::empty());
    }
    while j < end
        invariant
            start <= j <= end,
            end <= s@.len(),
            forall|k: int| start <= k < end ==> is_digit_char(s@[k]),
            acc <= 255 ==> acc == dec_value(s@.subrange(start as int, j as int)),
            acc > 255 ==> acc == 256 && dec_value(s@.subrange(start as int, j as int)) > 255,
        decreases end - j,
    {
        let d: u32 = s.get_char(j) as u32 - 48;
        proof {
            assert(s@.subrange(start as int, j + 1).drop_last() =~= s@.subrange(
                start as int,
                j as int,
            ));
            assert(s@.subrange(start as int, j + 1).last() == s@[j as int]);
        }
        let next: u32 = acc * 10 + d;
        if next > 255 {
            acc = 256;
        } else {
            acc = next;
        }
        j = j + 1;
    }
    acc
}

/// Reads adapter and frontend numbers from a `dvbN.frontendM` file name.
pub fn parse_frontend_file_name(name: &str) -> (r: Option<FrontendId>)
    ensures
        r == spec_parse_frontend(name@),
{
    proof {
        reveal_strlit("dvb");
        reveal_strlit(".frontend");
    }
    let n: usize = name.unicode_len();
    if !has_prefix(name, "dvb") {
        return None;
    }
    let ghost t = name@.subrange(3, n as int);
    let d1_end: usize = scan_digits(name, 3);
    proof {
        assert(forall|j: int| 0 <= j < t.len() ==> t[j] == name@[j + 3]);
        lemma_digits_prefix(t, d1_end - 3);
    }
    if d1_end == 3 {
        return None;
    }
    let a: u32 = digits_value_capped(name, 3, d1_end);
    proof {
        assert(name@.subrange(3, d1_end as int) =~= t.subrange(0, d1_end - 3));
    }
    let rest: &str = name.substring_char(d1_end, n);
    let ghost u = t.subrange(d1_end - 3, t.len() as int);
    proof {
        assert(rest@ =~= u);
    }
    if !has_prefix(rest, ".frontend") {
        return None;
    }
    let ghost w = u.subrange(9, u.len() as int);
    let d2_start: usize = d1_end + 9;
    let d2_end: usize = scan_digits(name, d2_start);
    proof {
        assert(forall|j: int| 0 <= j < w.len() ==> w[j] == name@[j + d2_start]);
        lemma_digits_prefix(w, d2_end - d2_start);
    }
    if d2_end == d2_start {
        return None;
    }
    let f: u32 = digits_value_capped(name, d2_start, d2_end);
    proof {
        assert(name@.subrange(d2_start as int, d2_end as int) =~= w.subrange(
            0,
            d2_end - d2_start,
        ));
    }
    if a <= 255 && f <= 255 {
        Some(FrontendId { adapter: a as u8, frontend: f as u8 })
    } else {
        None
    }
}

/// Reads one `FrontendId` per path, each from the path's final component;
/// `None` when some final component is not a frontend name.
pub fn try_extract_frontends(paths: &Vec<String>) -> (r: Option<Vec<FrontendId>>)
    ensures
        match r {
            Some(v) => v@.len() == paths@.len() && (forall|i: int|
                0 <= i < v@.len() ==> Some(v@[i]) == spec_parse_frontend(
                    after_last(paths@[i]@, '/'),
                )),
            None => exists|i: int|
                0 <= i < paths@.len() && spec_parse_frontend(after_last(paths@[i]@, '/'))
                    is None,
        },
{
    let mut out: Vec<FrontendId> = Vec::new();
    let mut k: usize = 0;
    while k < paths.len()
        invariant
            k <= paths@.len(),
            out@.len() == k,
            forall|i: int|
                0 <= i < k ==> Some(out@[i]) == spec_parse_frontend(
                    after_last(paths@[i]@, '/'),
                ),
        decreases paths@.len() - k,
    {
        let name: String = final_component(paths[k].as_str());
        match parse_frontend_file_name(name.as_str()) {
            Some(f) => out.push(f),
            None => {
                return None;
            },
        }
        k = k + 1;
    }
    Some(out)
}

/// The `FrontendId` named by each path's final component, in input order.
/// Every final component must be a well-formed frontend name.
pub fn extract_frontend_from_paths(paths: &Vec<String>) -> (r: Vec<FrontendId>)
    requires
        forall|i: int|
            0 <= i < paths@.len() ==> spec_parse_frontend(after_last(paths@[i]@, '/'))
                is Some,
    ensures
        r@.len() == paths@.len(),
        forall|i: int|
            0 <= i < r@.len() ==> Some(r@[i]) == spec_parse_frontend(
                after_last(paths@[i]@, '/'),
            ),
{
    match try_extract_frontends(paths) {
        Some(v) => v,
        None => {
            proof {
                assert(false);
            }
            vstd::pervasive::unreached()
        },
    }
}

} // verus!

