//! The port matcher: the tiered heuristic that picks at most one port
//! out of an enumerated list of named candidates.
//!
//! A candidate's name lookup may fail while the device is still
//! initializing; such candidates are excluded from every tier, never
//! given a default name.

use vstd::prelude::*;
use vstd::string::StrSliceExecFns;

verus! {

/// `token` occurs as a contiguous run inside `name` starting at `i`.
pub open spec fn match_at(name: Seq<char>, token: Seq<char>, i: int) -> bool {
    0 <= i && i + token.len() <= name.len() && name.subrange(i, i + token.len()) == token
}

/// `token` occurs as a contiguous run somewhere inside `name`.
pub open spec fn contains_token(name: Seq<char>, token: Seq<char>) -> bool {
    exists|i: int| match_at(name, token, i)
}

fn token_matches_at(name: &str, token: &str, i: usize, h: usize, n: usize) -> (r: bool)
    requires
        h == name@.len(),
        n == token@.len(),
        i + n <= h,
    ensures
        r == match_at(name@, token@, i as int),
{
    let mut j: usize = 0;
    while j < n
        invariant
            h == name@.len(),
            n == token@.len(),
            i + n <= h,
            j <= n,
            forall|l: int| 0 <= l < j ==> name@[i + l] == token@[l],
        decreases n - j,
    {
        if name.get_char(i + j) != token.get_char(j) {
            proof {
                assert(name@.subrange(i as int, i + n as int)[j as int] == name@[i + j]);
            }
            return false;
        }
        j = j + 1;
    }
    proof {
        assert(name@.subrange(i as int, i + n as int) =~= token@);
    }
    true
}

/// Substring search: does `name` contain `token` as a contiguous run?
pub fn str_contains(name: &str, token: &str) -> (r: bool)
    ensures
        r == contains_token(name@, token@),
{
    let h = name.unicode_len();
    let n = token.unicode_len();
    if n > h {
        return false;
    }
    if n == 0 {
        proof {
            assert(name@.subrange(0, 0) =~= token@);
            assert(match_at(name@, token@, 0));
        }
        return true;
    }
    let mut i: usize = 0;
    while i <= h - n
        invariant
            h == name@.len(),
            n == token@.len(),
            0 < n <= h,
            i <= h - n + 1,
            forall|k: int| 0 <= k < i ==> !match_at(name@, token@, k),
        decreases h + 1 - n - i,
    {
        if token_matches_at(name, token, i, h, n) {
            return true;
        }
        i = i + 1;
    }
    proof {
        assert forall|k: int| !match_at(name@, token@, k) by {
            if 0 <= k && k + token@.len() <= name@.len() {
                assert(k < i);
            }
        }
    }
    false
}

/// The device family token every acceptable name must carry.
pub open spec fn family_token() -> Seq<char> {
    "Launchpad"@
}

/// The MIDI-port qualifier token of the first tier.
pub open spec fn midi_token() -> Seq<char> {
    "MIDI"@
}

/// The family's DAW-port variant token, the first tier's alternative
/// qualifier.
pub open spec fn daw_variant_token() -> Seq<char> {
    "LPMiniMK3 MIDI"@
}

/// The DAW-exclusive marker the second tier rules out.
pub open spec fn daw_marker() -> Seq<char> {
    "DAW"@
}

/// The tier predicates, in tie-break order:
/// tier 1 — family token and a MIDI-port qualifier;
/// tier 2 — family token and no DAW-exclusive marker;
/// tier 3 — family token alone.
pub open spec fn matches_tier(name: Seq<char>, tier: int) -> bool {
    if tier == 1 {
        contains_token(name, family_token()) && (contains_token(name, midi_token())
            || contains_token(name, daw_variant_token()))
    } else if tier == 2 {
        contains_token(name, family_token()) && !contains_token(name, daw_marker())
    } else {
        contains_token(name, family_token())
    }
}

/// A candidate enters a tier only with a readable name that satisfies the
/// tier's predicate; a failed name lookup excludes it from every tier.
pub open spec fn entry_matches(entry: Option<Seq<char>>, tier: int) -> bool {
    entry matches Some(name) && matches_tier(name, tier)
}

/// The first candidate of the list that a tier accepts, if any.
pub open spec fn first_match_from(names: Seq<Option<Seq<char>>>, tier: int) -> Option<int>
    decreases names.len(),
{
    if names.len() == 0 {
        None
    } else if entry_matches(names[0], tier) {
        Some(0)
    } else {
        match first_match_from(names.drop_first(), tier) {
            None => None,
            Some(i) => Some(i + 1),
        }
    }
}

/// `first_match_from` returns the least index the tier accepts, and
/// `None` exactly when the tier accepts no candidate.
pub proof fn lemma_first_match_is_least(names: Seq<Option<Seq<char>>>, tier: int)
    ensures
        match first_match_from(names, tier) {
            None => forall|k: int| 0 <= k < names.len() ==> !entry_matches(names[k], tier),
            Some(i) => 0 <= i < names.len() && entry_matches(names[i], tier) && forall|k: int|
                0 <= k < i ==> !entry_matches(names[k], tier),
        },
    decreases names.len(),
{
    if names.len() == 0 {
    } else if entry_matches(names[0], tier) {
    } else {
        lemma_first_match_is_least(names.drop_first(), tier);
        assert(forall|k: int|
            0 < k < names.len() ==> names.drop_first()[k - 1] == names[k]);
    }
}

/// The whole tie-break: the first tier's first match, else the second
/// tier's, else the third tier's, else none.
pub open spec fn spec_match_port(names: Seq<Option<Seq<char>>>) -> Option<int> {
    if first_match_from(names, 1) is Some {
        first_match_from(names, 1)
    } else if first_match_from(names, 2) is Some {
        first_match_from(names, 2)
    } else {
        first_match_from(names, 3)
    }
}

proof fn lemma_first_match_skips_unreadable(names: Seq<Option<Seq<char>>>, tier: int, k: int)
    requires
        0 <= k < names.len(),
        names[k] is None,
    ensures
        first_match_from(names.remove(k), tier) == (match first_match_from(names, tier) {
            None => None::<int>,
            Some(i) => if i < k {
                Some(i)
            } else {
                Some(i - 1)
            },
        }),
        first_match_from(names, tier) != Some(k),
    decreases names.len(),
{
    lemma_first_match_is_least(names, tier);
    if k == 0 {
        assert(!entry_matches(names[0], tier));
        assert(names.remove(0) =~= names.drop_first());
    } else {
        let tail = names.drop_first();
        assert(tail[k - 1] == names[k]);
        lemma_first_match_skips_unreadable(tail, tier, k - 1);
        assert(names.remove(k)[0] == names[0]);
        if entry_matches(names[0], tier) {
        } else {
            assert(names.remove(k).drop_first() =~= tail.remove(k - 1));
        }
    }
}

/// A candidate whose name lookup fails is excluded from every tier:
/// matching over the list behaves exactly as if the entry were absent.
/// The unreadable candidate is never selected, and removing it leaves
/// the selection unchanged up to the index shift the removal causes.
pub proof fn lemma_unreadable_excluded(names: Seq<Option<Seq<char>>>, k: int)
    requires
        0 <= k < names.len(),
        names[k] is None,
    ensures
        spec_match_port(names) != Some(k),
        spec_match_port(names.remove(k)) == (match spec_match_port(names) {
            None => None::<int>,
            Some(i) => if i < k {
                Some(i)
            } else {
                Some(i - 1)
            },
        }),
{
    lemma_first_match_skips_unreadable(names, 1, k);
    lemma_first_match_skips_unreadable(names, 2, k);
    lemma_first_match_skips_unreadable(names, 3, k);
}

/// The tie-break, stated over all inputs. A port is selected exactly
/// when some candidate has a readable name carrying the family token;
/// the selected candidate always has one; and the selection honors the
/// tier order: if any candidate qualifies for the first tier the
/// selected one does, and if none does but some candidate qualifies for
/// the second tier, the selected one does.
pub proof fn lemma_match_port_tie_break(names: Seq<Option<Seq<char>>>)
    ensures
        (spec_match_port(names) is Some) <==> (exists|k: int|
            0 <= k < names.len() && entry_matches(names[k], 3)),
        spec_match_port(names) matches Some(i) ==> 0 <= i < names.len() && entry_matches(
            names[i],
            3,
        ),
        (exists|k: int| 0 <= k < names.len() && entry_matches(names[k], 1))
            ==> (spec_match_port(names) matches Some(i) && entry_matches(names[i], 1)),
        ((exists|k: int| 0 <= k < names.len() && entry_matches(names[k], 2)) && !(exists|k: int|
            0 <= k < names.len() && entry_matches(names[k], 1))) ==> (spec_match_port(names)
            matches Some(i) && entry_matches(names[i], 2)),
{
    lemma_first_match_is_least(names, 1);
    lemma_first_match_is_least(names, 2);
    lemma_first_match_is_least(names, 3);
}

fn name_matches_tier(name: &str, tier: u8) -> (r: bool)
    requires
        1 <= tier <= 3,
    ensures
        r == matches_tier(name@, tier as int),
{
    if tier == 1 {
        str_contains(name, "Launchpad") && (str_contains(name, "MIDI") || str_contains(
            name,
            "LPMiniMK3 MIDI",
        ))
    } else if tier == 2 {
        str_contains(name, "Launchpad") && !str_contains(name, "DAW")
    } else {
        str_contains(name, "Launchpad")
    }
}

fn find_in_tier(names: &Vec<Option<String>>, tier: u8) -> (r: Option<usize>)
    requires
        1 <= tier <= 3,
    ensures
        match r {
            None => first_match_from(names.deep_view(), tier as int) is None,
            Some(i) => i < names.len() && first_match_from(names.deep_view(), tier as int)
                == Some(i as int),
        },
{
    let ghost dv = names.deep_view();
    let mut i: usize = 0;
    while i < names.len()
        invariant
            dv == names.deep_view(),
            dv.len() == names.len(),
            i <= names.len(),
            1 <= tier <= 3,
            forall|k: int| 0 <= k < i ==> !entry_matches(dv[k], tier as int),
        decreases names.len() - i,
    {
        proof {
            assert(dv[i as int] == names@[i as int].deep_view());
        }
        match &names[i] {
            Some(name) => {
                if name_matches_tier(name.as_str(), tier) {
                    proof {
                        assert(entry_matches(dv[i as int], tier as int));
                        lemma_first_match_is_least(dv, tier as int);
                    }
                    return Some(i);
                }
            },
            None => {},
        }
        i = i + 1;
    }
    proof {
        lemma_first_match_is_least(dv, tier as int);
    }
    None
}

/// Select at most one candidate by the tiered tie-break, independently
/// usable for either direction. Returns the index of the selected
/// candidate within the given list, or `None` when no tier accepts any
/// candidate — which is not an error by itself; the caller decides what
/// it means.
pub fn match_port(names: &Vec<Option<String>>) -> (r: Option<usize>)
    ensures
        match r {
            None => spec_match_port(names.deep_view()) is None,
            Some(i) => i < names.len() && spec_match_port(names.deep_view()) == Some(i as int),
        },
{
    if let Some(i) = find_in_tier(names, 1) {
        return Some(i);
    }
    if let Some(i) = find_in_tier(names, 2) {
        return Some(i);
    }
    find_in_tier(names, 3)
}

} // verus!
