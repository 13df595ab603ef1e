//! Choosing the processor and graphics temperature sensors by their labels.

use vstd::prelude::*;
use crate::text::{contains, contains_str};

verus! {

/// What `str::to_lowercase` makes of a text.
pub uninterp spec fn lower_of(s: Seq<char>) -> Seq<char>;

/// Relies on `str::to_lowercase`: the result depends on the characters alone.
#[verifier::external_body]
fn lowercase(s: &str) -> (r: String)
    ensures
        r@ == lower_of(s@),
{
    s.to_lowercase()
}

/// Label parts that mark a processor sensor, in order of preference.
pub open spec fn cpu_patterns() -> Seq<Seq<char>> {
    seq!["cpu"@, "package"@, "core"@, "tctl"@, "tdie"@]
}

/// Label parts that mark a graphics sensor, in order of preference.
pub open spec fn gpu_patterns() -> Seq<Seq<char>> {
    seq!["gpu"@, "nvidia"@, "amd"@, "radeon"@, "edge"@]
}

/// `label` contains one of `patterns`.
pub open spec fn matches_any(label: Seq<char>, patterns: Seq<Seq<char>>) -> bool {
    exists|k: int| 0 <= k < patterns.len() && contains(label, #[trigger] patterns[k])
}

/// The first index at or after `i` of a label that contains one of `patterns`.
pub open spec fn first_matching_from(
    labels: Seq<Seq<char>>,
    patterns: Seq<Seq<char>>,
    i: int,
) -> Option<int>
    decreases labels.len() - i,
{
    if i < 0 || i >= labels.len() {
        None
    } else if matches_any(labels[i], patterns) {
        Some(i)
    } else {
        first_matching_from(labels, patterns, i + 1)
    }
}

/// The first index of a label that contains one of `patterns`.
pub open spec fn first_matching(labels: Seq<Seq<char>>, patterns: Seq<Seq<char>>) -> Option<int> {
    first_matching_from(labels, patterns, 0)
}

/// The texts of `v`.
pub open spec fn pattern_texts(v: Seq<&str>) -> Seq<Seq<char>> {
    v.map_values(|p: &str| p@)
}

/// Each of `v` in lower case.
pub open spec fn lower_all(v: Seq<Seq<char>>) -> Seq<Seq<char>> {
    v.map_values(|l: Seq<char>| lower_of(l))
}

/// The texts of `v`.
pub open spec fn texts(v: Seq<String>) -> Seq<Seq<char>> {
    v.map_values(|s: String| s@)
}

/// The sensors chosen for the processor and graphics readings, as indices
/// into the sensor list.
#[derive(Clone, Copy, Debug, PartialEq, Eq, Structural)]
pub struct SensorChoice {
    pub cpu: Option<usize>,
    pub gpu: Option<usize>,
}

pub open spec fn index_view(i: Option<usize>) -> Option<int> {
    match i {
        Some(k) => Some(k as int),
        None => None,
    }
}

fn patterns_exec(cpu: bool) -> (r: Vec<&'static str>)
    ensures
        pattern_texts(r@) == if cpu {
            cpu_patterns()
        } else {
            gpu_patterns()
        },
{
    let r = if cpu {
        vec!["cpu", "package", "core", "tctl", "tdie"]
    } else {
        vec!["gpu", "nvidia", "amd", "radeon", "edge"]
    };
    assert(pattern_texts(r@) =~= if cpu {
        cpu_patterns()
    } else {
        gpu_patterns()
    });
    r
}

fn matches_any_exec(label: &str, patterns: &Vec<&'static str>) -> (r: bool)
    ensures
        r == matches_any(label@, pattern_texts(patterns@)),
{
    let ghost pats = pattern_texts(patterns@);
    let mut k: usize = 0;
    while k < patterns.len()
        invariant
            k <= patterns@.len(),
            pats == pattern_texts(patterns@),
            forall|j: int| 0 <= j < k ==> !contains(label@, #[trigger] pats[j]),
        decreases patterns@.len() - k,
    {
        if contains_str(label, patterns[k]) {
            assert(contains(label@, pats[k as int]));
            return true;
        }
        k = k + 1;
    }
    false
}

fn first_matching_exec(lowered: &Vec<String>, cpu: bool) -> (r: Option<usize>)
    ensures
        index_view(r) == first_matching(
            texts(lowered@),
            if cpu {
                cpu_patterns()
            } else {
                gpu_patterns()
            },
        ),
{
    let patterns = patterns_exec(cpu);
    let ghost pats = pattern_texts(patterns@);
    let ghost labels = texts(lowered@);
    let mut i: usize = 0;
    while i < lowered.len()
        invariant
            i <= lowered@.len(),
            labels == texts(lowered@),
            pats == pattern_texts(patterns@),
            pats == if cpu {
                cpu_patterns()
            } else {
                gpu_patterns()
            },
            first_matching(labels, pats) == first_matching_from(labels, pats, i as int),
        decreases lowered@.len() - i,
    {
        assert(labels.len() == lowered@.len());
        assert(labels[i as int] == lowered@[i as int]@);
        if matches_any_exec(lowered[i].as_str(), &patterns) {
            assert(first_matching_from(labels, pats, i as int) == Some(i as int));
            return Some(i);
        }
        i = i + 1;
    }
    None
}

/// Picks the sensors from labels already in lower case: for each reading,
/// the first label that contains one of its patterns.
pub fn pick_sensors(lowered: &Vec<String>) -> (r: SensorChoice)
    ensures
        index_view(r.cpu) == first_matching(texts(lowered@), cpu_patterns()),
        index_view(r.gpu) == first_matching(texts(lowered@), gpu_patterns()),
{
    SensorChoice { cpu: first_matching_exec(lowered, true), gpu: first_matching_exec(lowered, false) }
}

/// Picks the sensors for the processor and graphics readings from the sensor
/// labels, in enumeration order, compared in lower case.
pub fn classify_sensors(labels: &Vec<String>) -> (r: SensorChoice)
    ensures
        index_view(r.cpu) == first_matching(lower_all(texts(labels@)), cpu_patterns()),
        index_view(r.gpu) == first_matching(lower_all(texts(labels@)), gpu_patterns()),
{
    let mut lowered: Vec<String> = Vec::new();
    let mut i: usize = 0;
    while i < labels.len()
        invariant
            i <= labels@.len(),
            lowered@.len() == i,
            texts(lowered@) == lower_all(texts(labels@.take(i as int))),
        decreases labels@.len() - i,
    {
        let l = lowercase(labels[i].as_str());
        let ghost before = lowered@;
        lowered.push(l);
        assert(texts(lowered@) =~= lower_all(texts(labels@.take(i + 1)))) by {
            assert(lowered@ == before.push(l));
            assert forall|k: int| 0 <= k < lowered@.len() implies texts(lowered@)[k] == lower_all(texts(
                labels@.take(i + 1),
            ))[k] by {
                if k < i {
                    assert(texts(lowered@)[k] == texts(before)[k]);
                    assert(texts(labels@.take(i + 1))[k] == texts(labels@.take(i as int))[k]);
                } else {
                    assert(texts(labels@.take(i + 1))[k] == labels@[i as int]@);
                }
            }
        }
        i = i + 1;
    }
    assert(labels@.take(i as int) =~= labels@);
    pick_sensors(&lowered)
}

/// The label chosen among `labels` for `patterns`.
pub open spec fn chosen(labels: Seq<Seq<char>>, patterns: Seq<Seq<char>>) -> Option<Seq<char>> {
    match first_matching(labels, patterns) {
        Some(i) => Some(labels[i]),
        None => None,
    }
}

proof fn lemma_first_matching_from(labels: Seq<Seq<char>>, patterns: Seq<Seq<char>>, i: int)
    requires
        0 <= i,
    ensures
        first_matching_from(labels, patterns, i) matches Some(k) ==> i <= k < labels.len()
            && matches_any(labels[k], patterns) && forall|j: int|
            i <= j < k ==> !matches_any(#[trigger] labels[j], patterns),
        first_matching_from(labels, patterns, i) is None ==> forall|j: int|
            i <= j < labels.len() ==> !matches_any(#[trigger] labels[j], patterns),
    decreases labels.len() - i,
{
    if i < labels.len() && !matches_any(labels[i], patterns) {
        lemma_first_matching_from(labels, patterns, i + 1);
    }
}

proof fn lemma_unique_first(labels: Seq<Seq<char>>, patterns: Seq<Seq<char>>, k: int)
    requires
        0 <= k < labels.len(),
        matches_any(labels[k], patterns),
        forall|j: int| 0 <= j < k ==> !matches_any(#[trigger] labels[j], patterns),
    ensures
        first_matching(labels, patterns) == Some(k),
{
    lemma_first_matching_from(labels, patterns, 0);
    match first_matching(labels, patterns) {
        Some(m) => {
            if m < k {
            } else if m > k {
                assert(!matches_any(labels[k], patterns));
            }
        },
        None => {
            assert(!matches_any(labels[k], patterns));
        },
    }
}

proof fn lemma_none_matching(labels: Seq<Seq<char>>, patterns: Seq<Seq<char>>)
    requires
        forall|j: int| 0 <= j < labels.len() ==> !matches_any(#[trigger] labels[j], patterns),
    ensures
        first_matching(labels, patterns) is None,
{
    lemma_first_matching_from(labels, patterns, 0);
    if let Some(m) = first_matching(labels, patterns) {
        assert(matches_any(labels[m], patterns));
    }
}

proof fn lemma_remove_unmatched(labels: Seq<Seq<char>>, patterns: Seq<Seq<char>>, j: int)
    requires
        0 <= j < labels.len(),
        !matches_any(labels[j], patterns),
    ensures
        chosen(labels, patterns) == chosen(labels.remove(j), patterns),
{
    let rest = labels.remove(j);
    lemma_first_matching_from(labels, patterns, 0);
    match first_matching(labels, patterns) {
        Some(k) => {
            let k2 = if k < j {
                k
            } else {
                k - 1
            };
            assert(rest[k2] == labels[k]);
            assert forall|m: int| 0 <= m < k2 implies !matches_any(#[trigger] rest[m], patterns) by {
                if m < j {
                    assert(rest[m] == labels[m]);
                } else {
                    assert(rest[m] == labels[m + 1]);
                }
            }
            lemma_unique_first(rest, patterns, k2);
        },
        None => {
            assert forall|m: int| 0 <= m < rest.len() implies !matches_any(
                #[trigger] rest[m],
                patterns,
            ) by {
                if m < j {
                    assert(rest[m] == labels[m]);
                } else {
                    assert(rest[m] == labels[m + 1]);
                }
            }
            lemma_none_matching(rest, patterns);
        },
    }
}

/// Each reading takes the first label, in enumeration order, that contains
/// one of its patterns, and none where no label does; a sensor whose label
/// matches neither set is never chosen, and taking it out of the list leaves
/// both chosen labels as they are.
pub proof fn lemma_sensor_choice(labels: Seq<Seq<char>>, j: int)
    requires
        0 <= j < labels.len(),
        !matches_any(labels[j], cpu_patterns()),
        !matches_any(labels[j], gpu_patterns()),
    ensures
        first_matching(labels, cpu_patterns()) != Some(j),
        first_matching(labels, gpu_patterns()) != Some(j),
        chosen(labels, cpu_patterns()) == chosen(labels.remove(j), cpu_patterns()),
        chosen(labels, gpu_patterns()) == chosen(labels.remove(j), gpu_patterns()),
        first_matching(labels, cpu_patterns()) matches Some(k) ==> matches_any(
            labels[k],
            cpu_patterns(),
        ) && forall|m: int| 0 <= m < k ==> !matches_any(#[trigger] labels[m], cpu_patterns()),
        first_matching(labels, gpu_patterns()) matches Some(k) ==> matches_any(
            labels[k],
            gpu_patterns(),
        ) && forall|m: int| 0 <= m < k ==> !matches_any(#[trigger] labels[m], gpu_patterns()),
{
    lemma_first_matching_from(labels, cpu_patterns(), 0);
    lemma_first_matching_from(labels, gpu_patterns(), 0);
    lemma_remove_unmatched(labels, cpu_patterns(), j);
    lemma_remove_unmatched(labels, gpu_patterns(), j);
}

} // verus!
