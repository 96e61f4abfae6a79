//! Selection of repulsion interactions in the zoned approximation mode.
//!
//! In zoned mode a node does not interact with every other node one by one.
//! Given the per-step zone assignment, the node repels, and is repelled by:
//!
//! - every other node of its own major zone, exactly;
//! - each of the four minor-zone aggregates of every adjacent major zone;
//! - the whole-zone aggregate of every other, non-adjacent major zone.
//!
//! [`repulsion_plan`] computes that selection as data.  Its contract pins the
//! plan down completely: the plan holds no duplicates, and every other node
//! is accounted for by exactly one term — the term [`covering_term`] names.
//! The host evaluates one force contribution per term, so the plan's shape is
//! what makes the zoned accumulation physically meaningful.

use vstd::prelude::*;
use vstd::seq_lib::lemma_seq_contains_after_push;

use crate::zone::major_zone::MajorZone;
use crate::zone::minor_zone::MinorZone;

verus! {

broadcast use lemma_seq_contains_after_push;

/// One repulsion contribution toward a node in zoned mode.
#[derive(Debug, Clone, Copy, PartialEq, Eq, Structural)]
pub enum InteractionTerm {
    /// Exact pairwise repulsion against the real node at this position.
    Exact { j: usize },
    /// Repulsion against one minor-zone aggregate of an adjacent major zone.
    MinorAggregate { major: MajorZone, minor: MinorZone },
    /// Repulsion against the whole-zone aggregate of a non-adjacent major
    /// zone.
    MajorAggregate { major: MajorZone },
}

/// Whether term `t` is the one that accounts for the real node `j` under the
/// given per-node zone assignment.
pub open spec fn term_covers(
    t: InteractionTerm,
    j: int,
    majors: Seq<MajorZone>,
    minors: Seq<MinorZone>,
) -> bool {
    match t {
        InteractionTerm::Exact { j: k } => k == j,
        InteractionTerm::MinorAggregate { major, minor } => majors[j] == major && minors[j]
            == minor,
        InteractionTerm::MajorAggregate { major } => majors[j] == major,
    }
}

/// What each kind of term may look like in a plan for node `i`: exact terms
/// name a distinct node of `i`'s own zone, minor aggregates an adjacent
/// zone, whole-zone aggregates a distinct non-adjacent zone.
pub open spec fn term_sound(t: InteractionTerm, i: int, majors: Seq<MajorZone>) -> bool {
    match t {
        InteractionTerm::Exact { j } => j < majors.len() && j != i && majors[j as int]
            == majors[i],
        InteractionTerm::MinorAggregate { major, minor } => majors[i].spec_adjacent(major),
        InteractionTerm::MajorAggregate { major } => major != majors[i] && !majors[i].spec_adjacent(
            major,
        ),
    }
}

/// The single term through which node `j` contributes to node `i` in a zoned
/// plan: exact within `i`'s zone, a minor aggregate from an adjacent zone, a
/// whole-zone aggregate otherwise.
pub open spec fn covering_term(
    i: int,
    j: int,
    majors: Seq<MajorZone>,
    minors: Seq<MinorZone>,
) -> InteractionTerm {
    if majors[j] == majors[i] {
        InteractionTerm::Exact { j: j as usize }
    } else if majors[i].spec_adjacent(majors[j]) {
        InteractionTerm::MinorAggregate { major: majors[j], minor: minors[j] }
    } else {
        InteractionTerm::MajorAggregate { major: majors[j] }
    }
}

/// A pushed sequence stays duplicate-free when the new element is fresh.
proof fn lemma_push_keeps_no_duplicates<A>(s: Seq<A>, x: A)
    requires
        s.no_duplicates(),
        !s.contains(x),
    ensures
        s.push(x).no_duplicates(),
{
    let t = s.push(x);
    assert forall|p: int, q: int|
        0 <= p < t.len() && 0 <= q < t.len() && p != q implies t[p] != t[q] by {
        if p == s.len() {
            assert(t[q] == s[q]);
            if s[q] == x {
                assert(s.contains(x));
            }
        } else if q == s.len() {
            assert(t[p] == s[p]);
            if s[p] == x {
                assert(s.contains(x));
            }
        }
    }
}

/// The repulsion terms the zoned mode evaluates for node `i`, given each
/// node's major- and minor-zone assignment for the step.
///
/// The contract accounts for every node exactly once: each real node other
/// than `i` is covered by precisely one term of the plan — the one
/// [`covering_term`] names — and no term covers `i` itself.
pub fn repulsion_plan(i: usize, majors: &Vec<MajorZone>, minors: &Vec<MinorZone>) -> (plan: Vec<
    InteractionTerm,
>)
    requires
        majors@.len() == minors@.len(),
        i < majors@.len(),
    ensures
        plan@.no_duplicates(),
        forall|t: InteractionTerm| #[trigger]
            plan@.contains(t) ==> term_sound(t, i as int, majors@),
        forall|k: usize|
            k < majors@.len() && k != i && majors@[k as int] == majors@[i as int]
                ==> plan@.contains(InteractionTerm::Exact { j: k }),
        forall|b: MajorZone, m: MinorZone|
            majors@[i as int].spec_adjacent(b) ==> plan@.contains(
                InteractionTerm::MinorAggregate { major: b, minor: m },
            ),
        forall|c: MajorZone|
            c != majors@[i as int] && !majors@[i as int].spec_adjacent(c) ==> plan@.contains(
                InteractionTerm::MajorAggregate { major: c },
            ),
        forall|j: int|
            0 <= j < majors@.len() && j != i ==> plan@.contains(
                #[trigger] covering_term(i as int, j, majors@, minors@),
            ),
        forall|t: InteractionTerm, j: int|
            #![trigger plan@.contains(t), term_covers(t, j, majors@, minors@)]
            plan@.contains(t) && 0 <= j < majors@.len() && term_covers(t, j, majors@, minors@)
                ==> t == covering_term(i as int, j, majors@, minors@),
        forall|t: InteractionTerm| #[trigger]
            plan@.contains(t) ==> !term_covers(t, i as int, majors@, minors@),
{
    let n = majors.len();
    let mut plan: Vec<InteractionTerm> = Vec::new();

    let mut k: usize = 0;
    while k < n
        invariant
            n == majors@.len(),
            majors@.len() == minors@.len(),
            i < n,
            k <= n,
            plan@.no_duplicates(),
            forall|t: InteractionTerm| #[trigger] plan@.contains(t) ==> t is Exact,
            forall|t: InteractionTerm| #[trigger]
                plan@.contains(t) ==> term_sound(t, i as int, majors@),
            forall|t: InteractionTerm| #[trigger]
                plan@.contains(t) ==> (t matches InteractionTerm::Exact { j } && j < k),
            forall|kk: usize|
                kk < k && kk != i && majors@[kk as int] == majors@[i as int] ==> plan@.contains(
                    InteractionTerm::Exact { j: kk },
                ),
        decreases n - k,
    {
        if k != i && majors[k] == majors[i] {
            let t = InteractionTerm::Exact { j: k };
            proof {
                assert(!plan@.contains(t));
                lemma_push_keeps_no_duplicates(plan@, t);
            }
            plan.push(t);
        }
        k = k + 1;
    }

    let zone_i = majors[i];
    let adj = zone_i.adjacent();
    let mut a: usize = 0;
    while a < adj.len()
        invariant
            n == majors@.len(),
            majors@.len() == minors@.len(),
            i < n,
            a <= adj@.len(),
            zone_i == majors@[i as int],
            forall|z: MajorZone| #[trigger] adj@.contains(z) <==> zone_i.spec_adjacent(z),
            adj@.no_duplicates(),
            plan@.no_duplicates(),
            forall|t: InteractionTerm| #[trigger]
                plan@.contains(t) ==> (t is Exact || t is MinorAggregate),
            forall|t: InteractionTerm| #[trigger]
                plan@.contains(t) ==> term_sound(t, i as int, majors@),
            forall|t: InteractionTerm| #[trigger]
                plan@.contains(t) ==> (t matches InteractionTerm::MinorAggregate {
                    major: b2,
                    minor: m2,
                } ==> exists|q: int| 0 <= q < a && adj@[q] == b2),
            forall|kk: usize|
                kk < n && kk != i && majors@[kk as int] == majors@[i as int] ==> plan@.contains(
                    InteractionTerm::Exact { j: kk },
                ),
            forall|q: int, m2: MinorZone|
                0 <= q < a ==> plan@.contains(
                    InteractionTerm::MinorAggregate { major: adj@[q], minor: m2 },
                ),
        decreases adj@.len() - a,
    {
        let b = adj[a];
        proof {
            assert(adj@.contains(adj@[a as int]));
        }
        let mut m: usize = 0;
        while m < 4
            invariant
                n == majors@.len(),
                majors@.len() == minors@.len(),
                i < n,
                a < adj@.len(),
                m <= 4,
                b == adj@[a as int],
                zone_i == majors@[i as int],
                zone_i.spec_adjacent(b),
                adj@.no_duplicates(),
                plan@.no_duplicates(),
                forall|t: InteractionTerm| #[trigger]
                    plan@.contains(t) ==> (t is Exact || t is MinorAggregate),
                forall|t: InteractionTerm| #[trigger]
                    plan@.contains(t) ==> term_sound(t, i as int, majors@),
                forall|t: InteractionTerm| #[trigger]
                    plan@.contains(t) ==> (t matches InteractionTerm::MinorAggregate {
                        major: b2,
                        minor: m2,
                    } ==> (exists|q: int| 0 <= q < a && adj@[q] == b2) || (b2 == b
                        && m2.spec_index() < m)),
                forall|kk: usize|
                    kk < n && kk != i && majors@[kk as int] == majors@[i as int]
                        ==> plan@.contains(InteractionTerm::Exact { j: kk }),
                forall|q: int, m2: MinorZone|
                    0 <= q < a ==> plan@.contains(
                        InteractionTerm::MinorAggregate { major: adj@[q], minor: m2 },
                    ),
                forall|m2: MinorZone|
                    m2.spec_index() < m ==> plan@.contains(
                        InteractionTerm::MinorAggregate { major: b, minor: m2 },
                    ),
            decreases 4 - m,
        {
            let mm = MinorZone::from_index(m);
            let t = InteractionTerm::MinorAggregate { major: b, minor: mm };
            proof {
                assert(!plan@.contains(t)) by {
                    if plan@.contains(t) {
                        assert((exists|q: int| 0 <= q < a && adj@[q] == b) || (b == b
                            && mm.spec_index() < m));
                        if exists|q: int| 0 <= q < a && adj@[q] == b {
                            let q = choose|q: int| 0 <= q < a && adj@[q] == b;
                            assert(adj@[q] == adj@[a as int]);
                        }
                    }
                }
                lemma_push_keeps_no_duplicates(plan@, t);
            }
            plan.push(t);
            proof {
                assert forall|m2: MinorZone| m2.spec_index() < m + 1 implies plan@.contains(
                    InteractionTerm::MinorAggregate { major: b, minor: m2 },
                ) by {
                    if m2.spec_index() == m {
                        MinorZone::lemma_index_injective(m2, mm);
                    }
                }
            }
            m = m + 1;
        }
        proof {
            assert forall|t: InteractionTerm| #[trigger]
                plan@.contains(t) implies (t matches InteractionTerm::MinorAggregate {
                major: b2,
                minor: m2,
            } ==> exists|q: int| 0 <= q < a + 1 && adj@[q] == b2) by {
                match t {
                    InteractionTerm::MinorAggregate { major: b2, minor: m2 } => {
                        if exists|q: int| 0 <= q < a && adj@[q] == b2 {
                            let q = choose|q: int| 0 <= q < a && adj@[q] == b2;
                            assert(0 <= q < a + 1 && adj@[q] == b2);
                        } else {
                            assert(adj@[a as int] == b2);
                        }
                    },
                    _ => {
                    },
                }
            }
            assert forall|q: int, m2: MinorZone| 0 <= q < a + 1 implies plan@.contains(
                InteractionTerm::MinorAggregate { major: adj@[q], minor: m2 },
            ) by {
                if q == a {
                    assert(m2.spec_index() < 4);
                    assert(plan@.contains(InteractionTerm::MinorAggregate { major: b, minor: m2 }));
                }
            }
        }
        a = a + 1;
    }
    proof {
        assert forall|b2: MajorZone, m2: MinorZone|
            zone_i.spec_adjacent(b2) implies plan@.contains(
            InteractionTerm::MinorAggregate { major: b2, minor: m2 },
        ) by {
            assert(adj@.contains(b2));
            let q = choose|q: int| 0 <= q < adj@.len() && adj@[q] == b2;
            assert(plan@.contains(InteractionTerm::MinorAggregate { major: adj@[q], minor: m2 }));
        }
    }

    let distant = zone_i.not_adjacent();
    let mut w: usize = 0;
    while w < distant.len()
        invariant
            n == majors@.len(),
            majors@.len() == minors@.len(),
            i < n,
            w <= distant@.len(),
            zone_i == majors@[i as int],
            forall|z: MajorZone| #[trigger]
                distant@.contains(z) <==> (z != zone_i && !zone_i.spec_adjacent(z)),
            distant@.no_duplicates(),
            plan@.no_duplicates(),
            forall|t: InteractionTerm| #[trigger]
                plan@.contains(t) ==> term_sound(t, i as int, majors@),
            forall|t: InteractionTerm| #[trigger]
                plan@.contains(t) ==> (t matches InteractionTerm::MajorAggregate { major: c2 }
                    ==> exists|q: int| 0 <= q < w && distant@[q] == c2),
            forall|kk: usize|
                kk < n && kk != i && majors@[kk as int] == majors@[i as int] ==> plan@.contains(
                    InteractionTerm::Exact { j: kk },
                ),
            forall|b2: MajorZone, m2: MinorZone|
                zone_i.spec_adjacent(b2) ==> plan@.contains(
                    InteractionTerm::MinorAggregate { major: b2, minor: m2 },
                ),
            forall|q: int|
                0 <= q < w ==> plan@.contains(
                    InteractionTerm::MajorAggregate { major: distant@[q] },
                ),
        decreases distant@.len() - w,
    {
        let c = distant[w];
        proof {
            assert(distant@.contains(distant@[w as int]));
        }
        let t = InteractionTerm::MajorAggregate { major: c };
        proof {
            assert(!plan@.contains(t)) by {
                if plan@.contains(t) {
                    let q = choose|q: int| 0 <= q < w && distant@[q] == c;
                    assert(distant@[q] == distant@[w as int]);
                }
            }
            lemma_push_keeps_no_duplicates(plan@, t);
        }
        plan.push(t);
        w = w + 1;
    }

    proof {
        assert forall|b: MajorZone, m: MinorZone|
            majors@[i as int].spec_adjacent(b) implies plan@.contains(
            InteractionTerm::MinorAggregate { major: b, minor: m },
        ) by {
            assert(adj@.contains(b));
        }
        assert forall|c: MajorZone|
            c != majors@[i as int] && !majors@[i as int].spec_adjacent(c) implies plan@.contains(
            InteractionTerm::MajorAggregate { major: c },
        ) by {
            assert(distant@.contains(c));
            let q = choose|q: int| 0 <= q < distant@.len() && distant@[q] == c;
            assert(plan@.contains(InteractionTerm::MajorAggregate { major: distant@[q] }));
        }
        assert forall|j: int| 0 <= j < majors@.len() && j != i implies plan@.contains(
            #[trigger] covering_term(i as int, j, majors@, minors@),
        ) by {
            let zj = majors@[j];
            if zj == majors@[i as int] {
                assert(plan@.contains(InteractionTerm::Exact { j: j as usize }));
            } else if majors@[i as int].spec_adjacent(zj) {
                assert(plan@.contains(
                    InteractionTerm::MinorAggregate { major: zj, minor: minors@[j] },
                ));
            } else {
                assert(plan@.contains(InteractionTerm::MajorAggregate { major: zj }));
            }
        }
    }
    plan
}

/// When no major zone holds more than one node, no aggregate term stands for
/// more than one real node.  On such a graph every group the zoned mode
/// aggregates is a single node, so aggregation introduces no error source
/// relative to exact mode.
pub proof fn lemma_sparse_zones_terms_single(
    majors: Seq<MajorZone>,
    minors: Seq<MinorZone>,
    t: InteractionTerm,
    j1: int,
    j2: int,
)
    requires
        majors.len() == minors.len(),
        forall|a: int, b: int|
            0 <= a < majors.len() && 0 <= b < majors.len() && #[trigger] majors[a]
                == #[trigger] majors[b] ==> a == b,
        0 <= j1 < majors.len(),
        0 <= j2 < majors.len(),
        term_covers(t, j1, majors, minors),
        term_covers(t, j2, majors, minors),
    ensures
        j1 == j2,
{
    match t {
        InteractionTerm::Exact { j } => {
        },
        InteractionTerm::MinorAggregate { major, minor } => {
            assert(majors[j1] == majors[j2]);
        },
        InteractionTerm::MajorAggregate { major } => {
            assert(majors[j1] == majors[j2]);
        },
    }
}

} // verus!
