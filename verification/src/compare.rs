//! Availability comparator: given the previous and the current snapshot,
//! decide which products became orderable.
//!
//! Policy (first-poll): an absent previous snapshot seeds the baseline and
//! never reports a transition. A record is *orderable* when its purchase URL
//! is non-empty and is not one of the configured default/placeholder values.
//! A transition is reported for a record of the current snapshot when it
//! became orderable (it was absent, had an empty URL, or had a placeholder
//! URL before), or when its activation state changed to a value that is not
//! a configured default.
use vstd::prelude::*;

use crate::model::{FeInventoryResponse, FeProductInfo, ProductV, SnapshotV, Transition, TransitionV};

verus! {

/// The ghost view of a list of configured default/placeholder values.
pub open spec fn strs_view(v: Seq<String>) -> Seq<Seq<char>> {
    v.map_values(|s: String| s@)
}

/// The first record of `records` carrying `sku`, if any.
pub open spec fn lookup(records: Seq<ProductV>, sku: Seq<char>) -> Option<ProductV>
    decreases records.len(),
{
    if records.len() == 0 {
        None
    } else if records[0].fe_sku == sku {
        Some(records[0])
    } else {
        lookup(records.subrange(1, records.len() as int), sku)
    }
}

/// A record is orderable when its purchase URL is non-empty and not a
/// configured placeholder.
pub open spec fn is_orderable(p: ProductV, defaults: Seq<Seq<char>>) -> bool {
    p.product_url.len() > 0 && !defaults.contains(p.product_url)
}

/// Whether a record of the current snapshot, held against its previous
/// version (`None` when the SKU was absent), is a reportable transition,
/// and which.
pub open spec fn transition_of(
    prev: Option<ProductV>,
    cur: ProductV,
    defaults: Seq<Seq<char>>,
) -> Option<TransitionV> {
    let url_change = match prev {
        None => is_orderable(cur, defaults),
        Some(p) => !is_orderable(p, defaults) && is_orderable(cur, defaults),
    };
    let activation_change = match prev {
        None => false,
        Some(p) => p.is_active != cur.is_active && !defaults.contains(cur.is_active),
    };
    if url_change || activation_change {
        Some(
            TransitionV {
                fe_sku: cur.fe_sku,
                previous_state: match prev {
                    None => Seq::empty(),
                    Some(p) => p.is_active,
                },
                new_state: cur.is_active,
                product_url: cur.product_url,
            },
        )
    } else {
        None
    }
}

/// The transitions reported for `cur`, in order of appearance, against the
/// previous snapshot's records (`None` before the first successful poll).
pub open spec fn spec_detect(
    prev: Option<Seq<ProductV>>,
    cur: Seq<ProductV>,
    defaults: Seq<Seq<char>>,
) -> Seq<TransitionV>
    decreases cur.len(),
{
    match prev {
        None => Seq::empty(),
        Some(p) => {
            if cur.len() == 0 {
                Seq::empty()
            } else {
                let head = match transition_of(lookup(p, cur[0].fe_sku), cur[0], defaults) {
                    Some(t) => seq![t],
                    None => Seq::<TransitionV>::empty(),
                };
                head + spec_detect(prev, cur.subrange(1, cur.len() as int), defaults)
            }
        },
    }
}

proof fn lemma_detect_push(
    p: Seq<ProductV>,
    cur: Seq<ProductV>,
    x: ProductV,
    defaults: Seq<Seq<char>>,
)
    ensures
        spec_detect(Some(p), cur.push(x), defaults) == spec_detect(Some(p), cur, defaults)
            + (match transition_of(lookup(p, x.fe_sku), x, defaults) {
            Some(t) => seq![t],
            None => Seq::<TransitionV>::empty(),
        }),
    decreases cur.len(),
{
    let tail = match transition_of(lookup(p, x.fe_sku), x, defaults) {
        Some(t) => seq![t],
        None => Seq::<TransitionV>::empty(),
    };
    if cur.len() == 0 {
        assert(cur.push(x)[0] == x);
        assert(cur.push(x).subrange(1, 1) =~= Seq::<ProductV>::empty());
        assert(spec_detect(Some(p), cur, defaults) == Seq::<TransitionV>::empty());
        assert(spec_detect(Some(p), Seq::<ProductV>::empty(), defaults)
            == Seq::<TransitionV>::empty());
        assert(spec_detect(Some(p), cur.push(x), defaults) =~= spec_detect(Some(p), cur, defaults)
            + tail);
    } else {
        assert(cur.push(x)[0] == cur[0]);
        assert(cur.push(x).subrange(1, cur.push(x).len() as int) =~= cur.subrange(
            1,
            cur.len() as int,
        ).push(x));
        lemma_detect_push(p, cur.subrange(1, cur.len() as int), x, defaults);
        let head = match transition_of(lookup(p, cur[0].fe_sku), cur[0], defaults) {
            Some(t) => seq![t],
            None => Seq::<TransitionV>::empty(),
        };
        assert(spec_detect(Some(p), cur.push(x), defaults) == head + (spec_detect(
            Some(p),
            cur.subrange(1, cur.len() as int),
            defaults,
        ) + tail));
        assert(head + (spec_detect(Some(p), cur.subrange(1, cur.len() as int), defaults) + tail)
            =~= (head + spec_detect(Some(p), cur.subrange(1, cur.len() as int), defaults)) + tail);
    }
}

fn contains_str(v: &Vec<String>, s: &String) -> (r: bool)
    ensures
        r == strs_view(v@).contains(s@),
{
    let mut i: usize = 0;
    while i < v.len()
        invariant
            i <= v.len(),
            forall|k: int| 0 <= k < i as int ==> strs_view(v@)[k] != s@,
        decreases v.len() - i,
    {
        if v[i] == *s {
            assert(strs_view(v@)[i as int] == s@);
            return true;
        }
        i = i + 1;
    }
    assert(forall|k: int| 0 <= k < strs_view(v@).len() ==> strs_view(v@)[k] != s@);
    false
}

fn find_by_sku<'a>(records: &'a Vec<FeProductInfo>, sku: &String) -> (r: Option<&'a FeProductInfo>)
    ensures
        match r {
            Some(p) => lookup(records@.map_values(|q: FeProductInfo| q@), sku@) == Some(p@),
            None => lookup(records@.map_values(|q: FeProductInfo| q@), sku@) is None,
        },
{
    let ghost rv = records@.map_values(|q: FeProductInfo| q@);
    proof {
        assert(rv.subrange(0, rv.len() as int) =~= rv);
    }
    let mut i: usize = 0;
    while i < records.len()
        invariant
            i <= records.len(),
            lookup(rv, sku@) == lookup(rv.subrange(i as int, rv.len() as int), sku@),
        decreases records.len() - i,
    {
        if records[i].fe_sku == *sku {
            proof {
                assert(rv.subrange(i as int, rv.len() as int)[0] == rv[i as int]);
            }
            return Some(&records[i]);
        }
        proof {
            assert(rv.subrange(i as int, rv.len() as int)[0] == rv[i as int]);
            assert(rv.subrange(i as int, rv.len() as int).subrange(
                1,
                rv.len() - i as int,
            ) =~= rv.subrange(i as int + 1, rv.len() as int));
        }
        i = i + 1;
    }
    proof {
        assert(rv.subrange(rv.len() as int, rv.len() as int).len() == 0);
    }
    None
}

fn record_transition(
    prev: Option<&FeProductInfo>,
    cur: &FeProductInfo,
    defaults: &Vec<String>,
) -> (r: Option<Transition>)
    ensures
        match r {
            Some(t) => transition_of(
                match prev {
                    Some(p) => Some(p@),
                    None => None,
                },
                cur@,
                strs_view(defaults@),
            ) == Some(t@),
            None => transition_of(
                match prev {
                    Some(p) => Some(p@),
                    None => None,
                },
                cur@,
                strs_view(defaults@),
            ) is None,
        },
{
    let cur_orderable = !cur.product_url.as_str().is_empty() && !contains_str(
        defaults,
        &cur.product_url,
    );
    let (url_change, activation_change) = match prev {
        None => (cur_orderable, false),
        Some(p) => {
            let prev_orderable = !p.product_url.as_str().is_empty() && !contains_str(
                defaults,
                &p.product_url,
            );
            (
                !prev_orderable && cur_orderable,
                !(p.is_active == cur.is_active) && !contains_str(defaults, &cur.is_active),
            )
        },
    };
    if url_change || activation_change {
        Some(
            Transition {
                fe_sku: cur.fe_sku.clone(),
                previous_state: match prev {
                    None => String::new(),
                    Some(p) => p.is_active.clone(),
                },
                new_state: cur.is_active.clone(),
                product_url: cur.product_url.clone(),
            },
        )
    } else {
        None
    }
}

/// Detect every reportable transition between the previous snapshot (absent
/// before the first successful poll) and the current one, in the order the
/// records appear in the current snapshot.
pub fn detect(
    previous: Option<&FeInventoryResponse>,
    current: &FeInventoryResponse,
    defaults: &Vec<String>,
) -> (r: Vec<Transition>)
    ensures
        r@.map_values(|t: Transition| t@) == spec_detect(
            match previous {
                Some(p) => Some(p@.list),
                None => None,
            },
            current@.list,
            strs_view(defaults@),
        ),
{
    let ghost prevv: Option<Seq<ProductV>> = match previous {
        Some(p) => Some(p@.list),
        None => None,
    };
    let ghost curv = current@.list;
    let ghost dv = strs_view(defaults@);
    let mut out: Vec<Transition> = Vec::new();
    let prev_records = match previous {
        Some(p) => p,
        None => {
            return out;
        },
    };
    let mut i: usize = 0;
    while i < current.list_map.len()
        invariant
            i <= current.list_map.len(),
            prevv == Some(prev_records@.list),
            out@.map_values(|t: Transition| t@) == spec_detect(
                prevv,
                curv.subrange(0, i as int),
                dv,
            ),
        decreases current.list_map.len() - i,
    {
        let cur = &current.list_map[i];
        let prev_rec = find_by_sku(&prev_records.list_map, &cur.fe_sku);
        let ghost old_out = out@;
        let t = record_transition(prev_rec, cur, defaults);
        let ghost tv = match &t {
            Some(t) => Some(t@),
            None => None::<TransitionV>,
        };
        match t {
            Some(t) => out.push(t),
            None => (),
        }
        proof {
            assert(curv.subrange(0, i as int + 1) =~= curv.subrange(0, i as int).push(
                curv[i as int],
            ));
            lemma_detect_push(prev_records@.list, curv.subrange(0, i as int), curv[i as int], dv);
            assert(curv[i as int] == cur@);
            match tv {
                Some(t) => {
                    assert(out@.map_values(|t: Transition| t@) =~= old_out.map_values(
                        |t: Transition| t@,
                    ).push(t));
                },
                None => (),
            }
        }
        i = i + 1;
    }
    proof {
        assert(curv.subrange(0, curv.len() as int) =~= curv);
    }
    out
}

/// Looking a record up by its own SKU in a snapshot with unique SKUs finds
/// exactly that record.
proof fn lemma_lookup_self(records: Seq<ProductV>, i: int)
    requires
        0 <= i < records.len(),
        forall|a: int, b: int|
            0 <= a < b < records.len() ==> records[a].fe_sku != records[b].fe_sku,
    ensures
        lookup(records, records[i].fe_sku) == Some(records[i]),
    decreases records.len(),
{
    if i == 0 {
    } else {
        let rest = records.subrange(1, records.len() as int);
        assert(records[0].fe_sku != records[i].fe_sku);
        assert(rest[i - 1] == records[i]);
        lemma_lookup_self(rest, i - 1);
    }
}

/// Idempotence: comparing any well-formed snapshot with itself yields no
/// transition, whatever the configured defaults.
pub proof fn lemma_detect_idempotent(s: SnapshotV, defaults: Seq<Seq<char>>)
    requires
        s.wf(),
    ensures
        spec_detect(Some(s.list), s.list, defaults) == Seq::<TransitionV>::empty(),
{
    lemma_detect_self_general(s.list, s.list, 0, defaults);
}

proof fn lemma_detect_self_general(
    all: Seq<ProductV>,
    cur: Seq<ProductV>,
    off: int,
    defaults: Seq<Seq<char>>,
)
    requires
        0 <= off,
        off + cur.len() == all.len(),
        forall|k: int| 0 <= k < cur.len() ==> cur[k] == all[off + k],
        forall|a: int, b: int| 0 <= a < b < all.len() ==> all[a].fe_sku != all[b].fe_sku,
    ensures
        spec_detect(Some(all), cur, defaults) == Seq::<TransitionV>::empty(),
    decreases cur.len(),
{
    if cur.len() == 0 {
    } else {
        assert(cur[0] == all[off]);
        lemma_lookup_self(all, off);
        assert(transition_of(Some(cur[0]), cur[0], defaults) is None);
        lemma_detect_self_general(all, cur.subrange(1, cur.len() as int), off + 1, defaults);
        assert(spec_detect(Some(all), cur, defaults) =~= Seq::<TransitionV>::empty());
    }
}

/// Seed-only baseline: before the first successful poll there is no previous
/// snapshot, and no transition is ever reported, so the first poll by itself
/// never triggers a reaction.
pub proof fn lemma_first_poll_seeds_baseline(cur: Seq<ProductV>, defaults: Seq<Seq<char>>)
    ensures
        spec_detect(None, cur, defaults) == Seq::<TransitionV>::empty(),
{
}

/// The first successful poll sends the loop straight to its sleep, never
/// into reaction dispatch: with no previous snapshot the comparator reports
/// nothing, and a poll with no transitions moves `Polling` to `Sleeping`.
pub proof fn lemma_first_poll_never_reacts(cur: Seq<ProductV>, defaults: Seq<Seq<char>>)
    ensures
        crate::scheduler::spec_next_state(
            crate::scheduler::LoopState::Polling,
            false,
            crate::scheduler::CycleEvent::Polled {
                success: true,
                transitions: spec_detect(None, cur, defaults).len() as usize,
            },
        ) == crate::scheduler::LoopState::Sleeping,
{
    lemma_first_poll_seeds_baseline(cur, defaults);
}

} // verus!
