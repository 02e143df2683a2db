//! Choosing among the variants of a master playlist: the ones with the
//! highest bandwidth, all of them where several tie, in manifest order.

use crate::decimal::{parse_decimal, parse_u64};
use crate::manifest::{variant_views, Variant, VariantView};
use vstd::prelude::*;

verus! {

/// The bandwidth of a variant; `None` where the manifest does not spell a
/// number that fits in 64 bits.
pub open spec fn bandwidth_of(v: VariantView) -> Option<u64> {
    parse_decimal(v.bandwidth)
}

/// Whether every variant has a bandwidth.
pub open spec fn well_formed(vs: Seq<VariantView>) -> bool {
    forall|i: int| 0 <= i < vs.len() ==> (#[trigger] bandwidth_of(vs[i])) is Some
}

/// The bandwidths of the variants, in order.
pub open spec fn bandwidths(vs: Seq<VariantView>) -> Seq<u64> {
    Seq::new(vs.len(), |i: int| bandwidth_of(vs[i]).unwrap())
}

/// The largest of `values`; zero where there are none.
pub open spec fn largest(values: Seq<u64>) -> u64
    decreases values.len(),
{
    if values.len() == 0 {
        0
    } else if largest(values.drop_last()) >= values.last() {
        largest(values.drop_last())
    } else {
        values.last()
    }
}

/// The highest bandwidth among the variants.
pub open spec fn best_bandwidth(vs: Seq<VariantView>) -> u64 {
    largest(bandwidths(vs))
}

/// The test that a variant's bandwidth is at least `floor`.
pub open spec fn at_least(floor: u64) -> spec_fn(VariantView) -> bool {
    |v: VariantView| bandwidth_of(v) matches Some(b) && b >= floor
}

/// The variants that are chosen: those at the highest bandwidth, in order.
pub open spec fn best_variants(vs: Seq<VariantView>) -> Seq<VariantView> {
    vs.filter(at_least(best_bandwidth(vs)))
}

/// The URIs of the variants that are chosen, as the manifest spells them.
pub open spec fn best_uris(vs: Seq<VariantView>) -> Seq<Seq<char>> {
    Seq::new(best_variants(vs).len(), |i: int| best_variants(vs)[i].uri)
}

/// `largest` is an upper bound, and one of the values where there are any.
pub proof fn lemma_largest(values: Seq<u64>)
    ensures
        forall|i: int| 0 <= i < values.len() ==> values[i] <= largest(values),
        values.len() > 0 ==> exists|i: int| 0 <= i < values.len() && values[i] == largest(values),
    decreases values.len(),
{
    if values.len() > 0 {
        let front = values.drop_last();
        lemma_largest(front);
        assert forall|i: int| 0 <= i < values.len() implies values[i] <= largest(values) by {
            if i < front.len() {
                assert(values[i] == front[i]);
            }
        }
        if front.len() > 0 && largest(front) >= values.last() {
            let i = choose|i: int| 0 <= i < front.len() && front[i] == largest(front);
            assert(values[i] == largest(values));
        } else {
            assert(values[values.len() - 1] == largest(values));
        }
    }
}

/// Of a master playlist with at least one variant, each of them with a
/// bandwidth, the chosen variants are not empty; each is a variant of the
/// playlist whose bandwidth is the highest one present; and every variant
/// with that bandwidth is chosen.
pub proof fn lemma_best_variants_are_the_highest(vs: Seq<VariantView>)
    requires
        vs.len() > 0,
        well_formed(vs),
    ensures
        best_variants(vs).len() > 0,
        forall|i: int|
            0 <= i < vs.len() ==> (#[trigger] bandwidth_of(vs[i])).unwrap() <= best_bandwidth(vs),
        exists|i: int| 0 <= i < vs.len() && bandwidth_of(vs[i]) == Some(best_bandwidth(vs)),
        forall|k: int|
            0 <= k < best_variants(vs).len() ==> vs.contains(#[trigger] best_variants(vs)[k])
                && bandwidth_of(best_variants(vs)[k]) == Some(best_bandwidth(vs)),
        forall|i: int|
            0 <= i < vs.len() && bandwidth_of(vs[i]) == Some(best_bandwidth(vs))
                ==> best_variants(vs).contains(#[trigger] vs[i]),
{
    let bws = bandwidths(vs);
    let best = best_bandwidth(vs);
    let pred = at_least(best);
    let chosen = best_variants(vs);
    lemma_largest(bws);
    assert forall|i: int| 0 <= i < vs.len() implies (#[trigger] bandwidth_of(vs[i])).unwrap()
        <= best by {
        assert(bws[i] == bandwidth_of(vs[i]).unwrap());
    }
    let top = choose|i: int| 0 <= i < bws.len() && bws[i] == largest(bws);
    assert(pred(vs[top]));
    vs.lemma_filter_contains(pred, top);
    assert forall|k: int| 0 <= k < chosen.len() implies vs.contains(#[trigger] chosen[k])
        && bandwidth_of(chosen[k]) == Some(best) by {
        vs.lemma_filter_pred(pred, k);
        vs.lemma_filter_contains_rev(pred, chosen[k]);
        let i = choose|i: int| 0 <= i < vs.len() && vs[i] == chosen[k];
        assert(bandwidth_of(vs[i]).unwrap() <= best);
    }
    assert forall|i: int|
        0 <= i < vs.len() && bandwidth_of(vs[i]) == Some(best) implies chosen.contains(
        #[trigger] vs[i],
    ) by {
        vs.lemma_filter_contains(pred, i);
    }
}

/// Reads the bandwidth of every variant. `None` where one of them has none.
pub fn read_bandwidths(variants: &Vec<Variant>) -> (r: Option<Vec<u64>>)
    ensures
        match r {
            Some(values) => well_formed(variant_views(variants@)) && values@ == bandwidths(
                variant_views(variants@),
            ),
            None => !well_formed(variant_views(variants@)),
        },
{
    let ghost vs = variant_views(variants@);
    let mut values: Vec<u64> = Vec::new();
    let mut i: usize = 0;
    while i < variants.len()
        invariant
            i <= variants.len(),
            vs == variant_views(variants@),
            values.len() == i,
            forall|k: int| 0 <= k < i ==> bandwidth_of(#[trigger] vs[k]) == Some(values@[k]),
        decreases variants.len() - i,
    {
        match parse_u64(variants[i].bandwidth.as_str()) {
            Some(value) => {
                values.push(value);
            },
            None => {
                assert(bandwidth_of(vs[i as int]) is None);
                return None;
            },
        }
        i = i + 1;
    }
    Some(values)
}

/// The largest of `values`; zero where there are none.
pub fn largest_of(values: &Vec<u64>) -> (m: u64)
    ensures
        m == largest(values@),
{
    let mut m: u64 = 0;
    let mut i: usize = 0;
    while i < values.len()
        invariant
            i <= values.len(),
            m == largest(values@.take(i as int)),
        decreases values.len() - i,
    {
        assert(values@.take(i + 1).drop_last() =~= values@.take(i as int));
        if values[i] > m {
            m = values[i];
        }
        i = i + 1;
    }
    assert(values@.take(values.len() as int) =~= values@);
    m
}

/// Chooses among the variants of a master playlist and hands out the URIs
/// of the chosen ones as the manifest spells them: those of the variants at
/// the highest bandwidth, in manifest order. `None` where a variant has no
/// bandwidth; an empty list where there are no variants.
pub fn select_best_variants(variants: &Vec<Variant>) -> (r: Option<Vec<String>>)
    ensures
        r.deep_view() == if well_formed(variant_views(variants@)) {
            Some(best_uris(variant_views(variants@)))
        } else {
            None
        },
{
    let ghost vs = variant_views(variants@);
    let values = match read_bandwidths(variants) {
        Some(values) => values,
        None => {
            return None;
        },
    };
    let best = largest_of(&values);
    let ghost pred = at_least(best);
    let mut uris: Vec<String> = Vec::new();
    let mut i: usize = 0;
    while i < variants.len()
        invariant
            i <= variants.len(),
            vs == variant_views(variants@),
            well_formed(vs),
            values@ == bandwidths(vs),
            pred == at_least(best),
            uris@.len() == vs.take(i as int).filter(pred).len(),
            forall|k: int|
                0 <= k < uris@.len() ==> (#[trigger] uris@[k])@ == vs.take(i as int).filter(
                    pred,
                )[k].uri,
        decreases variants.len() - i,
    {
        proof {
            reveal(Seq::filter);
            assert(vs.take(i + 1).drop_last() =~= vs.take(i as int));
            assert(bandwidth_of(vs[i as int]) == Some(values@[i as int]));
        }
        if values[i] >= best {
            uris.push(variants[i].uri.clone());
        }
        i = i + 1;
    }
    assert(vs.take(variants.len() as int) =~= vs);
    Some(uris)
}

} // verus!
