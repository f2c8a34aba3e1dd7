use vstd::prelude::*;

verus! {

/// A histogram, as pairs of a value's text and its count.
pub open spec fn histogram_view(h: Seq<(String, i32)>) -> Seq<(Seq<char>, int)> {
    h.map_values(|e: (String, i32)| (e.0@, e.1 as int))
}

/// The sum of the counts that are at most `cutoff`.
pub open spec fn small_total(h: Seq<(Seq<char>, int)>, cutoff: int) -> int
    decreases h.len(),
{
    if h.len() == 0 {
        0
    } else {
        small_total(h.drop_last(), cutoff) + if h.last().1 <= cutoff {
            h.last().1
        } else {
            0
        }
    }
}

/// A histogram whose entries with a count of at most `cutoff` are merged into
/// one entry `Other`, placed last, and left out when their total is not
/// positive. The other entries keep their order.
pub open spec fn collapsed(h: Seq<(Seq<char>, int)>, cutoff: int) -> Seq<(Seq<char>, int)> {
    let kept = h.filter(|e: (Seq<char>, int)| e.1 > cutoff);
    if small_total(h, cutoff) > 0 {
        kept.push(("Other"@, small_total(h, cutoff)))
    } else {
        kept
    }
}

/// Merges the entries with a count of at most `cutoff_size` into one entry
/// `Other`. Every partial sum of those counts must fit in an `i32`.
pub fn histogram_collapse_other(list_entry: &Vec<(String, i32)>, cutoff_size: i32) -> (r: Vec<(String, i32)>)
    requires
        forall|k: int|
            0 <= k <= list_entry@.len() ==> i32::MIN <= #[trigger] small_total(
                histogram_view(list_entry@.take(k)),
                cutoff_size as int,
            ) <= i32::MAX,
    ensures
        histogram_view(r@) == collapsed(histogram_view(list_entry@), cutoff_size as int),
{
    let ghost h = histogram_view(list_entry@);
    let mut outlist: Vec<(String, i32)> = Vec::new();
    let mut other_count: i32 = 0;
    let mut i: usize = 0;
    while i < list_entry.len()
        invariant
            i <= list_entry@.len(),
            h == histogram_view(list_entry@),
            forall|k: int|
                0 <= k <= list_entry@.len() ==> i32::MIN <= #[trigger] small_total(
                    histogram_view(list_entry@.take(k)),
                    cutoff_size as int,
                ) <= i32::MAX,
            other_count as int == small_total(h.take(i as int), cutoff_size as int),
            histogram_view(outlist@) == h.take(i as int).filter(
                |e: (Seq<char>, int)| e.1 > cutoff_size as int,
            ),
        decreases list_entry@.len() - i,
    {
        let ghost before = outlist@;
        let name = &list_entry[i].0;
        let cnt = list_entry[i].1;
        proof {
            let t = h.take(i + 1);
            assert(t.drop_last() =~= h.take(i as int));
            assert(t.last() == (name@, cnt as int));
            h.take(i as int).lemma_filter_push((name@, cnt as int), |e: (Seq<char>, int)| e.1 > cutoff_size as int);
            assert(h.take(i as int).push((name@, cnt as int)) =~= t);
            assert(histogram_view(list_entry@.take(i + 1)) =~= t);
            assert(i32::MIN <= small_total(histogram_view(list_entry@.take(i + 1)), cutoff_size as int) <= i32::MAX);
        }
        if cnt > cutoff_size {
            outlist.push((name.clone(), cnt));
            assert(histogram_view(outlist@) =~= histogram_view(before).push((name@, cnt as int)));
        } else {
            other_count = other_count + cnt;
        }
        i = i + 1;
    }
    assert(h.take(list_entry@.len() as int) =~= h);
    if other_count > 0 {
        let ghost before = outlist@;
        outlist.push((String::from_str("Other"), other_count));
        assert(histogram_view(outlist@) =~= histogram_view(before).push(("Other"@, other_count as int)));
    }
    outlist
}

} // verus!
