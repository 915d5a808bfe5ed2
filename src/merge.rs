//! Folding an undersized last part into the one before it, and the paths and
//! concat list that the folding works on.

use crate::duration::Duration;
use crate::errors::SplitterError;
use crate::playlist::{
    entry_ok, entry_parts, lemma_rendered_manifest, manifest_parts, render, sum_ms, PartInfo,
    PlaylistInfo,
};
use crate::text::{chars_of, push_char, push_str};
use vstd::prelude::*;

verus! {

/// Is the last pair of `parts` due to be merged under the cap `cap`
/// (milliseconds)? The bound is inclusive.
pub open spec fn merge_due(parts: Seq<(nat, Seq<char>)>, cap: nat) -> bool {
    parts.len() >= 2 && parts[parts.len() - 2].0 + parts[parts.len() - 1].0 <= cap
}

/// `parts` with the last two replaced by one that keeps the path of the
/// first of them and plays as long as both.
pub open spec fn merge_tail(parts: Seq<(nat, Seq<char>)>) -> Seq<(nat, Seq<char>)> {
    let n = parts.len() as int;
    parts.drop_last().drop_last().push((parts[n - 2].0 + parts[n - 1].0, parts[n - 2].1))
}

/// `rel` under `base`, as `Path::join` puts it: an absolute `rel` stands alone,
/// and one `/` goes between where `base` does not end in one.
pub open spec fn joined(base: Seq<char>, rel: Seq<char>) -> Seq<char> {
    if rel.len() > 0 && rel[0] == '/' {
        rel
    } else if base.len() == 0 {
        rel
    } else if base.last() == '/' {
        base + rel
    } else {
        base + seq!['/'] + rel
    }
}

/// The text of a concat list that names `first` and then `second`.
pub open spec fn join_list(first: Seq<char>, second: Seq<char>) -> Seq<char> {
    "file '"@ + first + "'\nfile '"@ + second + "'"@
}

/// Merging leaves the total duration as it was.
pub proof fn lemma_merge_keeps_total(parts: Seq<(nat, Seq<char>)>)
    requires
        parts.len() >= 2,
    ensures
        sum_ms(merge_tail(parts)) == sum_ms(parts),
        parts[parts.len() - 2].0 + parts[parts.len() - 1].0 <= sum_ms(parts),
{
    let m = merge_tail(parts);
    assert(m.drop_last() =~= parts.drop_last().drop_last());
    assert(parts.drop_last().last() == parts[parts.len() - 2]);
    assert(sum_ms(parts) == sum_ms(parts.drop_last()) + parts.last().0);
    assert(sum_ms(parts.drop_last()) == sum_ms(parts.drop_last().drop_last())
        + parts.drop_last().last().0);
    assert(sum_ms(m) == sum_ms(m.drop_last()) + m.last().0);
}

/// Of a list of at least two parts and a cap: the last pair is merged
/// exactly when the two together play no longer than the cap, a pair that
/// reaches the cap exactly included; a merge leaves one part fewer, the same
/// parts before the pair, and a last part that plays as long as the pair.
pub proof fn lemma_merge_rule(parts: Seq<(nat, Seq<char>)>, cap: nat)
    requires
        parts.len() >= 2,
    ensures
        merge_due(parts, cap) <==> parts[parts.len() - 2].0 + parts[parts.len() - 1].0 <= cap,
        parts[parts.len() - 2].0 + parts[parts.len() - 1].0 == cap ==> merge_due(parts, cap),
        merge_tail(parts).len() == parts.len() - 1,
        merge_tail(parts).last().0 == parts[parts.len() - 2].0 + parts[parts.len() - 1].0,
        merge_tail(parts).last().1 == parts[parts.len() - 2].1,
        forall|i: int| 0 <= i < parts.len() - 2 ==> #[trigger] merge_tail(parts)[i] == parts[i],
{
}

/// A manifest written from well-formed entries whose last pair plays longer
/// than the cap reads back as the entries' paths, in order, and no merge is
/// due: the list that `join_last_parts_if_needed` leaves is the one read.
pub proof fn lemma_round_trip_without_merge(entries: Seq<(Seq<char>, Seq<char>)>, cap: nat)
    requires
        forall|i: int| 0 <= i < entries.len() ==> entry_ok(#[trigger] entries[i].0, entries[i].1),
        sum_ms(entry_parts(entries)) <= u64::MAX,
        entries.len() >= 2 ==> entry_parts(entries)[entries.len() - 2].0 + entry_parts(
            entries,
        )[entries.len() - 1].0 > cap,
    ensures
        manifest_parts(render(entries)) is Ok,
        !merge_due(manifest_parts(render(entries))->Ok_0, cap),
        manifest_parts(render(entries))->Ok_0.len() == entries.len(),
        forall|i: int| 0 <= i < entries.len() ==> (#[trigger] manifest_parts(render(entries))->Ok_0[i]).1
            == entries[i].1,
{
    lemma_rendered_manifest(entries);
}

/// Fewer than two parts are never merged.
pub proof fn lemma_no_merge_below_two(parts: Seq<(nat, Seq<char>)>, cap: nat)
    requires
        parts.len() < 2,
    ensures
        !merge_due(parts, cap),
{
}

/// The two segment files of a merge, relative to the output folder: `first`
/// is the second-to-last part, kept under its path; `second` is the last.
pub struct JoinFiles {
    pub first: String,
    pub second: String,
}

/// Joins `path` under `base` and gives the result as text.
pub fn combine_path_as_string(base: &str, path: &str) -> (r: String)
    ensures
        r@ == joined(base@, path@),
{
    let b = chars_of(base);
    let p = chars_of(path);
    let mut s = String::new();
    if p.len() > 0 && p[0] == '/' {
        push_str(&mut s, path);
    } else if b.len() == 0 {
        push_str(&mut s, path);
    } else if b[b.len() - 1] == '/' {
        push_str(&mut s, base);
        push_str(&mut s, path);
    } else {
        push_str(&mut s, base);
        push_char(&mut s, '/');
        push_str(&mut s, path);
    }
    assert(s@ =~= joined(base@, path@));
    s
}

/// The concat list for the encoder: one quoted `file` line per input.
pub fn join_list_text(first: &str, second: &str) -> (r: String)
    ensures
        r@ == join_list(first@, second@),
{
    let mut s = String::new();
    push_str(&mut s, "file '");
    push_str(&mut s, first);
    push_str(&mut s, "'\nfile '");
    push_str(&mut s, second);
    push_str(&mut s, "'");
    assert(s@ =~= join_list(first@, second@));
    s
}

/// Every part's path under `base`, in order.
pub fn part_paths(info: &PlaylistInfo, base: &str) -> (r: Vec<String>)
    ensures
        r@.len() == info.parts@.len(),
        forall|i: int| 0 <= i < r@.len() ==> #[trigger] r@[i]@ == joined(base@, info.parts@[i].path@),
{
    let mut r: Vec<String> = Vec::new();
    let mut i: usize = 0;
    while i < info.parts.len()
        invariant
            i <= info.parts@.len(),
            r@.len() == i,
            forall|j: int| 0 <= j < i ==> #[trigger] r@[j]@ == joined(base@, info.parts@[j].path@),
        decreases info.parts@.len() - i,
    {
        let p = combine_path_as_string(base, info.parts[i].path.as_str());
        r.push(p);
        i = i + 1;
    }
    r
}

/// Folds the last part into the second-to-last: the latter keeps its path and
/// now plays as long as both, and the last leaves the list.
pub fn join_last_two_parts(input_parts: &mut PlaylistInfo) -> (r: Result<JoinFiles, SplitterError>)
    requires
        old(input_parts).wf(),
    ensures
        final(input_parts).wf(),
        old(input_parts).parts@.len() < 2 ==> r == Err::<JoinFiles, SplitterError>(
            SplitterError::JoinRequiresAtLeastTwoParts,
        ) && *final(input_parts) == *old(input_parts),
        old(input_parts).parts@.len() >= 2 ==> {
            let n = old(input_parts).parts@.len() as int;
            &&& r is Ok
            &&& final(input_parts).parts_view() == merge_tail(old(input_parts).parts_view())
            &&& final(input_parts).total_duration == old(input_parts).total_duration
            &&& r->Ok_0.first@ == old(input_parts).parts@[n - 2].path@
            &&& r->Ok_0.second@ == old(input_parts).parts@[n - 1].path@
        },
{
    if input_parts.parts.len() < 2 {
        return Err(SplitterError::JoinRequiresAtLeastTwoParts);
    }
    let ghost before = input_parts.parts_view();
    proof {
        lemma_merge_keeps_total(before);
    }
    let last = input_parts.parts.pop().unwrap();
    let second_last = input_parts.parts.pop().unwrap();
    let millis = second_last.duration.millis + last.duration.millis;
    let first = second_last.path.clone();
    let merged = PartInfo { duration: Duration::from_millis(millis), path: second_last.path };
    input_parts.parts.push(merged);
    assert(input_parts.parts_view() =~= merge_tail(before));
    Ok(JoinFiles { first, second: last.path })
}

/// Merges the last two parts where together they play no longer than
/// `duration_cap`, and says which files the merge joins; otherwise leaves the
/// parts as they are and gives `None`.
pub fn join_last_parts_if_needed(input_parts: &mut PlaylistInfo, duration_cap: &Duration) -> (r:
    Option<JoinFiles>)
    requires
        old(input_parts).wf(),
    ensures
        final(input_parts).wf(),
        final(input_parts).total_duration == old(input_parts).total_duration,
        r is Some <==> merge_due(old(input_parts).parts_view(), duration_cap.millis as nat),
        merge_due(old(input_parts).parts_view(), duration_cap.millis as nat) ==> {
            let n = old(input_parts).parts@.len() as int;
            &&& final(input_parts).parts_view() == merge_tail(old(input_parts).parts_view())
            &&& r->Some_0.first@ == old(input_parts).parts@[n - 2].path@
            &&& r->Some_0.second@ == old(input_parts).parts@[n - 1].path@
        },
        !merge_due(old(input_parts).parts_view(), duration_cap.millis as nat) ==> *final(input_parts)
            == *old(input_parts),
{
    let n = input_parts.parts.len();
    if n < 2 {
        return None;
    }
    proof {
        lemma_merge_keeps_total(input_parts.parts_view());
    }
    let combined = input_parts.parts[n - 2].duration.millis + input_parts.parts[n - 1].duration.millis;
    if combined <= duration_cap.millis {
        match join_last_two_parts(input_parts) {
            Ok(files) => Some(files),
            Err(_) => None,
        }
    } else {
        None
    }
}

} // verus!
