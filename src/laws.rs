//! Properties that relate several operations of the library.
use vstd::prelude::*;
use crate::filter::eligible;
use crate::job::{entry_step, output_path_of, EntryStep};
use crate::ledger::{is_processed, sum_post, sum_prev, FileLog};
use crate::report::{unit_divisor, unit_steps};
use crate::text::ends_with;

verus! {

/// The durable map after the records of `marks` were written in order.
pub open spec fn apply_marks(
    m: Map<Seq<char>, FileLog>,
    marks: Seq<(Seq<char>, FileLog)>,
) -> Map<Seq<char>, FileLog>
    decreases marks.len(),
{
    if marks.len() == 0 {
        m
    } else {
        apply_marks(m, marks.drop_last()).insert(marks.last().0, marks.last().1)
    }
}

/// A run that wrote the records of `marks`, each stamped no earlier than the
/// freshness signal its file shows, and was then stopped: on restart every one
/// of those files is processed, and every other file is as processed as it was
/// before that run. So the restart re-encodes exactly the files left over.
pub proof fn lemma_resume_after_stop(
    m: Map<Seq<char>, FileLog>,
    marks: Seq<(Seq<char>, FileLog)>,
    signal: spec_fn(Seq<char>) -> int,
)
    requires
        forall|i: int| 0 <= i < marks.len() ==> #[trigger] marks[i].1.modified >= signal(marks[i].0),
    ensures
        forall|i: int|
            0 <= i < marks.len() ==> is_processed(
                apply_marks(m, marks),
                #[trigger] marks[i].0,
                signal(marks[i].0),
            ),
        forall|p: Seq<char>, s: int|
            (forall|i: int| 0 <= i < marks.len() ==> marks[i].0 != p) ==> (is_processed(
                #[trigger] apply_marks(m, marks),
                p,
                s,
            ) == is_processed(m, p, s)),
    decreases marks.len(),
{
    if marks.len() > 0 {
        let rest = marks.drop_last();
        assert forall|i: int| 0 <= i < rest.len() implies #[trigger] rest[i].1.modified >= signal(
            rest[i].0,
        ) by {
            assert(rest[i] == marks[i]);
        }
        lemma_resume_after_stop(m, rest, signal);
        assert forall|i: int| 0 <= i < marks.len() implies is_processed(
            apply_marks(m, marks),
            #[trigger] marks[i].0,
            signal(marks[i].0),
        ) by {
            if i < rest.len() && marks[i].0 != marks.last().0 {
                assert(rest[i] == marks[i]);
            }
        }
        assert forall|p: Seq<char>, s: int|
            (forall|i: int| 0 <= i < marks.len() ==> marks[i].0 != p) implies (is_processed(
            #[trigger] apply_marks(m, marks),
            p,
            s,
        ) == is_processed(m, p, s)) by {
            assert(marks[marks.len() - 1].0 != p);
            assert forall|i: int| 0 <= i < rest.len() implies rest[i].0 != p by {
                assert(rest[i] == marks[i]);
            }
        }
    }
}

/// Running again over files that the first run marked, and that show the
/// same freshness signal, re-encodes none of them: each is reported as
/// already processed.
pub proof fn lemma_second_run_is_idempotent(
    m: Map<Seq<char>, FileLog>,
    marks: Seq<(Seq<char>, FileLog)>,
    signal: spec_fn(Seq<char>) -> int,
)
    requires
        forall|i: int| 0 <= i < marks.len() ==> #[trigger] marks[i].1.modified >= signal(marks[i].0),
    ensures
        forall|i: int|
            0 <= i < marks.len() ==> entry_step(
                apply_marks(m, marks),
                #[trigger] marks[i].0,
                false,
                signal(marks[i].0),
            ) == EntryStep::AlreadyProcessed,
{
    lemma_resume_after_stop(m, marks, signal);
    assert forall|i: int| 0 <= i < marks.len() implies entry_step(
        apply_marks(m, marks),
        #[trigger] marks[i].0,
        false,
        signal(marks[i].0),
    ) == EntryStep::AlreadyProcessed by {
        assert(is_processed(apply_marks(m, marks), marks[i].0, signal(marks[i].0)));
    }
}

/// A recorded file whose freshness signal has moved past its mark is no
/// longer processed, and becomes eligible for re-encoding again.
pub proof fn lemma_newer_signal_reprocesses(m: Map<Seq<char>, FileLog>, path: Seq<char>, signal: int)
    requires
        m.contains_key(path),
        signal > m[path].modified,
    ensures
        !is_processed(m, path, signal),
        eligible(path) ==> entry_step(m, path, false, signal) == EntryStep::Transcode,
{
}

/// The file that the encoder writes for an eligible source is itself never
/// eligible, though its name ends in a source extension.
pub proof fn lemma_output_not_eligible(path: Seq<char>)
    requires
        eligible(path),
    ensures
        ends_with(output_path_of(path), ".mp4"@),
        !eligible(output_path_of(path)),
{
    let out = output_path_of(path);
    reveal_strlit("_x265.mp4");
    reveal_strlit(".mp4");
    reveal_strlit(".mov");
    reveal_strlit(".mp4_x265.mp4");
    reveal_strlit(".mov_x265.mp4");
    assert(out.subrange(out.len() - 4, out.len() as int) =~= ".mp4"@);
    assert(path.len() >= 4);
    assert(out.subrange(out.len() - 13, out.len() as int) =~= path.subrange(
        path.len() - 4,
        path.len() as int,
    ) + "_x265.mp4"@);
    if ends_with(path, ".mp4"@) {
        assert(out.subrange(out.len() - 13, out.len() as int) =~= ".mp4_x265.mp4"@);
    } else {
        assert(out.subrange(out.len() - 13, out.len() as int) =~= ".mov_x265.mp4"@);
    }
}

/// The totals a report gives grow by exactly the sizes of each record added
/// to the run, so they are the exact sums over the run's records.
pub proof fn lemma_totals_add_up(added: Seq<(Seq<char>, FileLog)>, path: Seq<char>, rec: FileLog)
    ensures
        sum_prev(added.push((path, rec))) == sum_prev(added) + rec.size_prev,
        sum_post(added.push((path, rec))) == sum_post(added) + rec.size_post,
{
    assert(added.push((path, rec)).drop_last() =~= added);
}

/// The unit of a size is the largest of B, KB, MB and GB in which it stays at
/// most 1024, except that sizes beyond 1024 GB stay in GB.
pub proof fn lemma_unit_choice(size: nat)
    ensures
        unit_steps(size) <= 3,
        unit_steps(size) < 3 ==> size <= 1024 * unit_divisor(unit_steps(size)),
        unit_steps(size) > 0 ==> size > 1024 * unit_divisor((unit_steps(size) - 1) as nat),
{
}

} // verus!
