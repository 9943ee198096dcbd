//! Decisions of the copy stage, one record at a time, as a state machine:
//! the driver performs each action on the file system and reports back.
//! Originals are only ever read; every write goes to the backup directory
//! or to a name the driver reported free.
use vstd::prelude::*;
use crate::media::{record_extension, record_wf, MediaInfo, ProcessResult};
use crate::naming::{
    base_text, day_dir_text, file_name_text, date_hierarchy, month_dir_text, numbered_filename,
    numbered_name_text, year_dir_text,
};
use crate::media::output_extension;
use crate::text::{decimal, digit_char, padded, push_str};

verus! {

/// Where a record stands in the copy stage.
#[derive(Clone, Copy, Debug, PartialEq, Eq, Structural)]
pub enum CopyState {
    /// Waiting for the backup copy.
    BackingUp,
    /// Waiting for the date directories.
    MakingDirs,
    /// Waiting to learn whether candidate name `n` is taken.
    Probing(u64),
    /// Waiting for the copy under candidate name `n`.
    Copying(u64),
    /// Done.
    Finished,
}

/// What the driver reports about the last action.
#[derive(Clone, Debug)]
pub enum CopyEvent {
    /// The backup, directory creation or copy succeeded.
    Done,
    /// It failed, with this description.
    Failed(String),
    /// Whether the probed name is already taken.
    Exists(bool),
}

/// What the driver must do next.
#[derive(Debug)]
pub enum CopyAction {
    /// Copy the original into the backup directory under its own file name,
    /// replacing a file of that name.
    Backup,
    /// Create these nested directories under the output root, outermost
    /// first; existing ones are fine.
    MakeDirs(Vec<String>),
    /// Tell whether this name exists in the record's target directory.
    Probe(String),
    /// Copy the original to this name in the record's target directory.
    CopyTo(String),
    /// The record is done: copied under this name, or failed with this message.
    Finish(Result<String, String>),
}

/// The event answers the action that led to the state.
pub open spec fn event_fits(state: CopyState, event: CopyEvent) -> bool {
    match state {
        CopyState::Probing(_) => event is Exists,
        CopyState::Finished => false,
        _ => event is Done || event is Failed,
    }
}

/// The `c`-th name tried for a record: its own name first, then
/// `<base>_NN.<ext>` for `c = 1, 2, ...`.
pub open spec fn candidate_name(m: MediaInfo, c: nat) -> Seq<char> {
    if c == 0 {
        m.new_name@
    } else {
        numbered_name_text(m.date_taken, m.subsec_time, c, record_extension(m.file_name@))
    }
}

/// `<what> <path>: <cause>`.
pub open spec fn failure_text(what: Seq<char>, path: Seq<char>, cause: Seq<char>) -> Seq<char> {
    what + path + ": "@ + cause
}

pub open spec fn makes_dirs(a: CopyAction, m: MediaInfo) -> bool {
    a matches CopyAction::MakeDirs(d) && d@.len() == 3 && d@[0]@ == year_dir_text(m.date_taken)
        && d@[1]@ == month_dir_text(m.date_taken) && d@[2]@ == day_dir_text(m.date_taken)
}

pub open spec fn probes(a: CopyAction, name: Seq<char>) -> bool {
    a matches CopyAction::Probe(n) && n@ == name
}

pub open spec fn fails_with(a: CopyAction, text: Seq<char>) -> bool {
    a matches CopyAction::Finish(Err(t)) && t@ == text
}

fn failure(what: &str, path: &String, cause: &String) -> (r: String)
    ensures
        r@ == failure_text(what@, path@, cause@),
{
    let mut s = String::new();
    push_str(&mut s, what);
    push_str(&mut s, path.as_str());
    push_str(&mut s, ": ");
    push_str(&mut s, cause.as_str());
    assert(s@ =~= failure_text(what@, path@, cause@));
    s
}

fn candidate(m: &MediaInfo, c: u64) -> (r: String)
    requires
        record_wf(*m),
    ensures
        r@ == candidate_name(*m, c as nat),
{
    if c == 0 {
        m.new_name.clone()
    } else {
        let ext = output_extension(m.file_name.as_str());
        numbered_filename(&m.date_taken, m.subsec_time, c, ext.as_str())
    }
}

/// First step for a record: the backup where a backup directory is set,
/// else the date directories.
pub fn copy_start(m: &MediaInfo, has_backup: bool) -> (r: (CopyState, CopyAction))
    requires
        record_wf(*m),
    ensures
        has_backup ==> r.0 == CopyState::BackingUp && r.1 is Backup,
        !has_backup ==> r.0 == CopyState::MakingDirs && makes_dirs(r.1, *m),
{
    if has_backup {
        (CopyState::BackingUp, CopyAction::Backup)
    } else {
        (CopyState::MakingDirs, CopyAction::MakeDirs(date_hierarchy(&m.date_taken)))
    }
}

/// Next step for a record, given what became of the last action. A failed
/// backup, directory creation or copy ends the record with a message naming
/// its original path; a taken name moves on to the next candidate; a free
/// one is copied to.
pub fn copy_step(m: &MediaInfo, state: CopyState, event: CopyEvent) -> (r: (CopyState, CopyAction))
    requires
        record_wf(*m),
        event_fits(state, event),
    ensures
        match (state, event) {
            (CopyState::BackingUp, CopyEvent::Done) => r.0 == CopyState::MakingDirs && makes_dirs(r.1, *m),
            (CopyState::BackingUp, CopyEvent::Failed(e)) => r.0 == CopyState::Finished && fails_with(
                r.1,
                failure_text("Failed to backup "@, m.original_path@, e@),
            ),
            (CopyState::MakingDirs, CopyEvent::Done) => r.0 == CopyState::Probing(0) && probes(
                r.1,
                candidate_name(*m, 0),
            ),
            (CopyState::MakingDirs, CopyEvent::Failed(e)) => r.0 == CopyState::Finished && fails_with(
                r.1,
                failure_text("Failed to create directory for "@, m.original_path@, e@),
            ),
            (CopyState::Probing(c), CopyEvent::Exists(true)) => if c < u64::MAX {
                r.0 == CopyState::Probing((c + 1) as u64) && probes(r.1, candidate_name(*m, (c + 1) as nat))
            } else {
                r.0 == CopyState::Finished && fails_with(
                    r.1,
                    failure_text("Failed to copy "@, m.original_path@, "no free file name"@),
                )
            },
            (CopyState::Probing(c), CopyEvent::Exists(false)) => r.0 == CopyState::Copying(c) && (r.1 matches CopyAction::CopyTo(n) && n@ == candidate_name(*m, c as nat)),
            (CopyState::Copying(c), CopyEvent::Done) => r.0 == CopyState::Finished && (r.1 matches CopyAction::Finish(Ok(n)) && n@ == candidate_name(*m, c as nat)),
            (CopyState::Copying(c), CopyEvent::Failed(e)) => r.0 == CopyState::Finished && fails_with(
                r.1,
                failure_text("Failed to copy "@, m.original_path@, e@),
            ),
            _ => false,
        },
{
    match state {
        CopyState::BackingUp => match event {
            CopyEvent::Failed(e) => (
                CopyState::Finished,
                CopyAction::Finish(Err(failure("Failed to backup ", &m.original_path, &e))),
            ),
            _ => (CopyState::MakingDirs, CopyAction::MakeDirs(date_hierarchy(&m.date_taken))),
        },
        CopyState::MakingDirs => match event {
            CopyEvent::Failed(e) => (
                CopyState::Finished,
                CopyAction::Finish(
                    Err(failure("Failed to create directory for ", &m.original_path, &e)),
                ),
            ),
            _ => (CopyState::Probing(0), CopyAction::Probe(candidate(m, 0))),
        },
        CopyState::Probing(c) => match event {
            CopyEvent::Exists(true) => if c < u64::MAX {
                (CopyState::Probing(c + 1), CopyAction::Probe(candidate(m, c + 1)))
            } else {
                let cause = String::from_str("no free file name");
                (
                    CopyState::Finished,
                    CopyAction::Finish(Err(failure("Failed to copy ", &m.original_path, &cause))),
                )
            },
            _ => (CopyState::Copying(c), CopyAction::CopyTo(candidate(m, c))),
        },
        CopyState::Copying(c) => match event {
            CopyEvent::Failed(e) => (
                CopyState::Finished,
                CopyAction::Finish(Err(failure("Failed to copy ", &m.original_path, &e))),
            ),
            _ => (CopyState::Finished, CopyAction::Finish(Ok(candidate(m, c)))),
        },
        CopyState::Finished => (CopyState::Finished, CopyAction::Backup),
    }
}

/// Number of records copied.
pub open spec fn ok_count(outcomes: Seq<Result<String, String>>) -> nat
    decreases outcomes.len(),
{
    if outcomes.len() == 0 {
        0
    } else {
        ok_count(outcomes.drop_last()) + if outcomes.last() is Ok {
            1nat
        } else {
            0nat
        }
    }
}

/// The failure messages, in record order.
pub open spec fn error_list(outcomes: Seq<Result<String, String>>) -> Seq<String>
    decreases outcomes.len(),
{
    if outcomes.len() == 0 {
        Seq::empty()
    } else {
        error_list(outcomes.drop_last()) + match outcomes.last() {
            Err(e) => seq![e],
            Ok(_) => Seq::empty(),
        }
    }
}

fn with_new_path(m: &MediaInfo, path: &String) -> (r: MediaInfo)
    ensures
        r == (MediaInfo { new_path: *path, ..*m }),
{
    let timezone = match &m.timezone {
        Some(z) => Some(z.clone()),
        None => None,
    };
    MediaInfo {
        original_path: m.original_path.clone(),
        file_name: m.file_name.clone(),
        media_type: m.media_type,
        date_taken: m.date_taken,
        subsec_time: m.subsec_time,
        timezone,
        new_name: m.new_name.clone(),
        new_path: path.clone(),
        file_size: m.file_size,
        burst_group_id: m.burst_group_id,
        burst_index: m.burst_index,
        date_source: m.date_source,
        exif_orientation: m.exif_orientation,
        rotation_applied: m.rotation_applied,
        width: m.width,
        height: m.height,
    }
}

/// The result of a run from each record's outcome (`Ok` with the path it
/// was copied to, or `Err` with a message): copied records get their new
/// path, every failure is listed, and the run succeeded when at least one
/// file was copied.
pub fn process_result(media: Vec<MediaInfo>, outcomes: Vec<Result<String, String>>) -> (r:
    ProcessResult)
    requires
        media@.len() == outcomes@.len(),
    ensures
        r.total_files == media@.len(),
        r.processed_files == ok_count(outcomes@),
        r.errors@ == error_list(outcomes@),
        r.success == (r.processed_files > 0),
        r.media@.len() == media@.len(),
        forall|i: int|
            0 <= i < media@.len() ==> #[trigger] r.media@[i] == match outcomes@[i] {
                Ok(p) => MediaInfo { new_path: p, ..media@[i] },
                Err(_) => media@[i],
            },
{
    let mut media = media;
    let total = media.len();
    let mut processed: usize = 0;
    let mut errors: Vec<String> = Vec::new();
    let ghost start = media@;
    let mut i: usize = 0;
    while i < total
        invariant
            total == start.len(),
            total == outcomes@.len(),
            media@.len() == total,
            i <= total,
            processed == ok_count(outcomes@.subrange(0, i as int)),
            processed <= i,
            errors@ == error_list(outcomes@.subrange(0, i as int)),
            forall|k: int|
                0 <= k < i ==> #[trigger] media@[k] == match outcomes@[k] {
                    Ok(p) => MediaInfo { new_path: p, ..start[k] },
                    Err(_) => start[k],
                },
            forall|k: int| i <= k < total ==> #[trigger] media@[k] == start[k],
        decreases total - i,
    {
        assert(outcomes@.subrange(0, i + 1).drop_last() =~= outcomes@.subrange(0, i as int));
        match &outcomes[i] {
            Ok(p) => {
                let updated = with_new_path(&media[i], p);
                media[i] = updated;
                processed = processed + 1;
            },
            Err(e) => {
                errors.push(e.clone());
                assert(errors@ =~= error_list(outcomes@.subrange(0, i + 1)));
            },
        }
        i = i + 1;
    }
    assert(outcomes@.subrange(0, total as int) =~= outcomes@);
    ProcessResult { success: processed > 0, total_files: total, processed_files: processed, media, errors }
}

/// A record's second candidate name is its base name with `_01` before the
/// extension, and differs from its first name when that is the plain
/// `<base>.<ext>`: so a file that meets a taken name lands beside it.
pub proof fn lemma_collision_suffix(m: MediaInfo)
    requires
        m.new_name@ == file_name_text(m.date_taken, m.subsec_time, record_extension(m.file_name@)),
    ensures
        candidate_name(m, 1) == base_text(m.date_taken, m.subsec_time) + "_01."@ + record_extension(
            m.file_name@,
        ),
        candidate_name(m, 1) != candidate_name(m, 0),
{
    let ext = record_extension(m.file_name@);
    let base = base_text(m.date_taken, m.subsec_time);
    assert(decimal(1) == seq![digit_char(1)]);
    assert(padded(1, 2) =~= seq!['0', '1']);
    reveal_strlit("_01.");
    assert(candidate_name(m, 1) =~= base + "_01."@ + ext);
    assert(candidate_name(m, 1).len() == candidate_name(m, 0).len() + 3);
}

/// A record whose copy fails leaves every other record's outcome alone: the
/// processed count covers all the others, and the failure is the only error.
pub proof fn lemma_failure_isolated(outcomes: Seq<Result<String, String>>, k: int)
    requires
        0 <= k < outcomes.len(),
        outcomes[k] is Err,
        forall|i: int| 0 <= i < outcomes.len() && i != k ==> #[trigger] outcomes[i] is Ok,
    ensures
        ok_count(outcomes) == outcomes.len() - 1,
        error_list(outcomes) == seq![outcomes[k]->Err_0],
    decreases outcomes.len(),
{
    if k < outcomes.len() - 1 {
        let shorter = outcomes.drop_last();
        assert forall|i: int| 0 <= i < shorter.len() && i != k implies #[trigger] shorter[i] is Ok by {
            assert(shorter[i] == outcomes[i]);
        }
        lemma_failure_isolated(shorter, k);
        assert(outcomes.last() is Ok);
    } else {
        lemma_all_ok(outcomes.drop_last());
        assert(error_list(outcomes.drop_last()) =~= Seq::<String>::empty());
        assert(error_list(outcomes) =~= seq![outcomes[k]->Err_0]);
    }
}

/// Where every record was copied, all count and nothing failed.
proof fn lemma_all_ok(outcomes: Seq<Result<String, String>>)
    requires
        forall|i: int| 0 <= i < outcomes.len() ==> #[trigger] outcomes[i] is Ok,
    ensures
        ok_count(outcomes) == outcomes.len(),
        error_list(outcomes).len() == 0,
    decreases outcomes.len(),
{
    if outcomes.len() > 0 {
        let shorter = outcomes.drop_last();
        assert forall|i: int| 0 <= i < shorter.len() implies #[trigger] shorter[i] is Ok by {
            assert(shorter[i] == outcomes[i]);
        }
        lemma_all_ok(shorter);
        assert(outcomes.last() == outcomes[outcomes.len() - 1]);
    }
}

} // verus!
