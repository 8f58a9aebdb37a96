//! How stored terminal sessions change: status updates, restart recovery,
//! deletion, and the byte limit of the retained output log.
use vstd::prelude::*;

use crate::domain::workspace::WorkspaceId;
use crate::domain::terminal::{
    LifecycleEventKind, NewTerminalSession, SessionLifecycleEvent, TerminalId, TerminalLogCoverage,
    TerminalLogIndex, TerminalSession, TerminalStatus,
};
use crate::domain::workspace::clone_opt_string;
use crate::services::terminal::TerminalError;
use crate::text::{decimal_spec, decimal_text, digit_spec, join_str, str_eq};
use vstd::string::StrSliceExecFns;

verus! {

/// Most output bytes kept per terminal: 2 MiB.
pub const MAX_LOG_BYTES: u64 = 2097152;

/// A session whose process may still be alive.
pub open spec fn is_live(status: TerminalStatus) -> bool {
    status == TerminalStatus::Starting || status == TerminalStatus::Running
}

pub fn is_live_status(status: TerminalStatus) -> (r: bool)
    ensures
        r == is_live(status),
{
    match status {
        TerminalStatus::Starting | TerminalStatus::Running => true,
        _ => false,
    }
}

/// A stored session after its process started at `now`.
pub open spec fn running_record(session: TerminalSession, now: i64) -> TerminalSession {
    TerminalSession { status: TerminalStatus::Running, started_at: Some(now), ..session }
}

/// Records that a terminal's process is running.
pub fn mark_running(session: &TerminalSession, now: i64) -> (r: TerminalSession)
    ensures
        r == running_record(*session, now),
{
    let mut r = session.clone();
    r.status = TerminalStatus::Running;
    r.started_at = Some(now);
    r
}

/// Records how a terminal's process ended: the final status, the exit code
/// (which replaces any earlier one), the reason and the time.
pub fn finish(
    session: &TerminalSession,
    status: TerminalStatus,
    exit_code: Option<i32>,
    reason: &str,
    now: i64,
) -> (r: TerminalSession)
    ensures
        r == (TerminalSession {
            status,
            ended_at: Some(now),
            exit_code,
            termination_reason: r.termination_reason,
            ..*session
        }),
        r.termination_reason matches Some(text) && text@ == reason@,
{
    let mut r = session.clone();
    r.status = status;
    r.ended_at = Some(now);
    r.exit_code = exit_code;
    r.termination_reason = Some(reason.to_owned());
    r
}

/// `recovered` is `session` as restart recovery leaves it: interrupted, ended
/// at `now`, with the reason `app_restart`, and otherwise unchanged.
pub open spec fn is_recovery_of(recovered: TerminalSession, session: TerminalSession, now: i64) -> bool {
    &&& recovered.status == TerminalStatus::Interrupted
    &&& recovered.ended_at == Some(now)
    &&& recovered.termination_reason matches Some(t) && t@ == "app_restart"@
    &&& recovered == (TerminalSession {
        status: recovered.status,
        ended_at: recovered.ended_at,
        termination_reason: recovered.termination_reason,
        ..session
    })
}

/// What restart recovery does to a stored session: one that was still live
/// when the application stopped becomes interrupted, ended at `now`, with the
/// reason `app_restart`; every other session is left as it is (`None`).
pub fn recover_interrupted(session: &TerminalSession, now: i64) -> (r: Option<TerminalSession>)
    ensures
        !is_live(session.status) ==> r is None,
        is_live(session.status) ==> (r matches Some(s) && is_recovery_of(s, *session, now)),
{
    if !is_live_status(session.status) {
        return None;
    }
    let mut r = session.clone();
    r.status = TerminalStatus::Interrupted;
    r.ended_at = Some(now);
    r.termination_reason = Some("app_restart".to_owned());
    Some(r)
}

/// Recovery interrupts a stale session once: what it leaves is no longer
/// live, so recovering again, at any later time, changes nothing.
pub proof fn lemma_recovery_happens_once(session: TerminalSession, recovered: TerminalSession, now: i64)
    requires
        is_live(session.status),
        is_recovery_of(recovered, session, now),
    ensures
        !is_live(recovered.status),
        recovered.id == session.id,
        recovered.workspace_id == session.workspace_id,
{
}

/// The sessions still live, in their order.
pub open spec fn live_sessions(sessions: Seq<TerminalSession>) -> Seq<TerminalSession> {
    sessions.filter(|s: TerminalSession| is_live(s.status))
}

/// Restart recovery over a whole table of stored sessions: the recovered
/// form of every session still live, in their order; their number is what
/// recovery reports. Sessions that are not live are left out, unchanged.
pub fn recover_sessions(sessions: &Vec<TerminalSession>, now: i64) -> (r: Vec<TerminalSession>)
    ensures
        r@.len() == live_sessions(sessions@).len(),
        forall|j: int|
            0 <= j < r@.len() ==> is_recovery_of(#[trigger] r@[j], live_sessions(sessions@)[j], now),
{
    let mut r: Vec<TerminalSession> = Vec::new();
    let mut i: usize = 0;
    while i < sessions.len()
        invariant
            i <= sessions@.len(),
            r@.len() == live_sessions(sessions@.take(i as int)).len(),
            forall|j: int|
                0 <= j < r@.len() ==> is_recovery_of(
                    #[trigger] r@[j],
                    live_sessions(sessions@.take(i as int))[j],
                    now,
                ),
        decreases sessions@.len() - i,
    {
        let ghost prefix = sessions@.take(i as int);
        assert(sessions@.take(i + 1).drop_last() =~= prefix);
        assert(sessions@.take(i + 1).last() == sessions@[i as int]);
        reveal_with_fuel(Seq::filter, 1);
        match recover_interrupted(&sessions[i], now) {
            Some(recovered) => {
                r.push(recovered);
                assert(live_sessions(sessions@.take(i + 1)) =~= live_sessions(prefix).push(
                    sessions@[i as int],
                ));
            },
            None => {
                assert(live_sessions(sessions@.take(i + 1)) =~= live_sessions(prefix));
            },
        }
        i = i + 1;
    }
    assert(sessions@.take(sessions@.len() as int) =~= sessions@);
    r
}

/// The table after restart recovery at `now`: every live session replaced by
/// its recovered form, every other session as it was.
pub open spec fn recovered_table(
    before: Seq<TerminalSession>,
    after: Seq<TerminalSession>,
    now: i64,
) -> bool {
    &&& after.len() == before.len()
    &&& forall|i: int|
        0 <= i < before.len() ==> if is_live((#[trigger] before[i]).status) {
            is_recovery_of(after[i], before[i], now)
        } else {
            after[i] == before[i]
        }
}

/// Recovery over the whole table happens once: after it, no session is live,
/// so recovering again, at any later time, interrupts nothing and changes
/// nothing; and no session was relaunched or lost on the way.
pub proof fn lemma_table_recovery_happens_once(
    before: Seq<TerminalSession>,
    after: Seq<TerminalSession>,
    now: i64,
)
    requires
        recovered_table(before, after, now),
    ensures
        live_sessions(after).len() == 0,
        forall|i: int|
            0 <= i < after.len() ==> (#[trigger] after[i]).id == before[i].id && after[i].workspace_id
                == before[i].workspace_id && !is_live(after[i].status),
{
    assert forall|i: int| 0 <= i < after.len() implies !is_live((#[trigger] after[i]).status) by {
        assert(is_live(before[i].status) || after[i] == before[i]);
    }
    lemma_no_live_sessions(after);
}

proof fn lemma_no_live_sessions(sessions: Seq<TerminalSession>)
    requires
        forall|i: int| 0 <= i < sessions.len() ==> !is_live((#[trigger] sessions[i]).status),
    ensures
        live_sessions(sessions).len() == 0,
    decreases sessions.len(),
{
    reveal_with_fuel(Seq::filter, 1);
    if sessions.len() > 0 {
        let rest = sessions.drop_last();
        assert forall|i: int| 0 <= i < rest.len() implies !is_live((#[trigger] rest[i]).status) by {
            assert(rest[i] == sessions[i]);
        }
        lemma_no_live_sessions(rest);
    }
}

/// The lifecycle event that a session reaching `status` records.
pub open spec fn event_kind_of(status: TerminalStatus) -> LifecycleEventKind {
    match status {
        TerminalStatus::Starting => LifecycleEventKind::Created,
        TerminalStatus::Running => LifecycleEventKind::Running,
        TerminalStatus::Exited => LifecycleEventKind::Exited,
        TerminalStatus::Failed => LifecycleEventKind::Failed,
        TerminalStatus::Stopped => LifecycleEventKind::Stopped,
        TerminalStatus::Interrupted => LifecycleEventKind::Interrupted,
    }
}

/// The event numbered `sequence` that records `session` reaching its
/// current status at `now`, with its exit code and reason.
pub open spec fn lifecycle_event_spec(session: TerminalSession, sequence: i64, now: i64) -> SessionLifecycleEvent {
    SessionLifecycleEvent {
        terminal_id: session.id,
        sequence,
        kind: event_kind_of(session.status),
        status: session.status,
        occurred_at: now,
        exit_code: session.exit_code,
        reason: session.termination_reason,
    }
}

/// The lifecycle event that records a session's new status.
pub fn lifecycle_event(session: &TerminalSession, sequence: i64, now: i64) -> (r: SessionLifecycleEvent)
    ensures
        r == lifecycle_event_spec(*session, sequence, now),
{
    let kind = match session.status {
        TerminalStatus::Starting => LifecycleEventKind::Created,
        TerminalStatus::Running => LifecycleEventKind::Running,
        TerminalStatus::Exited => LifecycleEventKind::Exited,
        TerminalStatus::Failed => LifecycleEventKind::Failed,
        TerminalStatus::Stopped => LifecycleEventKind::Stopped,
        TerminalStatus::Interrupted => LifecycleEventKind::Interrupted,
    };
    SessionLifecycleEvent {
        terminal_id: session.id.clone(),
        sequence,
        kind,
        status: session.status,
        occurred_at: now,
        exit_code: session.exit_code,
        reason: clone_opt_string(&session.termination_reason),
    }
}

/// A session interrupted by restart recovery records one `Interrupted`
/// event, at the recovery time, with the reason `app_restart`.
pub proof fn lemma_recovery_records_interruption(
    session: TerminalSession,
    recovered: TerminalSession,
    sequence: i64,
    now: i64,
)
    requires
        is_live(session.status),
        is_recovery_of(recovered, session, now),
    ensures
        lifecycle_event_spec(recovered, sequence, now).kind == LifecycleEventKind::Interrupted,
        lifecycle_event_spec(recovered, sequence, now).status == TerminalStatus::Interrupted,
        lifecycle_event_spec(recovered, sequence, now).terminal_id == session.id,
        lifecycle_event_spec(recovered, sequence, now).reason matches Some(t) && t@ == "app_restart"@,
{
}

/// Bytes retained, as stored: the total, or the largest `i64` when larger.
pub open spec fn stored_bytes(sizes: Seq<u64>) -> i64 {
    if total_bytes(sizes) <= i64::MAX {
        total_bytes(sizes) as i64
    } else {
        i64::MAX
    }
}

/// The summary of a terminal's retained log: `sequences` and `sizes` are
/// the retained chunks, oldest first; `truncated` says whether older output
/// was ever dropped to keep the log within its limit. A log that lost
/// nothing is complete.
pub fn log_index(
    terminal_id: &TerminalId,
    sequences: &Vec<i64>,
    sizes: &Vec<u64>,
    truncated: bool,
    updated_at: i64,
) -> (r: TerminalLogIndex)
    requires
        sequences@.len() == sizes@.len(),
    ensures
        r.terminal_id == *terminal_id,
        r.first_sequence == (if sequences@.len() == 0 { None } else { Some(sequences@[0]) }),
        r.last_sequence == (if sequences@.len() == 0 { None } else { Some(sequences@.last()) }),
        r.chunk_count == (if sequences@.len() <= i64::MAX { sequences@.len() as i64 } else { i64::MAX }),
        r.retained_bytes == stored_bytes(sizes@),
        r.coverage == (if truncated { TerminalLogCoverage::Truncated } else { TerminalLogCoverage::Complete }),
        r.updated_at == updated_at,
{
    let n = sizes.len();
    let mut k: usize = n;
    let mut kept: u64 = 0;
    assert(sizes@.skip(n as int) =~= Seq::<u64>::empty());
    while k > 0
        invariant
            n == sizes@.len(),
            k <= n,
            kept <= i64::MAX,
            kept == (if total_bytes(sizes@.skip(k as int)) <= i64::MAX {
                total_bytes(sizes@.skip(k as int))
            } else {
                i64::MAX as int
            }),
        decreases k,
    {
        proof {
            lemma_total_bytes_step(sizes@, k - 1);
        }
        let size = sizes[k - 1];
        if kept == 9223372036854775807u64 || size > 9223372036854775807u64 - kept {
            kept = 9223372036854775807u64;
        } else {
            kept = kept + size;
        }
        k = k - 1;
    }
    assert(sizes@.skip(0) =~= sizes@);
    let chunk_count: i64 = if (n as u64) <= 9223372036854775807u64 {
        n as i64
    } else {
        9223372036854775807i64
    };
    TerminalLogIndex {
        terminal_id: terminal_id.clone(),
        first_sequence: if n == 0 { None } else { Some(sequences[0]) },
        last_sequence: if n == 0 { None } else { Some(sequences[n - 1]) },
        chunk_count,
        retained_bytes: kept as i64,
        coverage: if truncated { TerminalLogCoverage::Truncated } else { TerminalLogCoverage::Complete },
        updated_at,
    }
}

/// Only a session whose process has ended can be deleted.
pub fn check_deletable(session: &TerminalSession) -> (r: Result<(), TerminalError>)
    ensures
        is_live(session.status) ==> r matches Err(TerminalError::StillRunning),
        !is_live(session.status) ==> r is Ok,
{
    if is_live_status(session.status) {
        Err(TerminalError::StillRunning)
    } else {
        Ok(())
    }
}

/// A scoped update must touch exactly one stored session; otherwise the
/// session is not in that workspace.
pub fn ensure_changed(changed: usize, terminal_id: &TerminalId) -> (r: Result<(), TerminalError>)
    ensures
        changed == 1 ==> r is Ok,
        changed != 1 ==> r == Err::<(), TerminalError>(TerminalError::NotFound(*terminal_id)),
{
    if changed == 1 {
        Ok(())
    } else {
        Err(TerminalError::not_found(terminal_id))
    }
}

/// Sum of the sizes of a run of log chunks.
pub open spec fn total_bytes(sizes: Seq<u64>) -> int
    decreases sizes.len(),
{
    if sizes.len() == 0 {
        0
    } else {
        sizes[0] + total_bytes(sizes.drop_first())
    }
}

pub proof fn lemma_total_bytes_step(sizes: Seq<u64>, k: int)
    requires
        0 <= k < sizes.len(),
    ensures
        total_bytes(sizes.skip(k)) == sizes[k] + total_bytes(sizes.skip(k + 1)),
{
    assert(sizes.skip(k).drop_first() =~= sizes.skip(k + 1));
}

pub proof fn lemma_total_bytes_monotone(sizes: Seq<u64>, j: int, k: int)
    requires
        0 <= j <= k <= sizes.len(),
    ensures
        total_bytes(sizes.skip(j)) >= total_bytes(sizes.skip(k)),
    decreases k - j,
{
    if j < k {
        lemma_total_bytes_step(sizes, j);
        lemma_total_bytes_monotone(sizes, j + 1, k);
    }
}

/// How many of the oldest chunks are dropped so that what remains fits in
/// `limit` bytes: the fewest that suffice. The log keeps the newest run of
/// chunks whose total is within the limit.
pub fn chunks_to_drop(sizes: &Vec<u64>, limit: u64) -> (k: usize)
    ensures
        k <= sizes@.len(),
        total_bytes(sizes@.skip(k as int)) <= limit,
        forall|j: int| 0 <= j < k ==> total_bytes(sizes@.skip(j)) > limit,
{
    let n = sizes.len();
    let mut k: usize = n;
    let mut kept: u64 = 0;
    assert(sizes@.skip(n as int) =~= Seq::<u64>::empty());
    while k > 0 && sizes[k - 1] <= limit - kept
        invariant
            n == sizes@.len(),
            k <= n,
            kept <= limit,
            kept == total_bytes(sizes@.skip(k as int)),
        decreases k,
    {
        proof {
            lemma_total_bytes_step(sizes@, k - 1);
        }
        kept = kept + sizes[k - 1];
        k = k - 1;
    }
    proof {
        if k > 0 {
            lemma_total_bytes_step(sizes@, k - 1);
            assert forall|j: int| 0 <= j < k implies total_bytes(sizes@.skip(j)) > limit by {
                lemma_total_bytes_monotone(sizes@, j, k - 1);
            }
        }
    }
    k
}

/// After a chunk is appended and the log trimmed, the newest chunk survives
/// whenever it fits in the limit by itself.
pub proof fn lemma_newest_chunk_kept(sizes: Seq<u64>, limit: u64, k: int)
    requires
        sizes.len() > 0,
        sizes.last() <= limit,
        0 <= k <= sizes.len(),
        forall|j: int| 0 <= j < k ==> total_bytes(sizes.skip(j)) > limit,
    ensures
        k < sizes.len(),
{
    lemma_total_bytes_step(sizes, sizes.len() - 1);
    assert(sizes.skip(sizes.len() as int) =~= Seq::<u64>::empty());
}

/// Largest value SQLite stores in an `INTEGER`.
pub const SQLITE_INTEGER_MAX: u64 = 9223372036854775807;

pub open spec fn is_digit_spec(c: char) -> bool {
    '0' <= c <= '9'
}

/// The digits that `s` starts with.
pub open spec fn leading_digits(s: Seq<char>) -> Seq<char>
    decreases s.len(),
{
    if s.len() > 0 && is_digit_spec(s[0]) {
        seq![s[0]] + leading_digits(s.drop_first())
    } else {
        Seq::empty()
    }
}

/// The number a run of decimal digits writes.
pub open spec fn digits_value(digits: Seq<char>) -> nat
    decreases digits.len(),
{
    if digits.len() == 0 {
        0
    } else {
        digits_value(digits.drop_last()) * 10 + ((digits.last() as u32) - ('0' as u32)) as nat
    }
}

/// What SQLite's `CAST(.. AS INTEGER)` makes of text that starts with digits:
/// the number of its leading digits, capped at the largest `INTEGER`.
pub open spec fn cast_integer_prefix(s: Seq<char>) -> nat {
    let v = digits_value(leading_digits(s));
    if v <= SQLITE_INTEGER_MAX {
        v
    } else {
        SQLITE_INTEGER_MAX as nat
    }
}

/// A title of the form `Shell <digit>...`, matched by `GLOB 'Shell [0-9]*'`.
pub open spec fn is_shell_title(title: Seq<char>) -> bool {
    title.len() >= 7 && title.take(6) == "Shell "@ && is_digit_spec(title[6])
}

/// The largest shell number among the titles, 0 when none is a shell title.
pub open spec fn max_shell_number(titles: Seq<Seq<char>>) -> nat
    decreases titles.len(),
{
    if titles.len() == 0 {
        0
    } else {
        let rest = max_shell_number(titles.drop_last());
        let t = titles.last();
        if is_shell_title(t) && cast_integer_prefix(t.skip(6)) > rest {
            cast_integer_prefix(t.skip(6))
        } else {
            rest
        }
    }
}

pub proof fn lemma_leading_digits_step(s: Seq<char>, i: int)
    requires
        0 <= i < s.len(),
        forall|k: int| 0 <= k < i ==> is_digit_spec(#[trigger] s[k]),
    ensures
        leading_digits(s) == leading_digits(s).take(i) + leading_digits(s.skip(i)),
        leading_digits(s).take(i) == s.take(i),
        leading_digits(s).len() >= i,
    decreases i,
{
    if i > 0 {
        assert forall|k: int| 0 <= k < i - 1 implies is_digit_spec(#[trigger] s.drop_first()[k]) by {
            assert(s.drop_first()[k] == s[k + 1]);
        }
        lemma_leading_digits_step(s.drop_first(), i - 1);
        assert(s.drop_first().skip(i - 1) =~= s.skip(i));
        assert(leading_digits(s).take(i) =~= seq![s[0]] + leading_digits(s.drop_first()).take(i - 1));
        assert(s.take(i) =~= seq![s[0]] + s.drop_first().take(i - 1));
        assert(leading_digits(s) =~= leading_digits(s).take(i) + leading_digits(s.skip(i)));
    } else {
        assert(s.skip(0) =~= s);
        assert(leading_digits(s).take(0) =~= Seq::<char>::empty());
        assert(s.take(0) =~= Seq::<char>::empty());
        assert(leading_digits(s) =~= leading_digits(s).take(0) + leading_digits(s.skip(0)));
    }
}

proof fn lemma_digit(d: nat)
    requires
        d < 10,
    ensures
        digit_spec(d).len() == 1,
        is_digit_spec(digit_spec(d)[0]),
        (digit_spec(d)[0] as u32) - ('0' as u32) == d,
{
    reveal_strlit("0123456789");
    assert(digit_spec(d)[0] == "0123456789"@[d as int]);
}

/// A decimal representation is all digits and reads back as its number.
pub proof fn lemma_decimal_reads_back(n: nat)
    ensures
        decimal_spec(n).len() >= 1,
        forall|k: int| 0 <= k < decimal_spec(n).len() ==> is_digit_spec(#[trigger] decimal_spec(n)[k]),
        digits_value(decimal_spec(n)) == n,
    decreases n,
{
    if n < 10 {
        lemma_digit(n);
        let s = decimal_spec(n);
        assert(s.drop_last() =~= Seq::<char>::empty());
        assert(s.last() == s[0]);
        assert(digits_value(s) == digits_value(s.drop_last()) * 10 + ((s.last() as u32) - ('0' as u32)) as nat);
        assert(digits_value(s.drop_last()) == 0);
    } else {
        lemma_decimal_reads_back(n / 10);
        lemma_digit(n % 10);
        let head = decimal_spec(n / 10);
        let s = decimal_spec(n);
        assert(s == head + digit_spec(n % 10));
        assert(s.drop_last() =~= head);
        assert(s.last() == digit_spec(n % 10)[0]);
        assert forall|k: int| 0 <= k < s.len() implies is_digit_spec(#[trigger] s[k]) by {
            if k < head.len() {
                assert(s[k] == head[k]);
            }
        }
        assert(n == (n / 10) * 10 + n % 10) by (nonlinear_arith);
        assert(digits_value(s) == digits_value(head) * 10 + ((s.last() as u32) - ('0' as u32)) as nat);
        assert(digits_value(head) * 10 == (n / 10) * 10);
    }
}

/// Text made only of digits is its own run of leading digits.
proof fn lemma_all_digits_lead(s: Seq<char>)
    requires
        forall|k: int| 0 <= k < s.len() ==> is_digit_spec(#[trigger] s[k]),
    ensures
        leading_digits(s) == s,
    decreases s.len(),
{
    if s.len() > 0 {
        assert forall|k: int| 0 <= k < s.drop_first().len() implies is_digit_spec(
            #[trigger] s.drop_first()[k],
        ) by {
            assert(s.drop_first()[k] == s[k + 1]);
        }
        lemma_all_digits_lead(s.drop_first());
        assert(s =~= seq![s[0]] + s.drop_first());
    }
}

proof fn lemma_max_shell_number_bounds(titles: Seq<Seq<char>>, i: int)
    requires
        0 <= i < titles.len(),
        is_shell_title(titles[i]),
    ensures
        cast_integer_prefix(titles[i].skip(6)) <= max_shell_number(titles),
    decreases titles.len(),
{
    if i < titles.len() - 1 {
        lemma_max_shell_number_bounds(titles.drop_last(), i);
    }
}

/// The largest shell number is the largest: no shell title carries a larger
/// number, and unless it is 0 some shell title carries exactly it.
pub proof fn lemma_max_shell_number_is_largest(titles: Seq<Seq<char>>)
    ensures
        forall|i: int|
            0 <= i < titles.len() && is_shell_title(#[trigger] titles[i]) ==> cast_integer_prefix(
                titles[i].skip(6),
            ) <= max_shell_number(titles),
        max_shell_number(titles) > 0 ==> exists|i: int|
            0 <= i < titles.len() && is_shell_title(#[trigger] titles[i]) && cast_integer_prefix(
                titles[i].skip(6),
            ) == max_shell_number(titles),
    decreases titles.len(),
{
    assert forall|i: int|
        0 <= i < titles.len() && is_shell_title(#[trigger] titles[i]) implies cast_integer_prefix(
        titles[i].skip(6),
    ) <= max_shell_number(titles) by {
        lemma_max_shell_number_bounds(titles, i);
    }
    if titles.len() > 0 {
        let rest = titles.drop_last();
        lemma_max_shell_number_is_largest(rest);
        let t = titles.last();
        if is_shell_title(t) && cast_integer_prefix(t.skip(6)) > max_shell_number(rest) {
            assert(titles[titles.len() - 1] == t);
        } else if max_shell_number(titles) > 0 {
            let i = choose|i: int|
                0 <= i < rest.len() && is_shell_title(#[trigger] rest[i]) && cast_integer_prefix(
                    rest[i].skip(6),
                ) == max_shell_number(rest);
            assert(titles[i] == rest[i]);
        }
    }
}

/// The automatic title of a new shell terminal differs from every title in
/// the workspace, as long as the shell numbers stay below SQLite's largest
/// integer.
pub proof fn lemma_shell_title_is_new(titles: Seq<Seq<char>>)
    requires
        max_shell_number(titles) < SQLITE_INTEGER_MAX,
    ensures
        forall|i: int|
            0 <= i < titles.len() ==> titles[i] != "Shell "@ + decimal_spec(
                max_shell_number(titles) + 1,
            ),
{
    let m = max_shell_number(titles);
    let next = "Shell "@ + decimal_spec(m + 1);
    reveal_strlit("Shell ");
    lemma_decimal_reads_back(m + 1);
    assert(next.skip(6) =~= decimal_spec(m + 1));
    assert(next.take(6) =~= "Shell "@);
    assert(next[6] == decimal_spec(m + 1)[0]);
    lemma_all_digits_lead(decimal_spec(m + 1));
    assert(is_shell_title(next));
    assert(cast_integer_prefix(next.skip(6)) == m + 1);
    assert forall|i: int| 0 <= i < titles.len() implies titles[i] != next by {
        if titles[i] == next {
            lemma_max_shell_number_bounds(titles, i);
        }
    }
}

/// SQLite's integer cast of the text after `Shell `.
fn shell_number(title: &str) -> (r: u64)
    requires
        title@.len() >= 6,
    ensures
        r == cast_integer_prefix(title@.skip(6)),
{
    let n = title.unicode_len();
    let mut i: usize = 6;
    let mut value: u64 = 0;
    let ghost rest = title@.skip(6);
    assert(rest.take(0) =~= Seq::<char>::empty());
    while i < n && is_ascii_digit(title.get_char(i))
        invariant
            n == title@.len(),
            6 <= i <= n,
            rest == title@.skip(6),
            forall|k: int| 0 <= k < i - 6 ==> is_digit_spec(#[trigger] rest[k]),
            value == if digits_value(rest.take(i - 6)) <= SQLITE_INTEGER_MAX {
                digits_value(rest.take(i - 6))
            } else {
                SQLITE_INTEGER_MAX as nat
            },
        decreases n - i,
    {
        let c = title.get_char(i);
        let d = (c as u32 - '0' as u32) as u64;
        let ghost before = rest.take(i - 6);
        let ghost true_before = digits_value(before);
        assert(rest.take(i - 5).drop_last() =~= before);
        assert(rest.take(i - 5).last() == c);
        assert(digits_value(rest.take(i - 5)) == true_before * 10 + d);
        if value > (SQLITE_INTEGER_MAX - d) / 10 {
            assert(true_before * 10 + d > SQLITE_INTEGER_MAX) by (nonlinear_arith)
                requires
                    value > (SQLITE_INTEGER_MAX - d) / 10,
                    true_before >= value,
                    d <= 9,
            ;
            value = SQLITE_INTEGER_MAX;
        } else {
            assert(true_before == value && value * 10 + d <= SQLITE_INTEGER_MAX) by (nonlinear_arith)
                requires
                    value <= (SQLITE_INTEGER_MAX - d) / 10,
                    value == if true_before <= SQLITE_INTEGER_MAX {
                        true_before
                    } else {
                        SQLITE_INTEGER_MAX as nat
                    },
                    d <= 9,
            ;
            value = value * 10 + d;
        }
        i = i + 1;
    }
    proof {
        let k = i - 6;
        if i < n {
            lemma_leading_digits_step(rest, k);
            assert(rest.skip(k)[0] == rest[k]);
            assert(leading_digits(rest.skip(k)) =~= Seq::<char>::empty());
            assert(leading_digits(rest) =~= rest.take(k));
        } else {
            assert(forall|j: int| 0 <= j < rest.len() ==> is_digit_spec(#[trigger] rest[j]));
            if k > 0 {
                lemma_leading_digits_step(rest, k - 1);
                assert(rest.skip(k - 1) =~= seq![rest[k - 1]]);
                assert(leading_digits(rest.skip(k - 1)) =~= seq![rest[k - 1]] + leading_digits(
                    rest.skip(k - 1).drop_first(),
                ));
                assert(rest.skip(k - 1).drop_first() =~= Seq::<char>::empty());
                assert(leading_digits(rest) =~= rest.take(k));
            } else {
                assert(rest =~= Seq::<char>::empty());
            }
            assert(rest.take(k) =~= rest);
        }
    }
    value
}

fn is_ascii_digit(c: char) -> (r: bool)
    ensures
        r == is_digit_spec(c),
{
    '0' <= c && c <= '9'
}

/// The automatic title of a new shell terminal: `Shell N`, where `N` is one
/// more than the largest number among the workspace's `Shell <digits>`
/// titles (SQLite reads the number after `Shell ` as an integer).
pub fn shell_title(titles: &Vec<String>) -> (r: String)
    ensures
        r@ == "Shell "@ + decimal_spec(max_shell_number(titles@.map_values(|t: String| t@)) + 1),
{
    let ghost views = titles@.map_values(|t: String| t@);
    let mut best: u64 = 0;
    let mut i: usize = 0;
    proof {
        reveal_strlit("Shell ");
    }
    assert(views.take(0) =~= Seq::<Seq<char>>::empty());
    while i < titles.len()
        invariant
            i <= titles@.len(),
            views == titles@.map_values(|t: String| t@),
            best == max_shell_number(views.take(i as int)),
            best <= SQLITE_INTEGER_MAX,
        decreases titles@.len() - i,
    {
        let t = titles[i].as_str();
        assert(views.take(i + 1).drop_last() =~= views.take(i as int));
        assert(views.take(i + 1).last() == t@);
        let n = t.unicode_len();
        if n >= 7 && t.get_char(6) >= '0' && t.get_char(6) <= '9'
            && str_eq(t.substring_char(0, 6), "Shell ") {
            assert(t@.subrange(0, 6) =~= t@.take(6));
            let v = shell_number(t);
            if v > best {
                best = v;
            }
        } else {
            proof {
                if n >= 7 && is_digit_spec(t@[6]) {
                    assert(t@.subrange(0, 6) =~= t@.take(6));
                }
            }
        }
        i = i + 1;
    }
    assert(views.take(titles@.len() as int) =~= views);
    join_str("Shell ", decimal_text(best as u128 + 1).as_str())
}

/// The record a new terminal session is stored as: starting, created now,
/// with nothing yet started or ended.
pub fn created_record(new: NewTerminalSession, title: String) -> (r: TerminalSession)
    ensures
        r.id == new.id,
        r.workspace_id == new.workspace_id,
        r.title == title,
        r.shell == new.shell,
        r.cwd == new.cwd,
        r.status == TerminalStatus::Starting,
        r.cols == new.cols,
        r.rows == new.rows,
        r.created_at == new.now,
        r.started_at is None,
        r.ended_at is None,
        r.exit_code is None,
        r.termination_reason is None,
        r.session_kind == new.session_kind,
{
    TerminalSession {
        id: new.id,
        workspace_id: new.workspace_id,
        title,
        shell: new.shell,
        cwd: new.cwd,
        status: TerminalStatus::Starting,
        cols: new.cols,
        rows: new.rows,
        created_at: new.now,
        started_at: None,
        ended_at: None,
        exit_code: None,
        termination_reason: None,
        session_kind: new.session_kind,
    }
}

/// Whether a workspace has a session whose process may still be alive.
pub open spec fn has_live_spec(sessions: Seq<TerminalSession>, workspace_id: Seq<char>) -> bool {
    exists|i: int|
        0 <= i < sessions.len() && (#[trigger] sessions[i]).workspace_id@ == workspace_id && is_live(
            sessions[i].status,
        )
}

pub fn has_live(sessions: &Vec<TerminalSession>, workspace_id: &WorkspaceId) -> (r: bool)
    ensures
        r == has_live_spec(sessions@, workspace_id@),
{
    let mut i: usize = 0;
    while i < sessions.len()
        invariant
            i <= sessions@.len(),
            forall|k: int|
                0 <= k < i ==> !((#[trigger] sessions@[k]).workspace_id@ == workspace_id@ && is_live(
                    sessions@[k].status,
                )),
        decreases sessions@.len() - i,
    {
        if sessions[i].workspace_id == *workspace_id && is_live_status(sessions[i].status) {
            return true;
        }
        i = i + 1;
    }
    false
}

/// A workspace can be removed only when none of its terminals may still run.
pub fn check_workspace_removable(sessions: &Vec<TerminalSession>, workspace_id: &WorkspaceId) -> (r:
    Result<(), TerminalError>)
    ensures
        has_live_spec(sessions@, workspace_id@) ==> r matches Err(
            TerminalError::WorkspaceHasRunningTerminals,
        ),
        !has_live_spec(sessions@, workspace_id@) ==> r is Ok,
{
    if has_live(sessions, workspace_id) {
        Err(TerminalError::WorkspaceHasRunningTerminals)
    } else {
        Ok(())
    }
}

} // verus!



