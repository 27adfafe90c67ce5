//! Session records, their timestamps, and the shell commands that start or
//! resume a CLI tool.

use vstd::prelude::*;
use crate::text::{decimal, push_decimal, owned, str_equal, string_views};
use crate::config::CliToolConfig;

verus! {

/// An instant as chrono's `DateTime<Utc>` gives it: whole seconds since
/// the Unix epoch and the nanoseconds past that second (which exceed
/// 999,999,999 only within a leap second).
#[derive(Debug, Clone, Copy, PartialEq, Eq, Structural)]
pub struct Timestamp {
    pub secs: i64,
    pub nanos: u32,
}

/// `a` is strictly later than `b`; this is the order of chrono's
/// `DateTime`, which compares the second and then the nanoseconds.
pub open spec fn later_than(a: Timestamp, b: Timestamp) -> bool {
    a.secs > b.secs || (a.secs == b.secs && a.nanos > b.nanos)
}

/// Whether `a` is strictly later than `b`.
pub fn is_later(a: Timestamp, b: Timestamp) -> (r: bool)
    ensures
        r == later_than(a, b),
{
    a.secs > b.secs || (a.secs == b.secs && a.nanos > b.nanos)
}

/// The instant that `DateTime::parse_from_rfc3339` reads from `text`, as
/// seconds and nanoseconds in UTC; `None` when it rejects the text.
pub uninterp spec fn rfc3339_instant(text: Seq<char>) -> Option<(i64, u32)>;

/// Calls `chrono::DateTime::parse_from_rfc3339` and converts the result to
/// UTC seconds and nanoseconds. What the parser accepts is named
/// `rfc3339_instant`, not restated.
#[verifier::external_body]
pub fn parse_rfc3339(text: &str) -> (r: Option<(i64, u32)>)
    ensures
        r == rfc3339_instant(text@),
{
    match chrono::DateTime::parse_from_rfc3339(text) {
        Ok(dt) => {
            let utc = dt.with_timezone(&chrono::Utc);
            Some((utc.timestamp(), utc.timestamp_subsec_nanos()))
        },
        Err(_) => None,
    }
}

/// Reads the system clock: `SystemTime::now().duration_since(UNIX_EPOCH)`,
/// as the `Duration`'s whole seconds and the nanoseconds past them; `None`
/// when the clock reads earlier than the Unix epoch. Of a reading, only
/// what `Duration` documents is stated: the nanoseconds are below one
/// billion.
#[verifier::external_body]
fn read_clock() -> (r: Option<(u64, u32)>)
    ensures
        r matches Some((_, nanos)) ==> nanos < 1_000_000_000,
{
    match std::time::SystemTime::now().duration_since(std::time::UNIX_EPOCH) {
        Ok(d) => Some((d.as_secs(), d.subsec_nanos())),
        Err(_) => None,
    }
}

/// The current time in UTC; `None` when the clock reads earlier than the
/// Unix epoch or so late that its seconds do not fit an `i64`.
pub fn utc_now() -> (r: Option<Timestamp>)
    ensures
        r matches Some(t) ==> t.secs >= 0 && t.nanos < 1_000_000_000,
{
    match read_clock() {
        Some((secs, nanos)) => if secs <= i64::MAX as u64 {
            Some(Timestamp { secs: secs as i64, nanos })
        } else {
            None
        },
        None => None,
    }
}

/// The times that a list of clock readings stands for.
pub open spec fn clock_times(clock: Seq<Option<Timestamp>>) -> Seq<Timestamp> {
    clock.map_values(|c: Option<Timestamp>| reading_or_epoch(c))
}

/// The Unix epoch.
pub open spec fn epoch() -> Timestamp {
    Timestamp { secs: 0, nanos: 0 }
}

/// A clock reading, or the Unix epoch when the clock could not be read.
pub open spec fn reading_or_epoch(clock: Option<Timestamp>) -> Timestamp {
    match clock {
        Some(t) => t,
        None => epoch(),
    }
}

/// A clock reading, or the Unix epoch when the clock could not be read.
pub fn clock_or_epoch(clock: Option<Timestamp>) -> (r: Timestamp)
    ensures
        r == reading_or_epoch(clock),
{
    match clock {
        Some(t) => t,
        None => Timestamp { secs: 0, nanos: 0 },
    }
}

/// The whole seconds from the earlier to the later instant, as chrono's
/// `signed_duration_since(..).num_seconds()` counts them (truncated toward
/// zero, leap seconds included); `None` when `DateTime::from_timestamp`
/// cannot represent one of the two instants.
pub uninterp spec fn seconds_between(
    later_secs: i64,
    later_nanos: u32,
    earlier_secs: i64,
    earlier_nanos: u32,
) -> Option<i64>;

/// Calls `DateTime::from_timestamp` on both instants, then
/// `signed_duration_since` and `TimeDelta::num_seconds`. The result is
/// named `seconds_between`.
#[verifier::external_body]
pub fn elapsed_seconds(later: Timestamp, earlier: Timestamp) -> (r: Option<i64>)
    ensures
        r == seconds_between(later.secs, later.nanos, earlier.secs, earlier.nanos),
{
    match chrono::DateTime::from_timestamp(later.secs, later.nanos) {
        Some(a) => match chrono::DateTime::from_timestamp(earlier.secs, earlier.nanos) {
            Some(b) => Some(a.signed_duration_since(b).num_seconds()),
            None => None,
        },
        None => None,
    }
}

/// How long ago something happened, given the whole seconds elapsed:
/// "just now" under a minute, then whole minutes, hours, days, and
/// 30-day months.
pub open spec fn age_text(secs: int) -> Seq<char> {
    if secs < 60 {
        "just now"@
    } else if secs / 60 < 60 {
        decimal((secs / 60) as nat) + "m ago"@
    } else if secs / 3600 < 24 {
        decimal((secs / 3600) as nat) + "h ago"@
    } else if secs / 86400 < 30 {
        decimal((secs / 86400) as nat) + "d ago"@
    } else {
        decimal((secs / 86400 / 30) as nat) + "mo ago"@
    }
}

/// Describes an age of `secs` whole seconds.
pub fn describe_age(secs: i64) -> (r: String)
    ensures
        r@ == age_text(secs as int),
{
    if secs < 60 {
        return owned("just now");
    }
    let s = secs as u64;
    let mut r = String::new();
    if s / 60 < 60 {
        push_decimal(&mut r, s / 60);
        r.append("m ago");
    } else if s / 3600 < 24 {
        push_decimal(&mut r, s / 3600);
        r.append("h ago");
    } else if s / 86400 < 30 {
        push_decimal(&mut r, s / 86400);
        r.append("d ago");
    } else {
        push_decimal(&mut r, s / 86400 / 30);
        r.append("mo ago");
    }
    r
}

/// A past session of a CLI tool.
#[derive(Debug)]
pub struct SessionInfo {
    pub id: String,
    pub summary: String,
    pub cwd: String,
    pub updated_at: Timestamp,
}

/// What a session record holds, as plain values.
pub struct SessionView {
    pub id: Seq<char>,
    pub summary: Seq<char>,
    pub cwd: Seq<char>,
    pub updated_at: Timestamp,
}

impl View for SessionInfo {
    type V = SessionView;

    open spec fn view(&self) -> SessionView {
        SessionView { id: self.id@, summary: self.summary@, cwd: self.cwd@, updated_at: self.updated_at }
    }
}

impl Clone for SessionInfo {
    fn clone(&self) -> (r: Self)
        ensures
            r == *self,
    {
        SessionInfo {
            id: self.id.clone(),
            summary: self.summary.clone(),
            cwd: self.cwd.clone(),
            updated_at: self.updated_at,
        }
    }
}

impl SessionInfo {
    /// The time since the last update, in words. The current time is read
    /// from the clock; whatever the reading, the text is `age_between` that
    /// reading (the Unix epoch when the clock cannot be read) and
    /// `updated_at`.
    pub fn time_ago(&self) -> (r: String)
        ensures
            exists|clock: Option<Timestamp>| r@ == age_between(reading_or_epoch(clock), self.updated_at),
    {
        let clock = utc_now();
        self.time_ago_at(clock_or_epoch(clock))
    }

    /// The time between `updated_at` and `now`, in words.
    pub fn time_ago_at(&self, now: Timestamp) -> (r: String)
        ensures
            r@ == age_between(now, self.updated_at),
    {
        match elapsed_seconds(now, self.updated_at) {
            Some(secs) => describe_age(secs),
            None => owned("just now"),
        }
    }
}

/// How long before `now` the instant `then` lies, in words: `age_text` of
/// the whole seconds between them, or "just now" when chrono cannot
/// represent one of the two instants.
pub open spec fn age_between(now: Timestamp, then: Timestamp) -> Seq<char> {
    match seconds_between(now.secs, now.nanos, then.secs, then.nanos) {
        Some(secs) => age_text(secs as int),
        None => "just now"@,
    }
}

/// The views of a list of sessions.
pub open spec fn session_views(ss: Seq<SessionInfo>) -> Seq<SessionView> {
    ss.map_values(|s: SessionInfo| s@)
}

/// The position at which `x` enters the recency-ordered `sorted`: before
/// the first entry that `x` is strictly later than.
pub open spec fn recency_slot(sorted: Seq<SessionView>, x: SessionView, from: int) -> int
    decreases sorted.len() - from,
{
    if from >= sorted.len() || from < 0 {
        sorted.len() as int
    } else if later_than(x.updated_at, sorted[from].updated_at) {
        from
    } else {
        recency_slot(sorted, x, from + 1)
    }
}

/// `s` ordered from most to least recent; entries with equal times keep
/// their order (the result of a stable sort by descending `updated_at`).
pub open spec fn by_recency(s: Seq<SessionView>) -> Seq<SessionView>
    decreases s.len(),
{
    if s.len() == 0 {
        s
    } else {
        let sorted = by_recency(s.drop_last());
        sorted.insert(recency_slot(sorted, s.last(), 0), s.last())
    }
}

proof fn lemma_recency_slot_range(sorted: Seq<SessionView>, x: SessionView, from: int)
    requires
        0 <= from <= sorted.len(),
    ensures
        from <= recency_slot(sorted, x, from) <= sorted.len(),
        forall|k: int| from <= k < recency_slot(sorted, x, from) ==> !later_than(
            x.updated_at,
            (#[trigger] sorted[k]).updated_at,
        ),
        recency_slot(sorted, x, from) < sorted.len() ==> later_than(
            x.updated_at,
            sorted[recency_slot(sorted, x, from)].updated_at,
        ),
    decreases sorted.len() - from,
{
    if from < sorted.len() && !later_than(x.updated_at, sorted[from].updated_at) {
        lemma_recency_slot_range(sorted, x, from + 1);
    }
}

/// Orders sessions from most to least recent, keeping the order of
/// sessions updated at the same instant.
pub fn sort_by_recency(sessions: Vec<SessionInfo>) -> (r: Vec<SessionInfo>)
    ensures
        session_views(r@) == by_recency(session_views(sessions@)),
{
    let mut sorted: Vec<SessionInfo> = Vec::new();
    let mut rest = sessions;
    let ghost input = session_views(rest@);
    let mut taken: usize = 0;
    let n = rest.len();
    let mut i: usize = 0;
    while i < n
        invariant
            n == input.len(),
            i <= n,
            rest@.len() == n,
            session_views(rest@) == input,
            session_views(sorted@) == by_recency(input.take(i as int)),
        decreases n - i,
    {
        let x = rest[i].clone();
        let ghost prev = sorted@;
        let mut k: usize = 0;
        while k < sorted.len() && !is_later(x.updated_at, sorted[k].updated_at)
            invariant
                k <= sorted@.len(),
                sorted@ == prev,
                recency_slot(session_views(prev), x@, 0) == recency_slot(session_views(prev), x@, k as int),
            decreases sorted@.len() - k,
        {
            assert(session_views(prev)[k as int] == sorted@[k as int]@);
            k = k + 1;
        }
        proof {
            if k < sorted@.len() {
                assert(session_views(prev)[k as int] == sorted@[k as int]@);
            }
        }
        assert(input.take(i + 1).drop_last() =~= input.take(i as int));
        assert(input.take(i + 1).last() == x@);
        sorted.insert(k, x);
        assert(session_views(sorted@) =~= session_views(prev).insert(k as int, x@));
        i = i + 1;
    }
    assert(input.take(n as int) =~= input);
    sorted
}

/// The session list's result is ordered from most to least recent.
pub proof fn lemma_by_recency_sorted(s: Seq<SessionView>)
    ensures
        by_recency(s).len() == s.len(),
        forall|a: int, b: int|
            0 <= a < b < by_recency(s).len() ==> !later_than(
                (#[trigger] by_recency(s)[b]).updated_at,
                (#[trigger] by_recency(s)[a]).updated_at,
            ),
    decreases s.len(),
{
    if s.len() > 0 {
        let sorted = by_recency(s.drop_last());
        lemma_by_recency_sorted(s.drop_last());
        let x = s.last();
        let p = recency_slot(sorted, x, 0);
        lemma_recency_slot_range(sorted, x, 0);
        let r = sorted.insert(p, x);
        assert forall|a: int, b: int| 0 <= a < b < r.len() implies !later_than(
            (#[trigger] r[b]).updated_at,
            (#[trigger] r[a]).updated_at,
        ) by {
            if a < p && b < p {
                assert(r[a] == sorted[a] && r[b] == sorted[b]);
            } else if a < p && b == p {
                assert(r[a] == sorted[a]);
            } else if a < p && b > p {
                assert(r[a] == sorted[a] && r[b] == sorted[b - 1]);
            } else if a == p {
                assert(r[b] == sorted[b - 1]);
                assert(later_than(x.updated_at, sorted[p].updated_at));
                if p < b - 1 {
                    assert(!later_than(sorted[b - 1].updated_at, sorted[p].updated_at));
                }
            } else {
                assert(r[a] == sorted[a - 1] && r[b] == sorted[b - 1]);
            }
        }
    }
}

/// The session list's result holds the same sessions as its input.
pub proof fn lemma_by_recency_permutes(s: Seq<SessionView>)
    ensures
        by_recency(s).to_multiset() == s.to_multiset(),
    decreases s.len(),
{
    broadcast use vstd::multiset::group_multiset_axioms;
    broadcast use vstd::seq_lib::group_to_multiset_ensures;
    if s.len() > 0 {
        let sorted = by_recency(s.drop_last());
        lemma_by_recency_permutes(s.drop_last());
        let x = s.last();
        let p = recency_slot(sorted, x, 0);
        lemma_recency_slot_range(sorted, x, 0);
        vstd::seq_lib::to_multiset_insert(sorted, p, x);
        vstd::seq_lib::to_multiset_build(s.drop_last(), x);
        assert(s =~= s.drop_last().push(x));
    }
}

/// The fields of a Copilot `workspace.yaml` that sessions are read from.
#[derive(Debug)]
pub struct CopilotWorkspace {
    pub id: String,
    pub cwd: String,
    pub summary: String,
    pub updated_at: Option<String>,
}

/// The instant a workspace was last updated: its `updated_at` when that
/// reads as RFC 3339, else `now`.
pub open spec fn workspace_time(ws: CopilotWorkspace, now: Timestamp) -> Timestamp {
    match ws.updated_at {
        Some(t) => match rfc3339_instant(t@) {
            Some(inst) => Timestamp { secs: inst.0, nanos: inst.1 },
            None => now,
        },
        None => now,
    }
}

/// The session a workspace describes; an empty summary reads
/// "(no summary)".
pub open spec fn workspace_session(ws: CopilotWorkspace, now: Timestamp) -> SessionView {
    SessionView {
        id: ws.id@,
        summary: if ws.summary@.len() == 0 {
            "(no summary)"@
        } else {
            ws.summary@
        },
        cwd: ws.cwd@,
        updated_at: workspace_time(ws, now),
    }
}

/// A workspace belongs to the worktree whose container directory is
/// `workdir` (an empty `workdir` takes every workspace).
pub open spec fn workspace_in(ws: CopilotWorkspace, workdir: Seq<char>) -> bool {
    workdir.len() == 0 || ws.cwd@ == workdir
}

/// The sessions of the workspaces in `wss` that belong to `workdir`, in
/// their order, the `k`-th workspace falling back on `nows[k]` for its time.
pub open spec fn workspace_sessions(
    wss: Seq<CopilotWorkspace>,
    workdir: Seq<char>,
    nows: Seq<Timestamp>,
) -> Seq<SessionView>
    decreases wss.len(),
{
    if wss.len() == 0 {
        Seq::empty()
    } else {
        let prev = workspace_sessions(wss.drop_last(), workdir, nows);
        if workspace_in(wss.last(), workdir) {
            prev.push(workspace_session(wss.last(), nows[wss.len() - 1]))
        } else {
            prev
        }
    }
}

/// With a non-empty container directory, the session list holds exactly
/// the workspaces whose `cwd` is that directory: every listed session has
/// that `cwd`, each such workspace is listed, and nothing else is.
pub proof fn lemma_sessions_belong_to_workdir(
    wss: Seq<CopilotWorkspace>,
    workdir: Seq<char>,
    nows: Seq<Timestamp>,
)
    requires
        workdir.len() > 0,
        nows.len() == wss.len(),
    ensures
        forall|k: int|
            0 <= k < by_recency(workspace_sessions(wss, workdir, nows)).len() ==> (#[trigger] by_recency(
                workspace_sessions(wss, workdir, nows),
            )[k]).cwd == workdir,
        forall|j: int|
            0 <= j < wss.len() && (#[trigger] wss[j]).cwd@ == workdir ==> by_recency(
                workspace_sessions(wss, workdir, nows),
            ).contains(workspace_session(wss[j], nows[j])),
        by_recency(workspace_sessions(wss, workdir, nows)).len() == wss.filter(
            |w: CopilotWorkspace| w.cwd@ == workdir,
        ).len(),
{
    let s = workspace_sessions(wss, workdir, nows);
    lemma_workspace_sessions_at(wss, workdir, nows);
    lemma_by_recency_permutes(s);
    lemma_by_recency_sorted(s);
    let r = by_recency(s);
    assert forall|k: int| 0 <= k < r.len() implies (#[trigger] r[k]).cwd == workdir by {
        assert(r.contains(r[k]));
        vstd::seq_lib::to_multiset_contains(r, r[k]);
        vstd::seq_lib::to_multiset_contains(s, r[k]);
        let i = choose|i: int| 0 <= i < s.len() && s[i] == r[k];
        assert(s[i].cwd == workdir);
    }
    assert forall|j: int| 0 <= j < wss.len() && (#[trigger] wss[j]).cwd@ == workdir implies r.contains(
        workspace_session(wss[j], nows[j]),
    ) by {
        let v = workspace_session(wss[j], nows[j]);
        assert(s.contains(v));
        vstd::seq_lib::to_multiset_contains(s, v);
        vstd::seq_lib::to_multiset_contains(r, v);
    }
}

/// With an empty container directory every workspace is listed: one
/// session for each, whatever its `cwd`.
pub proof fn lemma_no_directory_lists_every_session(
    wss: Seq<CopilotWorkspace>,
    nows: Seq<Timestamp>,
)
    requires
        nows.len() >= wss.len(),
    ensures
        by_recency(workspace_sessions(wss, Seq::empty(), nows)).len() == wss.len(),
        forall|j: int|
            0 <= j < wss.len() ==> by_recency(workspace_sessions(wss, Seq::empty(), nows)).contains(
                workspace_session(#[trigger] wss[j], nows[j]),
            ),
{
    let s = workspace_sessions(wss, Seq::empty(), nows);
    lemma_all_workspace_sessions(wss, nows);
    lemma_by_recency_sorted(s);
    lemma_by_recency_permutes(s);
    let r = by_recency(s);
    assert forall|j: int| 0 <= j < wss.len() implies r.contains(workspace_session(#[trigger] wss[j], nows[j])) by {
        let v = workspace_session(wss[j], nows[j]);
        assert(s[j] == v);
        assert(s.contains(v));
        vstd::seq_lib::to_multiset_contains(s, v);
        vstd::seq_lib::to_multiset_contains(r, v);
    }
}

/// With an empty directory, `workspace_sessions` gives each workspace's
/// session at its own position.
proof fn lemma_all_workspace_sessions(wss: Seq<CopilotWorkspace>, nows: Seq<Timestamp>)
    requires
        nows.len() >= wss.len(),
    ensures
        workspace_sessions(wss, Seq::empty(), nows).len() == wss.len(),
        forall|j: int|
            0 <= j < wss.len() ==> workspace_sessions(wss, Seq::empty(), nows)[j] == workspace_session(
                #[trigger] wss[j],
                nows[j],
            ),
    decreases wss.len(),
{
    if wss.len() > 0 {
        lemma_all_workspace_sessions(wss.drop_last(), nows);
        assert forall|j: int| 0 <= j < wss.len() implies workspace_sessions(wss, Seq::empty(), nows)[j]
            == workspace_session(#[trigger] wss[j], nows[j]) by {
            if j < wss.len() - 1 {
                assert(wss.drop_last()[j] == wss[j]);
            }
        }
    }
}

/// The sessions `workspace_sessions` lists: each has the directory's `cwd`
/// and comes from a workspace there; each workspace there gives its
/// session; and there are as many as such workspaces.
proof fn lemma_workspace_sessions_at(wss: Seq<CopilotWorkspace>, workdir: Seq<char>, nows: Seq<Timestamp>)
    requires
        workdir.len() > 0,
        nows.len() >= wss.len(),
    ensures
        forall|k: int|
            0 <= k < workspace_sessions(wss, workdir, nows).len() ==> (#[trigger] workspace_sessions(
                wss,
                workdir,
                nows,
            )[k]).cwd == workdir,
        forall|j: int|
            0 <= j < wss.len() && (#[trigger] wss[j]).cwd@ == workdir ==> workspace_sessions(
                wss,
                workdir,
                nows,
            ).contains(workspace_session(wss[j], nows[j])),
        workspace_sessions(wss, workdir, nows).len() == wss.filter(
            |w: CopilotWorkspace| w.cwd@ == workdir,
        ).len(),
    decreases wss.len(),
{
    reveal(Seq::filter);
    if wss.len() > 0 {
        let pw = wss.drop_last();
        lemma_workspace_sessions_at(pw, workdir, nows);
        let prev = workspace_sessions(pw, workdir, nows);
        let cur = workspace_sessions(wss, workdir, nows);
        assert forall|k: int| 0 <= k < cur.len() implies (#[trigger] cur[k]).cwd == workdir by {
            if k < prev.len() {
                assert(cur[k] == prev[k]);
            }
        }
        assert forall|j: int| 0 <= j < wss.len() && (#[trigger] wss[j]).cwd@ == workdir implies cur.contains(
            workspace_session(wss[j], nows[j]),
        ) by {
            let v = workspace_session(wss[j], nows[j]);
            if j < wss.len() - 1 {
                assert(pw[j] == wss[j]);
                assert(prev.contains(v));
                let i = choose|i: int| 0 <= i < prev.len() && prev[i] == v;
                assert(cur[i] == v);
            } else {
                assert(cur[cur.len() - 1] == v);
            }
        }
    }
}

/// The session a workspace describes, with `now` standing in for a
/// missing or unreadable update time.
pub fn session_from_workspace(ws: &CopilotWorkspace, now: Timestamp) -> (r: SessionInfo)
    ensures
        r@ == workspace_session(*ws, now),
{
    let updated_at = match &ws.updated_at {
        Some(t) => match parse_rfc3339(t.as_str()) {
            Some(inst) => Timestamp { secs: inst.0, nanos: inst.1 },
            None => now,
        },
        None => now,
    };
    let summary = if ws.summary.as_str().is_empty() {
        owned("(no summary)")
    } else {
        ws.summary.clone()
    };
    SessionInfo { id: ws.id.clone(), summary, cwd: ws.cwd.clone(), updated_at }
}

/// The sessions of the workspaces that belong to `container_workdir`, most
/// recent first; the `k`-th workspace takes `nows[k]` as its time when its
/// own is missing or unreadable.
pub fn sessions_at(
    workspaces: &Vec<CopilotWorkspace>,
    container_workdir: &str,
    nows: &Vec<Timestamp>,
) -> (r: Vec<SessionInfo>)
    requires
        nows@.len() == workspaces@.len(),
    ensures
        session_views(r@) == by_recency(workspace_sessions(workspaces@, container_workdir@, nows@)),
{
    let all_dirs = container_workdir.is_empty();
    let mut found: Vec<SessionInfo> = Vec::new();
    let mut i: usize = 0;
    while i < workspaces.len()
        invariant
            nows@.len() == workspaces@.len(),
            all_dirs == (container_workdir@.len() == 0),
            i <= workspaces@.len(),
            session_views(found@) == workspace_sessions(workspaces@.take(i as int), container_workdir@, nows@),
        decreases workspaces@.len() - i,
    {
        let ws = &workspaces[i];
        assert(workspaces@.take(i + 1).drop_last() =~= workspaces@.take(i as int));
        assert(workspaces@.take(i + 1).last() == *ws);
        if all_dirs || str_equal(ws.cwd.as_str(), container_workdir) {
            let ghost before = found@;
            found.push(session_from_workspace(ws, nows[i]));
            assert(session_views(found@) =~= session_views(before).push(workspace_session(*ws, nows@[i as int])));
        }
        i = i + 1;
    }
    assert(workspaces@.take(workspaces@.len() as int) =~= workspaces@);
    sort_by_recency(found)
}

/// The sessions of the Copilot workspaces that belong to
/// `container_workdir`, most recent first. A workspace with a missing or
/// unreadable update time takes a reading of the clock, or the Unix epoch
/// when the clock cannot be read.
pub fn sessions_from_workspaces(workspaces: &Vec<CopilotWorkspace>, container_workdir: &str) -> (r: Vec<
    SessionInfo,
>)
    ensures
        exists|clock: Seq<Option<Timestamp>>|
            clock.len() == workspaces@.len() && session_views(r@) == by_recency(
                workspace_sessions(
                    workspaces@,
                    container_workdir@,
                    #[trigger] clock_times(clock),
                ),
            ),
{
    let mut nows: Vec<Timestamp> = Vec::new();
    let ghost mut clock: Seq<Option<Timestamp>> = Seq::empty();
    let mut i: usize = 0;
    while i < workspaces.len()
        invariant
            i <= workspaces@.len(),
            nows@.len() == i,
            clock.len() == i,
            nows@ == clock_times(clock),
        decreases workspaces@.len() - i,
    {
        let c = utc_now();
        nows.push(clock_or_epoch(c));
        proof {
            clock = clock.push(c);
        }
        assert(nows@ =~= clock_times(clock));
        i = i + 1;
    }
    sessions_at(workspaces, container_workdir, &nows)
}

/// How many of `tools` are called "copilot".
pub open spec fn copilot_count(tools: Seq<CliToolConfig>) -> nat
    decreases tools.len(),
{
    if tools.len() == 0 {
        0
    } else {
        copilot_count(tools.drop_last()) + if tools.last().name@ == "copilot"@ {
            1nat
        } else {
            0nat
        }
    }
}

/// How many of `tools` are called "copilot".
pub fn count_copilot_tools(tools: &Vec<CliToolConfig>) -> (r: usize)
    ensures
        r == copilot_count(tools@),
{
    let mut n: usize = 0;
    let mut i: usize = 0;
    while i < tools.len()
        invariant
            i <= tools@.len(),
            n == copilot_count(tools@.take(i as int)),
            n <= i,
        decreases tools@.len() - i,
    {
        assert(tools@.take(i + 1).drop_last() =~= tools@.take(i as int));
        if str_equal(tools[i].name.as_str(), "copilot") {
            n = n + 1;
        }
        i = i + 1;
    }
    assert(tools@.take(tools@.len() as int) =~= tools@);
    n
}

/// `s` repeated `n` times.
pub open spec fn repeated(s: Seq<SessionView>, n: nat) -> Seq<SessionView>
    decreases n,
{
    if n == 0 {
        Seq::empty()
    } else {
        repeated(s, (n - 1) as nat) + s
    }
}

/// All sessions of a worktree across the configured tools, most recent
/// first: the Copilot sessions `copilot` once for each tool called
/// "copilot" (no other tool keeps sessions that can be listed).
pub fn list_sessions_for_worktree(cli_tools: &Vec<CliToolConfig>, copilot: &Vec<SessionInfo>) -> (r:
    Vec<SessionInfo>)
    ensures
        session_views(r@) == by_recency(repeated(session_views(copilot@), copilot_count(cli_tools@))),
{
    let mut all: Vec<SessionInfo> = Vec::new();
    let mut i: usize = 0;
    while i < cli_tools.len()
        invariant
            i <= cli_tools@.len(),
            session_views(all@) == repeated(session_views(copilot@), copilot_count(cli_tools@.take(i as int))),
        decreases cli_tools@.len() - i,
    {
        assert(cli_tools@.take(i + 1).drop_last() =~= cli_tools@.take(i as int));
        if str_equal(cli_tools[i].name.as_str(), "copilot") {
            let mut k: usize = 0;
            let ghost before = session_views(all@);
            while k < copilot.len()
                invariant
                    k <= copilot@.len(),
                    session_views(all@) == before + session_views(copilot@).take(k as int),
                decreases copilot@.len() - k,
            {
                let ghost prev = all@;
                all.push(copilot[k].clone());
                assert(session_views(all@) =~= session_views(prev).push(copilot@[k as int]@));
                assert(session_views(copilot@).take(k + 1) =~= session_views(copilot@).take(k as int).push(copilot@[k as int]@));
                assert(session_views(all@) =~= before + session_views(copilot@).take(k + 1));
                k = k + 1;
            }
            assert(session_views(copilot@).take(copilot@.len() as int) =~= session_views(copilot@));
        }
        i = i + 1;
    }
    assert(cli_tools@.take(cli_tools@.len() as int) =~= cli_tools@);
    sort_by_recency(all)
}

/// The flags of a tool, each preceded by a space.
pub open spec fn flag_text(flags: Seq<Seq<char>>) -> Seq<char>
    decreases flags.len(),
{
    if flags.len() == 0 {
        Seq::empty()
    } else {
        flag_text(flags.drop_last()) + " "@ + flags.last()
    }
}

/// The flag text of two lists one after the other is the text of each.
pub proof fn lemma_flag_text_concat(a: Seq<Seq<char>>, b: Seq<Seq<char>>)
    ensures
        flag_text(a + b) == flag_text(a) + flag_text(b),
    decreases b.len(),
{
    if b.len() == 0 {
        assert(a + b =~= a);
        assert(flag_text(a) + flag_text(b) =~= flag_text(a));
    } else {
        lemma_flag_text_concat(a, b.drop_last());
        assert((a + b).drop_last() =~= a + b.drop_last());
        assert((a + b).last() == b.last());
        assert(flag_text(a) + (flag_text(b.drop_last()) + " "@ + b.last()) =~= flag_text(a)
            + flag_text(b.drop_last()) + " "@ + b.last());
    }
}

/// Resuming a session runs the tool as launching it does, with
/// `--resume <id>` put before the tool's own flags.
pub proof fn lemma_resume_is_launch_with_flag_first(
    workdir: Seq<char>,
    tool: crate::config::CliToolView,
    session_id: Seq<char>,
)
    ensures
        shell_line(workdir, tool.cli_cmd + " --resume "@ + session_id + flag_text(tool.flags))
            == shell_line(
            workdir,
            tool.cli_cmd + flag_text(seq!["--resume "@ + session_id] + tool.flags),
        ),
{
    let first: Seq<Seq<char>> = seq!["--resume "@ + session_id];
    lemma_flag_text_concat(first, tool.flags);
    assert(first.drop_last() =~= Seq::<Seq<char>>::empty());
    assert(flag_text(first) == flag_text(first.drop_last()) + " "@ + first.last());
    reveal_strlit(" ");
    reveal_strlit("--resume ");
    reveal_strlit(" --resume ");
    assert(flag_text(first) =~= " --resume "@ + session_id);
    assert(tool.cli_cmd + " --resume "@ + session_id + flag_text(tool.flags) =~= tool.cli_cmd
        + flag_text(first + tool.flags));
}

/// The command line `sh -c` runs: change to `workdir`, then run `cmd`.
pub open spec fn shell_line(workdir: Seq<char>, cmd: Seq<char>) -> Seq<char> {
    "cd "@ + workdir + " && "@ + cmd
}

/// The argument vector `sh -c <line>`.
pub open spec fn is_shell_call(r: Seq<String>, line: Seq<char>) -> bool {
    &&& r.len() == 3
    &&& r[0]@ == "sh"@
    &&& r[1]@ == "-c"@
    &&& r[2]@ == line
}

fn append_flags(cmd: &mut String, flags: &Vec<String>)
    ensures
        final(cmd)@ == old(cmd)@ + flag_text(string_views(flags@)),
{
    let mut i: usize = 0;
    while i < flags.len()
        invariant
            i <= flags@.len(),
            cmd@ == old(cmd)@ + flag_text(string_views(flags@.take(i as int))),
        decreases flags@.len() - i,
    {
        assert(flags@.take(i + 1).drop_last() =~= flags@.take(i as int));
        let ghost prev = cmd@;
        cmd.push(' ');
        cmd.append(flags[i].as_str());
        assert(flags@.take(i + 1).last() == flags@[i as int]);
        assert(string_views(flags@.take(i + 1)).drop_last() =~= string_views(flags@.take(i as int)));
        assert(flag_text(string_views(flags@.take(i + 1))) == flag_text(string_views(flags@.take(i as int))) + " "@ + flags@[i as int]@);
        assert(" "@ =~= seq![' ']) by { reveal_strlit(" "); }
        assert(cmd@ =~= old(cmd)@ + flag_text(string_views(flags@.take(i + 1))));
        i = i + 1;
    }
    assert(flags@.take(flags@.len() as int) =~= flags@);
}

fn shell_call(workdir: &str, cmd: &str) -> (r: Vec<String>)
    ensures
        is_shell_call(r@, shell_line(workdir@, cmd@)),
{
    let mut line = owned("cd ");
    line.append(workdir);
    line.append(" && ");
    line.append(cmd);
    let mut r: Vec<String> = Vec::new();
    r.push(owned("sh"));
    r.push(owned("-c"));
    r.push(line);
    r
}

/// The command that starts a tool in `workdir`: its binary followed by its
/// flags, run through `sh -c`.
pub fn build_tool_command(workdir: &str, tool_config: &CliToolConfig) -> (r: Vec<String>)
    ensures
        is_shell_call(r@, shell_line(workdir@, tool_config.cli_cmd@ + flag_text(tool_config@.flags))),
{
    let mut cmd = tool_config.cli_cmd.clone();
    append_flags(&mut cmd, &tool_config.flags);
    shell_call(workdir, cmd.as_str())
}

/// The command that resumes session `session_id` of a tool in `workdir`:
/// its binary, `--resume <id>`, then its flags, run through `sh -c`.
pub fn build_resume_command(workdir: &str, tool_config: &CliToolConfig, session_id: &str) -> (r: Vec<
    String,
>)
    ensures
        is_shell_call(
            r@,
            shell_line(
                workdir@,
                tool_config.cli_cmd@ + " --resume "@ + session_id@ + flag_text(tool_config@.flags),
            ),
        ),
{
    let mut cmd = tool_config.cli_cmd.clone();
    cmd.append(" --resume ");
    cmd.append(session_id);
    append_flags(&mut cmd, &tool_config.flags);
    shell_call(workdir, cmd.as_str())
}

} // verus!
