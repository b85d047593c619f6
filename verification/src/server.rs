//! The team score server's rules: validating score submissions, planning
//! their database updates, assembling the global statistics and the daily
//! rollover.
use vstd::prelude::*;

use crate::game::opt_view;
use crate::teams::{is_valid_team, team_named, team_of, Team};
use crate::text::{byte_len, chars_of, string_of, to_lower, unicode_lowercase};

verus! {

/// One team's standing.
#[derive(PartialEq, Eq, Structural, Clone, Copy, Debug)]
pub struct TeamData {
    /// Total points for the team today.
    pub points: i32,
    /// Current number of players on this team.
    pub players: u32,
    /// Team's total points from yesterday.
    pub yesterday_total: i32,
}

impl TeamData {
    /// A team with no points and no players.
    pub fn zero() -> (r: TeamData)
        ensures
            r == (TeamData { points: 0, players: 0, yesterday_total: 0 }),
    {
        TeamData { points: 0, players: 0, yesterday_total: 0 }
    }
}

/// The statistics the server publishes.
pub struct GlobalStats {
    pub yellow: TeamData,
    pub red: TeamData,
    pub green: TeamData,
    pub blue: TeamData,
    pub purple: TeamData,
    pub orange: TeamData,
    /// The team name that won yesterday (`none` before any rollover).
    pub yesterday_winner: String,
    /// The server's current day, `YYYY-MM-DD`.
    pub current_date: String,
    /// Current server time, milliseconds since the Unix epoch.
    pub server_utc_timestamp: u64,
}

impl GlobalStats {
    /// The standing of one team.
    pub open spec fn team_spec(&self, t: Team) -> TeamData {
        match t {
            Team::Red => self.red,
            Team::Orange => self.orange,
            Team::Yellow => self.yellow,
            Team::Green => self.green,
            Team::Blue => self.blue,
            Team::Purple => self.purple,
        }
    }

    /// Statistics before anything is known: every team at zero, yesterday's
    /// winner `none`, the given date and time.
    pub fn new(current_date: String, server_utc_timestamp: u64) -> (r: GlobalStats)
        ensures
            forall|t: Team| #[trigger] r.team_spec(t) == (TeamData { points: 0, players: 0, yesterday_total: 0 }),
            r.yesterday_winner@ == "none"@,
            r.current_date@ == current_date@,
            r.server_utc_timestamp == server_utc_timestamp,
    {
        GlobalStats {
            yellow: TeamData::zero(),
            red: TeamData::zero(),
            green: TeamData::zero(),
            blue: TeamData::zero(),
            purple: TeamData::zero(),
            orange: TeamData::zero(),
            yesterday_winner: string_of("none"),
            current_date,
            server_utc_timestamp,
        }
    }
}

/// A row of the `teams` table.
pub struct TeamRow {
    pub name: String,
    pub points: i64,
    pub players: i64,
    pub yesterday_total: i64,
}

/// A stored row as it is published (64-bit columns cut to the published widths).
pub open spec fn row_data(r: TeamRow) -> TeamData {
    TeamData { points: r.points as i32, players: r.players as u32, yesterday_total: r.yesterday_total as i32 }
}

/// The standing of team `t` after the first `n` rows: the last row named
/// after it, or `base` when none is.
pub open spec fn standing_after(rows: Seq<TeamRow>, t: Team, n: int, base: TeamData) -> TeamData
    decreases n,
{
    if n <= 0 {
        base
    } else if team_named(rows[n - 1].name@) == Some(t) {
        row_data(rows[n - 1])
    } else {
        standing_after(rows, t, n - 1, base)
    }
}

fn set_team(stats: &mut GlobalStats, t: Team, d: TeamData)
    ensures
        final(stats).team_spec(t) == d,
        forall|u: Team| u != t ==> #[trigger] final(stats).team_spec(u) == old(stats).team_spec(u),
        final(stats).yesterday_winner == old(stats).yesterday_winner,
        final(stats).current_date == old(stats).current_date,
        final(stats).server_utc_timestamp == old(stats).server_utc_timestamp,
{
    match t {
        Team::Red => stats.red = d,
        Team::Orange => stats.orange = d,
        Team::Yellow => stats.yellow = d,
        Team::Green => stats.green = d,
        Team::Blue => stats.blue = d,
        Team::Purple => stats.purple = d,
    }
}

/// Assembles the published statistics from the stored system state
/// (current date, yesterday's winner), the rows of the `teams` table, and
/// the fallback date and time: rows with unknown names are skipped, a later
/// row for a team replaces an earlier one.
pub fn build_global_stats(
    system_state: Option<(String, String)>,
    rows: &Vec<TeamRow>,
    today: String,
    now_millis: u64,
) -> (r: GlobalStats)
    ensures
        forall|t: Team| #[trigger] r.team_spec(t) == standing_after(
            rows@,
            t,
            rows.len() as int,
            TeamData { points: 0, players: 0, yesterday_total: 0 },
        ),
        r.server_utc_timestamp == now_millis,
        match system_state {
            Some((date, winner)) => r.current_date@ == date@ && r.yesterday_winner@ == winner@,
            None => r.current_date@ == today@ && r.yesterday_winner@ == "none"@,
        },
{
    let mut stats = GlobalStats::new(today, now_millis);
    let ghost init = stats;
    match system_state {
        Some((date, winner)) => {
            stats.current_date = date;
            stats.yesterday_winner = winner;
        },
        None => {},
    }
    let ghost zero = TeamData { points: 0, players: 0, yesterday_total: 0 };
    let ghost fixed = stats;
    assert forall|t: Team| #[trigger] stats.team_spec(t) == standing_after(rows@, t, 0, zero) by {
        assert(init.team_spec(t) == zero);
    }
    let mut i: usize = 0;
    while i < rows.len()
        invariant
            i <= rows.len(),
            forall|t: Team| #[trigger] stats.team_spec(t) == standing_after(rows@, t, i as int, zero),
            stats.server_utc_timestamp == fixed.server_utc_timestamp,
            stats.current_date == fixed.current_date,
            stats.yesterday_winner == fixed.yesterday_winner,
        decreases rows.len() - i,
    {
        let row = &rows[i];
        let d = TeamData {
            points: row.points as i32,
            players: row.players as u32,
            yesterday_total: row.yesterday_total as i32,
        };
        match team_of(row.name.as_str()) {
            Some(t) => set_team(&mut stats, t, d),
            None => {},
        }
        i = i + 1;
    }
    stats
}

/// A score submission.
pub struct ScorePayload {
    pub player_id: String,
    pub team: String,
    pub points_delta: i32,
}

/// Why a submission is refused.
#[derive(PartialEq, Eq, Structural, Clone, Copy, Debug)]
pub enum ScoreRejection {
    InvalidPlayerId,
    InvalidPlayerIdCharacters,
    InvalidTeam,
    PointsOutOfRange,
}

/// The error message returned for a refusal.
pub open spec fn rejection_text(e: ScoreRejection) -> Seq<char> {
    match e {
        ScoreRejection::InvalidPlayerId => "Invalid player_id"@,
        ScoreRejection::InvalidPlayerIdCharacters => "Invalid player_id characters"@,
        ScoreRejection::InvalidTeam => "Invalid team"@,
        ScoreRejection::PointsOutOfRange => "Points delta out of range"@,
    }
}

/// The error message returned for a refusal.
pub fn rejection_message(e: ScoreRejection) -> (r: &'static str)
    ensures
        r@ == rejection_text(e),
{
    match e {
        ScoreRejection::InvalidPlayerId => "Invalid player_id",
        ScoreRejection::InvalidPlayerIdCharacters => "Invalid player_id characters",
        ScoreRejection::InvalidTeam => "Invalid team",
        ScoreRejection::PointsOutOfRange => "Points delta out of range",
    }
}

/// What `char::is_alphanumeric` answers for a character (Unicode
/// alphabetic or numeric).
pub uninterp spec fn unicode_alphanumeric(c: char) -> bool;

/// An ASCII letter or digit.
pub open spec fn ascii_alphanumeric(c: char) -> bool {
    (48 <= (c as int) <= 57) || (65 <= (c as int) <= 90) || (97 <= (c as int) <= 122)
}

/// Whether a character is alphanumeric.
///
/// Trusted: calls `char::is_alphanumeric` (alphabetic or numeric in the
/// Unicode sense), named by [`unicode_alphanumeric`]; among ASCII characters
/// exactly the letters and digits qualify.
#[verifier::external_body]
fn is_alphanumeric(c: char) -> (r: bool)
    ensures
        r == unicode_alphanumeric(c),
        (c as int) < 128 ==> (r == ascii_alphanumeric(c)),
{
    c.is_alphanumeric()
}

/// A character allowed in a player id: alphanumeric (for ASCII: a letter
/// or a digit), `_` or `-`.
pub open spec fn id_char_ok(c: char) -> bool {
    (if (c as int) < 128 {
        ascii_alphanumeric(c)
    } else {
        unicode_alphanumeric(c)
    }) || c == '_' || c == '-'
}

/// The verdict on a submission: the player id must have 1 to 64 bytes, all
/// its characters allowed; the team, lower-cased, must be one of the six;
/// the delta must lie in `-5..=10`. Accepted submissions give the
/// lower-cased team.
pub open spec fn score_verdict(p: ScorePayload) -> Result<Seq<char>, ScoreRejection> {
    let team = unicode_lowercase(p.team@);
    if p.player_id@.len() == 0 || byte_len(p.player_id@) > 64 {
        Err(ScoreRejection::InvalidPlayerId)
    } else if exists|i: int| 0 <= i < p.player_id@.len() && !id_char_ok(#[trigger] p.player_id@[i]) {
        Err(ScoreRejection::InvalidPlayerIdCharacters)
    } else if team_named(team) is None {
        Err(ScoreRejection::InvalidTeam)
    } else if p.points_delta < -5 || p.points_delta > 10 {
        Err(ScoreRejection::PointsOutOfRange)
    } else {
        Ok(team)
    }
}

/// Validates a score submission (see [`score_verdict`]).
pub fn validate_score(payload: &ScorePayload) -> (r: Result<String, ScoreRejection>)
    ensures
        match (r, score_verdict(*payload)) {
            (Ok(t), Ok(st)) => t@ == st,
            (Err(e), Err(se)) => e == se,
            _ => false,
        },
{
    if payload.player_id.as_str().is_empty() || payload.player_id.as_str().len() > 64 {
        return Err(ScoreRejection::InvalidPlayerId);
    }
    let id = chars_of(payload.player_id.as_str());
    let mut i: usize = 0;
    while i < id.len()
        invariant
            id@ == payload.player_id@,
            payload.player_id@.len() != 0,
            byte_len(payload.player_id@) <= 64,
            i <= id.len(),
            forall|k: int| 0 <= k < i ==> id_char_ok(#[trigger] id@[k]),
        decreases id.len() - i,
    {
        let c = id[i];
        if !is_alphanumeric(c) && c != '_' && c != '-' {
            assert(!id_char_ok(payload.player_id@[i as int]));
            return Err(ScoreRejection::InvalidPlayerIdCharacters);
        }
        i = i + 1;
    }
    let team = to_lower(payload.team.as_str());
    let valid = is_valid_team(team.as_str());
    proof {
        if valid {
            let t = choose|t: Team| crate::teams::team_name(t) == team@;
            crate::teams::lemma_team_name_roundtrip(t);
        } else {
            if let Some(t) = team_named(team@) {
                assert(crate::teams::team_name(t) == team@);
            }
        }
    }
    if !valid {
        return Err(ScoreRejection::InvalidTeam);
    }
    if payload.points_delta < -5 || payload.points_delta > 10 {
        return Err(ScoreRejection::PointsOutOfRange);
    }
    Ok(team)
}

/// A database update a valid submission needs.
pub enum ScoreAction {
    /// The player leaves this team: its player count drops by one (not below zero).
    LeaveTeam(String),
    /// The player is recorded as a member of this team.
    RecordPlayer(String),
    /// This team gains a player.
    JoinTeam(String),
    /// This team's points change by the delta.
    AddPoints(String, i32),
}

/// The mathematical content of [`ScoreAction`].
pub enum ScoreActionView {
    LeaveTeam(Seq<char>),
    RecordPlayer(Seq<char>),
    JoinTeam(Seq<char>),
    AddPoints(Seq<char>, int),
}

impl View for ScoreAction {
    type V = ScoreActionView;

    open spec fn view(&self) -> ScoreActionView {
        match self {
            ScoreAction::LeaveTeam(t) => ScoreActionView::LeaveTeam(t@),
            ScoreAction::RecordPlayer(t) => ScoreActionView::RecordPlayer(t@),
            ScoreAction::JoinTeam(t) => ScoreActionView::JoinTeam(t@),
            ScoreAction::AddPoints(t, d) => ScoreActionView::AddPoints(t@, *d as int),
        }
    }
}

/// The updates for a valid submission, in order: when the player's stored
/// team differs, leaving it (if any), recording the new team and counting
/// the player in; then crediting the delta.
pub open spec fn score_plan_spec(prev: Option<Seq<char>>, team: Seq<char>, delta: int) -> Seq<ScoreActionView> {
    let moves = if prev != Some(team) {
        (match prev {
            Some(p) => seq![ScoreActionView::LeaveTeam(p)],
            None => Seq::empty(),
        }) + seq![ScoreActionView::RecordPlayer(team), ScoreActionView::JoinTeam(team)]
    } else {
        Seq::empty()
    };
    moves.push(ScoreActionView::AddPoints(team, delta))
}

/// Plans the database updates of a valid submission (see [`score_plan_spec`]).
pub fn plan_score_updates(prev_team: Option<String>, team: &String, points_delta: i32) -> (r: Vec<ScoreAction>)
    ensures
        r@.map_values(|a: ScoreAction| a@) == score_plan_spec(opt_view(prev_team), team@, points_delta as int),
{
    let ghost prev = opt_view(prev_team);
    let mut r: Vec<ScoreAction> = Vec::new();
    let same = match &prev_team {
        Some(p) => *p == *team,
        None => false,
    };
    if !same {
        match prev_team {
            Some(p) => r.push(ScoreAction::LeaveTeam(p)),
            None => {},
        }
        r.push(ScoreAction::RecordPlayer(team.clone()));
        r.push(ScoreAction::JoinTeam(team.clone()));
    }
    r.push(ScoreAction::AddPoints(team.clone(), points_delta));
    proof {
        assert(r@.map_values(|a: ScoreAction| a@) =~= score_plan_spec(prev, team@, points_delta as int));
    }
    r
}

/// The score tables as the server keeps them: points, player counts and
/// the previous day's totals by team name, the team each player id is
/// recorded on, and the system state (date and previous winner).
pub struct ScoreTables {
    pub points: Map<Seq<char>, int>,
    pub players: Map<Seq<char>, int>,
    /// Each team's total of the previous day.
    pub yesterday: Map<Seq<char>, int>,
    pub membership: Map<Seq<char>, Seq<char>>,
    /// The day the tables belong to, and the previous day's winner.
    pub current_date: Seq<char>,
    pub winner: Seq<char>,
}

/// One planned update applied to the tables for `player`: leaving lowers
/// the old team's count (not below zero), recording moves the player,
/// joining raises the new team's count, crediting adds the delta; updates
/// naming an unknown team change nothing.
pub open spec fn apply_action(t: ScoreTables, player: Seq<char>, a: ScoreActionView) -> ScoreTables {
    match a {
        ScoreActionView::LeaveTeam(p) => if t.players.dom().contains(p) {
            ScoreTables {
                players: t.players.insert(p, if t.players[p] - 1 > 0 { t.players[p] - 1 } else { 0 }),
                ..t
            }
        } else {
            t
        },
        ScoreActionView::RecordPlayer(team) => ScoreTables { membership: t.membership.insert(player, team), ..t },
        ScoreActionView::JoinTeam(team) => if t.players.dom().contains(team) {
            ScoreTables { players: t.players.insert(team, t.players[team] + 1), ..t }
        } else {
            t
        },
        ScoreActionView::AddPoints(team, d) => if t.points.dom().contains(team) {
            ScoreTables { points: t.points.insert(team, t.points[team] + d), ..t }
        } else {
            t
        },
    }
}

/// A plan applied in order.
pub open spec fn apply_plan(t: ScoreTables, player: Seq<char>, plan: Seq<ScoreActionView>) -> ScoreTables
    decreases plan.len(),
{
    if plan.len() == 0 {
        t
    } else {
        apply_plan(apply_action(t, player, plan[0]), player, plan.drop_first())
    }
}

/// Player ids recorded on `team`.
pub open spec fn members(m: Map<Seq<char>, Seq<char>>, team: Seq<char>) -> Set<Seq<char>> {
    m.dom().filter(on_team(m, team))
}

/// The player id is recorded on `team`.
pub open spec fn on_team(m: Map<Seq<char>, Seq<char>>, team: Seq<char>) -> spec_fn(Seq<char>) -> bool {
    |p: Seq<char>| m[p] == team
}

/// Each of the six teams has a row whose player count is the number of
/// players recorded on it.
pub open spec fn counts_consistent(t: ScoreTables) -> bool {
    &&& t.membership.dom().finite()
    &&& forall|team: Seq<char>|
        #[trigger] team_named(team) is Some ==> t.players.dom().contains(team) && t.players[team] == members(
            t.membership,
            team,
        ).len()
}

/// The team a player is recorded on, if any.
pub open spec fn recorded_team(t: ScoreTables, player: Seq<char>) -> Option<Seq<char>> {
    if t.membership.dom().contains(player) {
        Some(t.membership[player])
    } else {
        None
    }
}

proof fn lemma_record_moves_member(m: Map<Seq<char>, Seq<char>>, player: Seq<char>, team: Seq<char>, x: Seq<char>)
    requires
        m.dom().finite(),
    ensures
        members(m.insert(player, team), x) == if x == team {
            members(m, x).insert(player)
        } else {
            members(m, x).remove(player)
        },
{
    let m2 = m.insert(player, team);
    if x == team {
        assert(members(m2, x) =~= members(m, x).insert(player));
    } else {
        assert(members(m2, x) =~= members(m, x).remove(player));
    }
}

/// Submissions keep the player counts honest: when a submission is
/// accepted, applying its plan to consistent tables gives consistent
/// tables, with the player recorded on the submitted team and that team's
/// points raised by the delta (when the team has a points row).
pub proof fn lemma_submission_keeps_counts(t: ScoreTables, p: ScorePayload)
    requires
        counts_consistent(t),
        score_verdict(p) is Ok,
    ensures
        ({
            let team = score_verdict(p)->Ok_0;
            let player = p.player_id@;
            let t2 = apply_plan(t, player, score_plan_spec(recorded_team(t, player), team, p.points_delta as int));
            &&& counts_consistent(t2)
            &&& recorded_team(t2, player) == Some(team)
            &&& t2.points == if t.points.dom().contains(team) {
                t.points.insert(team, t.points[team] + p.points_delta)
            } else {
                t.points
            }
        }),
{
    reveal_with_fuel(apply_plan, 5);
    let team = score_verdict(p)->Ok_0;
    let player = p.player_id@;
    let delta = p.points_delta as int;
    assert(team_named(team) is Some);
    assert(t.players.dom().contains(team));
    let m = t.membership;
    let plan = score_plan_spec(recorded_team(t, player), team, delta);
    let add = ScoreActionView::AddPoints(team, delta);
    if recorded_team(t, player) == Some(team) {
        assert(plan =~= seq![add]);
        assert(plan.drop_first() =~= Seq::<ScoreActionView>::empty());
        let t4 = apply_action(t, player, add);
        assert forall|x: Seq<char>| #[trigger] team_named(x) is Some implies t4.players.dom().contains(x)
            && t4.players[x] == members(t4.membership, x).len() by {
            assert(t.players.dom().contains(x));
        }
    } else {
        let rec = ScoreActionView::RecordPlayer(team);
        let join = ScoreActionView::JoinTeam(team);
        let m2 = m.insert(player, team);
        assert forall|x: Seq<char>| #[trigger] members(m2, x) == if x == team {
            members(m, x).insert(player)
        } else {
            members(m, x).remove(player)
        } by {
            lemma_record_moves_member(m, player, team, x);
        }
        assert(!members(m, team).contains(player));
        if let Some(prev) = recorded_team(t, player) {
            let leave = ScoreActionView::LeaveTeam(prev);
            assert(plan =~= seq![leave, rec, join, add]);
            assert(plan.drop_first() =~= seq![rec, join, add]);
            assert(plan.drop_first().drop_first() =~= seq![join, add]);
            assert(plan.drop_first().drop_first().drop_first() =~= seq![add]);
            assert(plan.drop_first().drop_first().drop_first().drop_first() =~= Seq::<ScoreActionView>::empty());
            assert(members(m, prev).contains(player));
            let t1 = apply_action(t, player, leave);
            let t2 = apply_action(t1, player, rec);
            let t3 = apply_action(t2, player, join);
            let t4 = apply_action(t3, player, add);
            assert forall|x: Seq<char>| #[trigger] team_named(x) is Some implies t4.players.dom().contains(x)
                && t4.players[x] == members(t4.membership, x).len() by {
                assert(t.players.dom().contains(x));
                assert(t4.membership == m2);
                if x == team {
                } else if x == prev {
                    assert(members(m, prev).len() >= 1);
                } else {
                    assert(!members(m, x).contains(player));
                    assert(members(m, x).remove(player) =~= members(m, x));
                }
            }
            assert(t4.points =~= (if t.points.dom().contains(team) {
                t.points.insert(team, t.points[team] + delta)
            } else {
                t.points
            }));
        } else {
            assert(plan =~= seq![rec, join, add]);
            assert(plan.drop_first() =~= seq![join, add]);
            assert(plan.drop_first().drop_first() =~= seq![add]);
            assert(plan.drop_first().drop_first().drop_first() =~= Seq::<ScoreActionView>::empty());
            let t2 = apply_action(t, player, rec);
            let t3 = apply_action(t2, player, join);
            let t4 = apply_action(t3, player, add);
            assert forall|x: Seq<char>| #[trigger] team_named(x) is Some implies t4.players.dom().contains(x)
                && t4.players[x] == members(t4.membership, x).len() by {
                assert(t.players.dom().contains(x));
                assert(t4.membership == m2);
                if x != team {
                    assert(!members(m, x).contains(player));
                    assert(members(m, x).remove(player) =~= members(m, x));
                }
            }
            assert(t4.points =~= (if t.points.dom().contains(team) {
                t.points.insert(team, t.points[team] + delta)
            } else {
                t.points
            }));
        }
    }
}

/// The tables after the daily rollover to `today` with winner `winner`:
/// every team's points become its previous-day total, points and players
/// are reset to zero, no player is recorded any more.
pub open spec fn rollover_tables(t: ScoreTables, today: Seq<char>, winner: Seq<char>) -> ScoreTables {
    ScoreTables {
        yesterday: Map::new(|k: Seq<char>| t.points.dom().contains(k), |k: Seq<char>| t.points[k]),
        points: Map::new(|k: Seq<char>| t.points.dom().contains(k), |k: Seq<char>| 0int),
        players: Map::new(|k: Seq<char>| t.players.dom().contains(k), |k: Seq<char>| 0int),
        membership: Map::empty(),
        current_date: today,
        winner,
    }
}

/// The rollover keeps the tables consistent, records the day and its
/// winner, moves each team's points to its previous-day total and zeroes the
/// counters; a later tick on the same day has nothing left to do.
pub proof fn lemma_rollover_keeps_counts(t: ScoreTables, today: Seq<char>, winner: Seq<char>)
    requires
        counts_consistent(t),
    ensures
        ({
            let r = rollover_tables(t, today, winner);
            &&& counts_consistent(r)
            &&& r.current_date == today && r.winner == winner
            &&& r.membership.dom().is_empty()
            &&& forall|k: Seq<char>| #[trigger] t.points.dom().contains(k) ==> r.yesterday[k] == t.points[k] && r.points[k] == 0
            &&& forall|k: Seq<char>| #[trigger] t.players.dom().contains(k) ==> r.players[k] == 0
        }),
        forall|stored: Option<Seq<char>>| #[trigger] rollover_spec(Some(today), today, stored) == RolloverAction::Wait,
{
    let r = rollover_tables(t, today, winner);
    assert forall|team: Seq<char>| #[trigger] team_named(team) is Some implies r.players.dom().contains(team)
        && r.players[team] == members(r.membership, team).len() by {
        assert(t.players.dom().contains(team));
        assert(members(r.membership, team) =~= Set::<Seq<char>>::empty());
    }
    assert(r.membership.dom() =~= Set::<Seq<char>>::empty());
}

/// What the rollover task does on a tick.
#[derive(PartialEq, Eq, Structural, Clone, Copy, Debug)]
pub enum RolloverAction {
    /// Today was already handled: nothing to do.
    Wait,
    /// The stored date is today: remember today as handled.
    MarkDone,
    /// A new day: close yesterday (pick the winner, reset the teams).
    Roll,
}

/// The decision of the rollover task for `today`, given the day it last
/// handled and the date stored in the database (`None` when the stored
/// state could not be read).
pub open spec fn rollover_spec(last_processed: Option<Seq<char>>, today: Seq<char>, stored: Option<Seq<char>>) -> RolloverAction {
    if last_processed == Some(today) {
        RolloverAction::Wait
    } else if stored == Some(today) {
        RolloverAction::MarkDone
    } else {
        RolloverAction::Roll
    }
}

/// Decides what the rollover task does (see [`rollover_spec`]).
pub fn rollover_decision(last_processed: &Option<String>, today: &String, stored_date: &Option<String>) -> (r: RolloverAction)
    ensures
        r == rollover_spec(opt_view(*last_processed), today@, opt_view(*stored_date)),
{
    match last_processed {
        Some(p) => {
            if *p == *today {
                return RolloverAction::Wait;
            }
        },
        None => {},
    }
    match stored_date {
        Some(d) => {
            if *d == *today {
                return RolloverAction::MarkDone;
            }
        },
        None => {},
    }
    RolloverAction::Roll
}

/// Row `i` has the most points, and every earlier row has fewer.
pub open spec fn first_top_row(rows: Seq<TeamRow>, i: int) -> bool {
    &&& 0 <= i < rows.len()
    &&& forall|j: int| 0 <= j < rows.len() ==> #[trigger] rows[j].points <= rows[i].points
    &&& forall|j: int| 0 <= j < i ==> #[trigger] rows[j].points < rows[i].points
}

/// The team that closes the day on top: the name of the first row with the
/// most points, `None` when there are no rows.
pub fn pick_winner(rows: &Vec<TeamRow>) -> (r: Option<String>)
    ensures
        r is None <==> rows.len() == 0,
        r matches Some(w) ==> exists|i: int| first_top_row(rows@, i) && #[trigger] rows@[i].name@ == w@,
{
    if rows.len() == 0 {
        return None;
    }
    let mut best: usize = 0;
    let mut i: usize = 1;
    while i < rows.len()
        invariant
            1 <= i <= rows.len(),
            best < i,
            forall|j: int| 0 <= j < i ==> #[trigger] rows@[j].points <= rows@[best as int].points,
            forall|j: int| 0 <= j < best ==> #[trigger] rows@[j].points < rows@[best as int].points,
        decreases rows.len() - i,
    {
        if rows[i].points > rows[best].points {
            best = i;
        }
        i = i + 1;
    }
    let w = rows[best].name.clone();
    assert(first_top_row(rows@, best as int));
    assert(rows@[best as int].name@ == w@);
    Some(w)
}

} // verus!
