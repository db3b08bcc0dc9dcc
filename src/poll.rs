//! One cycle of the background poll, and the summary shown in the tray menu.
use vstd::prelude::*;

use crate::notify::{decide, players_of, summary_text, NotificationRequest, ServerTarget};
use crate::presence::{
    events_view, next_count, sample_of, tracked_events, tracked_known, EventView, PlayerRef, PresenceSnapshot,
    TrackerState,
};
use crate::text::{decimal, push_decimal, texts};

verus! {

/// The port that a server listens on unless told otherwise.
pub const DEFAULT_PORT: u16 = 25565;

/// The seconds between two polls unless told otherwise.
pub const DEFAULT_REFRESH_SECONDS: u64 = 30;

/// What the poll is told at startup.
#[derive(Debug, Clone, PartialEq, Eq)]
pub struct PollConfig {
    pub target: ServerTarget,
    /// Seconds to sleep before each poll.
    pub refresh_seconds: u64,
    /// Normalized ids or names to watch; empty: every player is tracked.
    pub watch_list: Vec<String>,
}

/// The summaries of the notifications that one poll raises.
pub open spec fn poll_summaries(
    state: TrackerState,
    config: PollConfig,
    snapshot: PresenceSnapshot,
) -> Seq<Seq<char>> {
    tracked_events(
        state.known(),
        state.last_online_count as nat,
        config.watch_list@,
        sample_of(&snapshot),
        snapshot.online_count as nat,
    ).map_values(
        |e: EventView|
            summary_text(
                e,
                config.target.host@,
                config.target.port as nat,
                players_of(sample_of(&snapshot)),
            ),
    )
}

/// The summaries held by a sequence of notifications.
pub open spec fn summaries(v: Seq<NotificationRequest>) -> Seq<Seq<char>> {
    v.map_values(|q: NotificationRequest| q.summary@)
}

/// Handles the snapshot of one poll: returns the next state and the
/// notifications to show, one for each event, in order.
pub fn poll_step(state: &TrackerState, config: &PollConfig, snapshot: &PresenceSnapshot) -> (r: (
    TrackerState,
    Vec<NotificationRequest>,
))
    ensures
        r.0.wf(),
        r.0.known() == tracked_known(config.watch_list@, sample_of(snapshot)),
        r.0.last_online_count == next_count(sample_of(snapshot), snapshot.online_count as nat),
        summaries(r.1@) == poll_summaries(*state, *config, *snapshot),
{
    let (next, events) = state.update_watched(snapshot, &config.watch_list);
    let ghost evs = events_view(events@);
    let mut out: Vec<NotificationRequest> = Vec::new();
    let mut i: usize = 0;
    while i < events.len()
        invariant
            i <= events.len(),
            evs == events_view(events@),
            summaries(out@) == evs.take(i as int).map_values(
                |e: EventView|
                    summary_text(
                        e,
                        config.target.host@,
                        config.target.port as nat,
                        players_of(sample_of(snapshot)),
                    ),
            ),
        decreases events.len() - i,
    {
        let ghost before = out@;
        let q = decide(&events[i], &config.target, snapshot);
        out.push(q);
        proof {
            assert(evs[i as int] == events@[i as int]@);
            assert(summaries(out@) =~= summaries(before).push(q.summary@));
            assert(summaries(out@) =~= evs.take(i + 1).map_values(
                |e: EventView|
                    summary_text(
                        e,
                        config.target.host@,
                        config.target.port as nat,
                        players_of(sample_of(snapshot)),
                    ),
            ));
        }
        i = i + 1;
    }
    proof {
        assert(evs.take(evs.len() as int) =~= evs);
    }
    (next, out)
}

/// The menu entry that shows `online / max`.
pub fn menu_summary(snapshot: &PresenceSnapshot) -> (r: String)
    ensures
        r@ == decimal(snapshot.online_count as nat) + " / "@ + decimal(
            snapshot.max_count as nat,
        ),
{
    let mut out = String::new();
    push_decimal(&mut out, snapshot.online_count);
    out.append(" / ");
    push_decimal(&mut out, snapshot.max_count);
    proof {
        assert(out@ =~= decimal(snapshot.online_count as nat) + " / "@ + decimal(
            snapshot.max_count as nat,
        ));
    }
    out
}

/// The names of the players that the snapshot discloses, in its order.
pub fn menu_player_names(snapshot: &PresenceSnapshot) -> (r: Vec<String>)
    ensures
        texts(r@) == players_of(sample_of(snapshot)).map_values(|p: PlayerRef| p.name@),
{
    let mut out: Vec<String> = Vec::new();
    match &snapshot.sample {
        None => {
            assert(texts(out@) =~= players_of(sample_of(snapshot)).map_values(
                |p: PlayerRef| p.name@,
            ));
        },
        Some(sample) => {
            let mut i: usize = 0;
            while i < sample.len()
                invariant
                    i <= sample.len(),
                    texts(out@) == sample@.take(i as int).map_values(
                        |p: PlayerRef| p.name@,
                    ),
                decreases sample.len() - i,
            {
                let ghost before = out@;
                out.push(sample[i].name.clone());
                proof {
                    assert(texts(out@) =~= texts(before).push(sample@[i as int].name@));
                    assert(texts(out@) =~= sample@.take(i + 1).map_values(
                        |p: PlayerRef| p.name@,
                    ));
                }
                i = i + 1;
            }
            proof {
                assert(sample@.take(sample@.len() as int) =~= sample@);
            }
        },
    }
    out
}

} // verus!
