//! The notification texts that announce the events.
use vstd::prelude::*;

use crate::ident::{normalize, normalized};
use crate::presence::{sample_of, EventView, PlayerRef, PresenceSnapshot, TransitionEvent};
use crate::text::{decimal, joined, push_decimal, push_joined};

verus! {

/// The server whose status is polled.
#[derive(Debug, Clone, PartialEq, Eq)]
pub struct ServerTarget {
    pub host: String,
    pub port: u16,
}

/// A notification to show to the user.
#[derive(Debug, Clone, PartialEq, Eq)]
pub struct NotificationRequest {
    pub summary: String,
}

/// `host:port`, the port in decimal.
pub open spec fn address(host: Seq<char>, port: nat) -> Seq<char> {
    host + ":"@ + decimal(port)
}

/// The players of a snapshot, none where it discloses none.
pub open spec fn players_of(sample: Option<Seq<PlayerRef>>) -> Seq<PlayerRef> {
    match sample {
        Some(s) => s,
        None => Seq::empty(),
    }
}

/// The name of the first player of `s` whose normalized id is `id` and
/// whose name is not empty.
pub open spec fn name_for(id: Seq<char>, s: Seq<PlayerRef>) -> Option<Seq<char>>
    decreases s.len(),
{
    if s.len() == 0 {
        None
    } else {
        let r = name_for(id, s.drop_last());
        if r is Some {
            r
        } else if normalized(s.last().id@) == id && s.last().name@.len() > 0 {
            Some(s.last().name@)
        } else {
            None
        }
    }
}

/// The name to show for `id`: its player's name, else the id itself.
pub open spec fn display_name(id: Seq<char>, s: Seq<PlayerRef>) -> Seq<char> {
    match name_for(id, s) {
        Some(n) => n,
        None => id,
    }
}

/// The summary line announcing `ev` for the server `host:port`.
pub open spec fn summary_text(ev: EventView, host: Seq<char>, port: nat, s: Seq<PlayerRef>) -> Seq<
    char,
> {
    match ev {
        EventView::PlayersJoined(names) => joined(names, ", "@) + " joined "@ + address(host, port),
        EventView::CountIncreasedUnknownIdentity => "An unknown player joined "@ + address(
            host,
            port,
        ),
        EventView::WatchedPlayerJoined(id) => display_name(id, s) + " joined "@ + address(
            host,
            port,
        ),
    }
}

/// The name to show for the normalized id `id` among the players `sample`.
pub fn resolve_name(id: &String, sample: &Vec<PlayerRef>) -> (r: String)
    ensures
        r@ == display_name(id@, sample@),
{
    let mut i: usize = 0;
    while i < sample.len()
        invariant
            i <= sample.len(),
            name_for(id@, sample@.take(i as int)) is None,
        decreases sample.len() - i,
    {
        let ghost t = sample@.take(i + 1);
        proof {
            assert(t.drop_last() =~= sample@.take(i as int));
            assert(t.last() == sample@[i as int]);
        }
        let n = normalize(sample[i].id.as_str());
        if n == *id && !sample[i].name.as_str().is_empty() {
            proof {
                lemma_name_for_prefix(id@, sample@, i + 1);
            }
            return sample[i].name.clone();
        }
        i = i + 1;
    }
    proof {
        assert(sample@.take(sample@.len() as int) =~= sample@);
    }
    id.clone()
}

proof fn lemma_name_for_prefix(id: Seq<char>, s: Seq<PlayerRef>, k: int)
    requires
        0 <= k <= s.len(),
        name_for(id, s.take(k)) is Some,
    ensures
        name_for(id, s) == name_for(id, s.take(k)),
    decreases s.len() - k,
{
    if k < s.len() {
        let t = s.take(k + 1);
        assert(t.drop_last() =~= s.take(k));
        lemma_name_for_prefix(id, s, k + 1);
    } else {
        assert(s.take(k) =~= s);
    }
}

/// Appends `host:port` to `out`.
fn push_address(out: &mut String, target: &ServerTarget)
    ensures
        final(out)@ == old(out)@ + address(target.host@, target.port as nat),
{
    out.append(target.host.as_str());
    out.append(":");
    push_decimal(out, target.port as u64);
    proof {
        assert(final(out)@ =~= old(out)@ + address(target.host@, target.port as nat));
    }
}

/// The notification that announces `event` for `target`; a watched player's
/// name is looked up in the snapshot the event came from.
pub fn decide(event: &TransitionEvent, target: &ServerTarget, snapshot: &PresenceSnapshot) -> (r:
    NotificationRequest)
    ensures
        r.summary@ == summary_text(
            event@,
            target.host@,
            target.port as nat,
            players_of(sample_of(snapshot)),
        ),
{
    let mut out = String::new();
    match event {
        TransitionEvent::PlayersJoined { names } => {
            push_joined(&mut out, names, ", ");
            out.append(" joined ");
        },
        TransitionEvent::CountIncreasedUnknownIdentity => {
            out.append("An unknown player joined ");
        },
        TransitionEvent::WatchedPlayerJoined { id } => {
            let name = match &snapshot.sample {
                Some(sample) => resolve_name(id, sample),
                None => {
                    let empty: Vec<PlayerRef> = Vec::new();
                    resolve_name(id, &empty)
                },
            };
            out.append(name.as_str());
            out.append(" joined ");
        },
    }
    push_address(&mut out, target);
    proof {
        assert(out@ =~= summary_text(
            event@,
            target.host@,
            target.port as nat,
            players_of(sample_of(snapshot)),
        ));
    }
    NotificationRequest { summary: out }
}

} // verus!
