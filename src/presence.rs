//! Presence tracking: the state kept between two polls and the events that
//! a new status snapshot yields against it.
use vstd::prelude::*;

use crate::ident::{lemma_normalize_idempotent, normalize, normalized};
use crate::text::texts;

verus! {

/// One player that a server lists in its status.
#[derive(Debug, Clone, PartialEq, Eq)]
pub struct PlayerRef {
    pub id: String,
    pub name: String,
}

/// One status response of a server.
#[derive(Debug, Clone, PartialEq, Eq)]
pub struct PresenceSnapshot {
    pub online_count: u64,
    pub max_count: u64,
    /// The players that the server discloses, if it discloses any.
    pub sample: Option<Vec<PlayerRef>>,
}

/// What the tracker remembers of the previous poll.
#[derive(Debug, Clone, PartialEq, Eq)]
pub struct TrackerState {
    /// Normalized ids of the players in the last snapshot that had a sample.
    pub known_ids: Vec<String>,
    pub last_online_count: u64,
}

/// A fact derived from two consecutive snapshots.
#[derive(Debug, Clone, PartialEq, Eq)]
pub enum TransitionEvent {
    PlayersJoined { names: Vec<String> },
    CountIncreasedUnknownIdentity,
    WatchedPlayerJoined { id: String },
}

/// The mathematical value of a [`TransitionEvent`].
pub enum EventView {
    PlayersJoined(Seq<Seq<char>>),
    CountIncreasedUnknownIdentity,
    WatchedPlayerJoined(Seq<char>),
}

impl View for TransitionEvent {
    type V = EventView;

    open spec fn view(&self) -> EventView {
        match self {
            TransitionEvent::PlayersJoined { names } => EventView::PlayersJoined(texts(names@)),
            TransitionEvent::CountIncreasedUnknownIdentity => EventView::CountIncreasedUnknownIdentity,
            TransitionEvent::WatchedPlayerJoined { id } => EventView::WatchedPlayerJoined(id@),
        }
    }
}

/// The values of a sequence of events.
pub open spec fn events_view(v: Seq<TransitionEvent>) -> Seq<EventView> {
    v.map_values(|e: TransitionEvent| e@)
}

/// The sample of a snapshot as a sequence, if there is one.
pub open spec fn sample_of(t: &PresenceSnapshot) -> Option<Seq<PlayerRef>> {
    match t.sample {
        Some(v) => Some(v@),
        None => None,
    }
}

/// The set of texts held by a sequence of strings.
pub open spec fn text_set(v: Seq<String>) -> Set<Seq<char>> {
    Set::new(|k: Seq<char>| texts(v).contains(k))
}

/// The normalized ids of the players of a sample, in sample order.
pub open spec fn sample_ids(s: Seq<PlayerRef>) -> Seq<Seq<char>> {
    s.map_values(|p: PlayerRef| normalized(p.id@))
}

/// The set of normalized ids of the players of a sample.
pub open spec fn id_set(s: Seq<PlayerRef>) -> Set<Seq<char>> {
    Set::new(|k: Seq<char>| sample_ids(s).contains(k))
}

/// The names of the players of `s` whose normalized id is not in `known`,
/// in sample order.
pub open spec fn joined_names(s: Seq<PlayerRef>, known: Set<Seq<char>>) -> Seq<Seq<char>>
    decreases s.len(),
{
    if s.len() == 0 {
        Seq::empty()
    } else {
        let rest = joined_names(s.drop_last(), known);
        if known.contains(normalized(s.last().id@)) {
            rest
        } else {
            rest.push(s.last().name@)
        }
    }
}

/// The known ids after a snapshot with sample `sample`.
pub open spec fn next_known(sample: Option<Seq<PlayerRef>>) -> Set<Seq<char>> {
    match sample {
        Some(s) => id_set(s),
        None => Set::empty(),
    }
}

/// The remembered online count after a snapshot.
pub open spec fn next_count(sample: Option<Seq<PlayerRef>>, online: nat) -> nat {
    match sample {
        Some(s) => online,
        None => 0,
    }
}

/// The events of a snapshot against the known ids and remembered count.
/// While no id is known yet (the first sample, or the first after the sample
/// was lost) there is nothing to compare with, and no event comes.
pub open spec fn next_events(
    known: Set<Seq<char>>,
    last: nat,
    sample: Option<Seq<PlayerRef>>,
    online: nat,
) -> Seq<EventView> {
    match sample {
        None => Seq::empty(),
        Some(s) => {
            if known == Set::<Seq<char>>::empty() {
                Seq::empty()
            } else if id_set(s).difference(known) != Set::<Seq<char>>::empty() {
                seq![EventView::PlayersJoined(joined_names(s, known))]
            } else if last > online {
                seq![EventView::CountIncreasedUnknownIdentity]
            } else {
                Seq::empty()
            }
        },
    }
}

/// Whether a watch list names the player, by normalized id or by name.
pub open spec fn is_watched(p: PlayerRef, watch: Set<Seq<char>>) -> bool {
    watch.contains(normalized(p.id@)) || watch.contains(p.name@)
}

/// The players of `s` that the watch list names, in sample order.
pub open spec fn watched_only(s: Seq<PlayerRef>, watch: Set<Seq<char>>) -> Seq<PlayerRef>
    decreases s.len(),
{
    if s.len() == 0 {
        Seq::empty()
    } else {
        let rest = watched_only(s.drop_last(), watch);
        if is_watched(s.last(), watch) {
            rest.push(s.last())
        } else {
            rest
        }
    }
}

/// The normalized ids of the players of `s` that are not in `known`, each
/// once, in the order of their first appearance.
pub open spec fn fresh_ids(s: Seq<PlayerRef>, known: Set<Seq<char>>) -> Seq<Seq<char>>
    decreases s.len(),
{
    if s.len() == 0 {
        Seq::empty()
    } else {
        let rest = fresh_ids(s.drop_last(), known);
        let n = normalized(s.last().id@);
        if !known.contains(n) && !rest.contains(n) {
            rest.push(n)
        } else {
            rest
        }
    }
}

/// The known ids after a snapshot, when a non-empty watch list filters it.
pub open spec fn watch_known(watch: Set<Seq<char>>, sample: Option<Seq<PlayerRef>>) -> Set<Seq<char>> {
    match sample {
        Some(s) => id_set(watched_only(s, watch)),
        None => Set::empty(),
    }
}

/// The events of a snapshot, when a non-empty watch list filters it: one
/// for each watched id that was not known.
pub open spec fn watch_events(
    known: Set<Seq<char>>,
    watch: Set<Seq<char>>,
    sample: Option<Seq<PlayerRef>>,
) -> Seq<EventView> {
    match sample {
        None => Seq::empty(),
        Some(s) => fresh_ids(watched_only(s, watch), known).map_values(
            |n: Seq<char>| EventView::WatchedPlayerJoined(n),
        ),
    }
}

/// The known ids after a snapshot, with the watch list `watch` (empty: no
/// filtering).
pub open spec fn tracked_known(watch: Seq<String>, sample: Option<Seq<PlayerRef>>) -> Set<Seq<char>> {
    if watch.len() == 0 {
        next_known(sample)
    } else {
        watch_known(text_set(watch), sample)
    }
}

/// The events of a snapshot against the known ids and remembered count,
/// with the watch list `watch` (empty: no filtering).
pub open spec fn tracked_events(
    known: Set<Seq<char>>,
    last: nat,
    watch: Seq<String>,
    sample: Option<Seq<PlayerRef>>,
    online: nat,
) -> Seq<EventView> {
    if watch.len() == 0 {
        next_events(known, last, sample, online)
    } else {
        watch_events(known, text_set(watch), sample)
    }
}

/// Feeding one snapshot twice: whatever the first state was, the second
/// update yields no event at all, so in particular no players joined.
pub proof fn lemma_update_repeated(sample: Option<Seq<PlayerRef>>, online: nat)
    ensures
        next_events(next_known(sample), next_count(sample, online), sample, online)
            == Seq::<EventView>::empty(),
{
    if let Some(s) = sample {
        assert(id_set(s).difference(id_set(s)) =~= Set::<Seq<char>>::empty());
    }
}

proof fn lemma_fresh_ids_none(s: Seq<PlayerRef>, known: Set<Seq<char>>)
    requires
        forall|i: int| 0 <= i < s.len() ==> known.contains(#[trigger] sample_ids(s)[i]),
    ensures
        fresh_ids(s, known) == Seq::<Seq<char>>::empty(),
    decreases s.len(),
{
    if s.len() > 0 {
        let d = s.drop_last();
        assert forall|i: int| 0 <= i < d.len() implies known.contains(#[trigger] sample_ids(d)[i]) by {
            assert(sample_ids(d)[i] == sample_ids(s)[i]);
        }
        lemma_fresh_ids_none(d, known);
        assert(sample_ids(s)[s.len() - 1] == normalized(s.last().id@));
    }
}

/// Feeding one snapshot twice, with or without a watch list: whatever the
/// first state was, the second update yields no event at all.
pub proof fn lemma_tracked_repeated(watch: Seq<String>, sample: Option<Seq<PlayerRef>>, online: nat)
    ensures
        tracked_events(
            tracked_known(watch, sample),
            next_count(sample, online),
            watch,
            sample,
            online,
        ) == Seq::<EventView>::empty(),
{
    if watch.len() == 0 {
        lemma_update_repeated(sample, online);
    } else if let Some(s) = sample {
        let f = watched_only(s, text_set(watch));
        assert forall|i: int| 0 <= i < f.len() implies id_set(f).contains(
            #[trigger] sample_ids(f)[i],
        ) by {
            assert(sample_ids(f).contains(sample_ids(f)[i]));
        }
        lemma_fresh_ids_none(f, id_set(f));
        assert(watch_events(id_set(f), text_set(watch), sample) =~= Seq::<EventView>::empty());
    }
}

/// Whether `v` holds `k` among its texts.
pub fn contains_text(v: &Vec<String>, k: &String) -> (r: bool)
    ensures
        r == texts(v@).contains(k@),
{
    let mut i: usize = 0;
    while i < v.len()
        invariant
            i <= v.len(),
            forall|j: int| 0 <= j < i ==> v@[j]@ != k@,
        decreases v.len() - i,
    {
        if v[i] == *k {
            proof {
                assert(texts(v@)[i as int] == k@);
            }
            return true;
        }
        i = i + 1;
    }
    proof {
        if texts(v@).contains(k@) {
            let j = choose|j: int| 0 <= j < texts(v@).len() && texts(v@)[j] == k@;
            assert(v@[j]@ == k@);
        }
    }
    false
}

proof fn lemma_id_set_push(s: Seq<PlayerRef>)
    requires
        s.len() > 0,
    ensures
        id_set(s) == id_set(s.drop_last()).insert(normalized(s.last().id@)),
{
    let n = normalized(s.last().id@);
    let d = s.drop_last();
    assert forall|k: Seq<char>| id_set(s).contains(k) <==> (id_set(d).contains(k) || k == n) by {
        if sample_ids(s).contains(k) {
            let j = choose|j: int| 0 <= j < sample_ids(s).len() && sample_ids(s)[j] == k;
            if j < s.len() - 1 {
                assert(sample_ids(d)[j] == k);
            }
        }
        if sample_ids(d).contains(k) {
            let j = choose|j: int| 0 <= j < sample_ids(d).len() && sample_ids(d)[j] == k;
            assert(sample_ids(s)[j] == k);
        }
        if k == n {
            assert(sample_ids(s)[s.len() - 1] == n);
        }
    }
    assert(id_set(s) =~= id_set(d).insert(n));
}

proof fn lemma_joined_names_nonempty(s: Seq<PlayerRef>, known: Set<Seq<char>>)
    ensures
        joined_names(s, known).len() > 0 <==> id_set(s).difference(known) != Set::<Seq<char>>::empty(),
    decreases s.len(),
{
    if s.len() == 0 {
        assert(id_set(s).difference(known) =~= Set::<Seq<char>>::empty());
    } else {
        lemma_joined_names_nonempty(s.drop_last(), known);
        lemma_id_set_push(s);
        let n = normalized(s.last().id@);
        if known.contains(n) {
            assert(id_set(s).difference(known) =~= id_set(s.drop_last()).difference(known));
        } else {
            assert(id_set(s).difference(known).contains(n));
        }
    }
}

impl TrackerState {
    /// The set of known normalized ids.
    pub open spec fn known(&self) -> Set<Seq<char>> {
        text_set(self.known_ids@)
    }

    /// Every known id is in normalized form.
    pub open spec fn wf(&self) -> bool {
        forall|i: int|
            0 <= i < self.known_ids@.len() ==> normalized(#[trigger] self.known_ids@[i]@)
                == self.known_ids@[i]@
    }

    /// The state before any sample was seen.
    pub fn new() -> (r: TrackerState)
        ensures
            r.wf(),
            r.known() == Set::<Seq<char>>::empty(),
            r.last_online_count == 0,
    {
        let r = TrackerState { known_ids: Vec::new(), last_online_count: 0 };
        assert(r.known() =~= Set::<Seq<char>>::empty());
        r
    }

    /// Compares `snapshot` with this state: returns the next state and the
    /// events that the snapshot yields.
    pub fn update(&self, snapshot: &PresenceSnapshot) -> (r: (TrackerState, Vec<TransitionEvent>))
        ensures
            r.0.wf(),
            r.0.known() == next_known(sample_of(snapshot)),
            r.0.last_online_count == next_count(sample_of(snapshot), snapshot.online_count as nat),
            self.known() == Set::<Seq<char>>::empty() ==> r.1@.len() == 0,
            events_view(r.1@) == next_events(
                self.known(),
                self.last_online_count as nat,
                sample_of(snapshot),
                snapshot.online_count as nat,
            ),
    {
        match &snapshot.sample {
            None => {
                let st = TrackerState::new();
                let ev: Vec<TransitionEvent> = Vec::new();
                assert(events_view(ev@) =~= Seq::<EventView>::empty());
                (st, ev)
            },
            Some(sample) => {
                let mut new_ids: Vec<String> = Vec::new();
                let mut names: Vec<String> = Vec::new();
                let mut i: usize = 0;
                while i < sample.len()
                    invariant
                        i <= sample.len(),
                        texts(new_ids@) == sample_ids(sample@.take(i as int)),
                        forall|j: int|
                            0 <= j < new_ids@.len() ==> normalized(#[trigger] new_ids@[j]@)
                                == new_ids@[j]@,
                        texts(names@) == joined_names(sample@.take(i as int), self.known()),
                    decreases sample.len() - i,
                {
                    let n = normalize(sample[i].id.as_str());
                    let seen = contains_text(&self.known_ids, &n);
                    let ghost old_ids = new_ids@;
                    proof {
                        lemma_normalize_idempotent(sample@[i as int].id@);
                    }
                    if !seen {
                        names.push(sample[i].name.clone());
                    }
                    new_ids.push(n);
                    proof {
                        let t = sample@.take(i + 1);
                        assert(t.drop_last() =~= sample@.take(i as int));
                        assert(new_ids@ == old_ids.push(n));
                        assert(texts(new_ids@) =~= texts(old_ids).push(n@));
                        assert(t[i as int] == sample@[i as int]);
                        assert(sample_ids(t) =~= sample_ids(t.drop_last()).push(n@));
                        assert(texts(new_ids@) =~= sample_ids(t));
                        assert(texts(names@) =~= joined_names(t, self.known()));
                    }
                    i = i + 1;
                }
                proof {
                    assert(sample@.take(sample@.len() as int) =~= sample@);
                    lemma_joined_names_nonempty(sample@, self.known());
                }
                let st = TrackerState { known_ids: new_ids, last_online_count: snapshot.online_count };
                assert(st.known() =~= id_set(sample@));
                let mut ev: Vec<TransitionEvent> = Vec::new();
                proof {
                    if self.known_ids@.len() > 0 {
                        assert(texts(self.known_ids@)[0] == self.known_ids@[0]@);
                        assert(self.known().contains(self.known_ids@[0]@));
                    } else {
                        assert(self.known() =~= Set::<Seq<char>>::empty());
                    }
                }
                if self.known_ids.len() > 0 {
                    if names.len() > 0 {
                        ev.push(TransitionEvent::PlayersJoined { names });
                    } else if self.last_online_count > snapshot.online_count {
                        ev.push(TransitionEvent::CountIncreasedUnknownIdentity);
                    }
                }
                assert(events_view(ev@) =~= next_events(
                    self.known(),
                    self.last_online_count as nat,
                    sample_of(snapshot),
                    snapshot.online_count as nat,
                ));
                (st, ev)
            },
        }
    }

    /// Like [`TrackerState::update`], but where `watch` is not empty only the
    /// players that it names, by normalized id or by name, are tracked, and
    /// each of them that joined yields its own event.
    pub fn update_watched(&self, snapshot: &PresenceSnapshot, watch: &Vec<String>) -> (r: (
        TrackerState,
        Vec<TransitionEvent>,
    ))
        ensures
            r.0.wf(),
            r.0.last_online_count == next_count(sample_of(snapshot), snapshot.online_count as nat),
            r.0.known() == tracked_known(watch@, sample_of(snapshot)),
            events_view(r.1@) == tracked_events(
                self.known(),
                self.last_online_count as nat,
                watch@,
                sample_of(snapshot),
                snapshot.online_count as nat,
            ),
    {
        if watch.len() == 0 {
            return self.update(snapshot);
        }
        match &snapshot.sample {
            None => {
                let st = TrackerState::new();
                let ev: Vec<TransitionEvent> = Vec::new();
                assert(events_view(ev@) =~= Seq::<EventView>::empty());
                (st, ev)
            },
            Some(sample) => {
                let ghost w = text_set(watch@);
                let mut new_ids: Vec<String> = Vec::new();
                let mut fresh: Vec<String> = Vec::new();
                let mut i: usize = 0;
                while i < sample.len()
                    invariant
                        i <= sample.len(),
                        w == text_set(watch@),
                        texts(new_ids@) == sample_ids(watched_only(sample@.take(i as int), w)),
                        texts(fresh@) == fresh_ids(watched_only(sample@.take(i as int), w), self.known()),
                        forall|j: int|
                            0 <= j < new_ids@.len() ==> normalized(#[trigger] new_ids@[j]@)
                                == new_ids@[j]@,
                    decreases sample.len() - i,
                {
                    let n = normalize(sample[i].id.as_str());
                    let ghost old_ids = new_ids@;
                    let ghost old_fresh = fresh@;
                    let ghost t = sample@.take(i + 1);
                    proof {
                        lemma_normalize_idempotent(sample@[i as int].id@);
                        assert(t.drop_last() =~= sample@.take(i as int));
                        assert(t.last() == sample@[i as int]);
                    }
                    let by_id = contains_text(watch, &n);
                    let by_name = contains_text(watch, &sample[i].name);
                    if by_id || by_name {
                        let known = contains_text(&self.known_ids, &n);
                        let again = contains_text(&fresh, &n);
                        if !known && !again {
                            fresh.push(n.clone());
                        }
                        new_ids.push(n);
                        proof {
                            let f = watched_only(t, w);
                            assert(f == watched_only(t.drop_last(), w).push(sample@[i as int]));
                            assert(f.drop_last() =~= watched_only(t.drop_last(), w));
                            assert(f.last() == sample@[i as int]);
                            assert(texts(new_ids@) =~= texts(old_ids).push(n@));
                            assert(sample_ids(f) =~= sample_ids(f.drop_last()).push(n@));
                            assert(texts(fresh@) =~= fresh_ids(f, self.known()));
                        }
                    }
                    i = i + 1;
                }
                proof {
                    assert(sample@.take(sample@.len() as int) =~= sample@);
                }
                let st = TrackerState { known_ids: new_ids, last_online_count: snapshot.online_count };
                assert(st.known() =~= id_set(watched_only(sample@, w)));
                let ghost target = fresh_ids(watched_only(sample@, w), self.known());
                let mut ev: Vec<TransitionEvent> = Vec::new();
                let mut j: usize = 0;
                while j < fresh.len()
                    invariant
                        j <= fresh.len(),
                        texts(fresh@) == target,
                        events_view(ev@) == target.take(j as int).map_values(
                            |n: Seq<char>| EventView::WatchedPlayerJoined(n),
                        ),
                    decreases fresh.len() - j,
                {
                    let ghost old_ev = ev@;
                    let id = fresh[j].clone();
                    ev.push(TransitionEvent::WatchedPlayerJoined { id });
                    proof {
                        assert(ev@ == old_ev.push(TransitionEvent::WatchedPlayerJoined { id }));
                        assert(events_view(ev@) =~= events_view(old_ev).push(
                            EventView::WatchedPlayerJoined(id@),
                        ));
                        assert(target[j as int] == fresh@[j as int]@);
                        assert(events_view(ev@) =~= target.take(j + 1).map_values(
                            |n: Seq<char>| EventView::WatchedPlayerJoined(n),
                        ));
                    }
                    j = j + 1;
                }
                proof {
                    assert(target.take(target.len() as int) =~= target);
                }
                (st, ev)
            },
        }
    }
}

} // verus!
