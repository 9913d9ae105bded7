use vstd::prelude::*;

use crate::text::push_char;

verus! {

/// Log event types; they decide which receivers a message goes to.
///
/// The events form a hierarchy, from the most detailed to the most general:
/// Auction -> Simulation -> Convergence -> Variant -> Scenario -> Validation.
#[derive(Debug, Clone, Copy, PartialEq, Eq, Structural)]
pub enum LogEvent {
    /// Auction data (full impression data, all bids, auction results)
    Auction,
    /// Simulation iteration data (detailed per-iteration info)
    Simulation,
    /// Convergence information (iteration counts, convergence messages)
    Convergence,
    /// Variant-level data (final converged simulation results for a variant)
    Variant,
    /// Scenario-level data (comparisons between variants, scenario summaries)
    Scenario,
    /// Validation results (pass/fail messages, validation checks)
    Validation,
}

impl LogEvent {
    /// Position of the event in the hierarchy, 0 for `Auction` up to 5 for `Validation`.
    pub open spec fn level(self) -> int {
        match self {
            LogEvent::Auction => 0,
            LogEvent::Simulation => 1,
            LogEvent::Convergence => 2,
            LogEvent::Variant => 3,
            LogEvent::Scenario => 4,
            LogEvent::Validation => 5,
        }
    }
}

/// The event at a level of the hierarchy (levels above 5 give `Validation`).
pub open spec fn event_at_level(level: int) -> LogEvent {
    if level <= 0 {
        LogEvent::Auction
    } else if level == 1 {
        LogEvent::Simulation
    } else if level == 2 {
        LogEvent::Convergence
    } else if level == 3 {
        LogEvent::Variant
    } else if level == 4 {
        LogEvent::Scenario
    } else {
        LogEvent::Validation
    }
}

/// The event itself followed by every more general event, in hierarchy order.
pub open spec fn upward_events_spec(event: LogEvent) -> Seq<LogEvent> {
    Seq::new((6 - event.level()) as nat, |i: int| event_at_level(event.level() + i))
}

/// A receiver that listens to `enabled` hears a message sent to `event` and all
/// upward events when it listens to some event at or above `event`.
pub open spec fn listens_at_or_above(enabled: Seq<LogEvent>, event: LogEvent) -> bool {
    exists|i: int| 0 <= i < enabled.len() && #[trigger] enabled[i].level() >= event.level()
}

/// A receiver listening to `enabled` gets messages logged to `event`.
pub open spec fn hears_event(event: LogEvent) -> spec_fn(Seq<LogEvent>) -> bool {
    |enabled: Seq<LogEvent>| enabled.contains(event)
}

/// A receiver listening to `enabled` gets ERROR and WARNING lines logged to `event`.
pub open spec fn hears_at_or_above(event: LogEvent) -> spec_fn(Seq<LogEvent>) -> bool {
    |enabled: Seq<LogEvent>| listens_at_or_above(enabled, event)
}

/// Unique identifier of a receiver within its logger.
pub type ReceiverId = usize;

/// A receiver as the logger sees it: its identifier and the events it listens to.
pub type ReceiverView = (ReceiverId, Seq<LogEvent>);

/// Identifiers, in registration order, of the receivers whose events satisfy `hears`.
pub open spec fn select_receivers(
    receivers: Seq<ReceiverView>,
    hears: spec_fn(Seq<LogEvent>) -> bool,
) -> Seq<ReceiverId>
    decreases receivers.len(),
{
    if receivers.len() == 0 {
        Seq::empty()
    } else {
        let earlier = select_receivers(receivers.drop_last(), hears);
        if hears(receivers.last().1) {
            earlier.push(receivers.last().0)
        } else {
            earlier
        }
    }
}

/// The receivers with every entry of identifier `id` taken out.
pub open spec fn without_receiver(receivers: Seq<ReceiverView>, id: ReceiverId) -> Seq<ReceiverView>
    decreases receivers.len(),
{
    if receivers.len() == 0 {
        Seq::empty()
    } else {
        let earlier = without_receiver(receivers.drop_last(), id);
        if receivers.last().0 != id {
            earlier.push(receivers.last())
        } else {
            earlier
        }
    }
}

/// Identifiers that strictly increase along the sequence.
pub open spec fn ids_increasing(ids: Seq<ReceiverId>) -> bool {
    forall|a: int, b: int| 0 <= a < b < ids.len() ==> ids[a] < ids[b]
}

/// Receivers whose identifiers strictly increase in registration order.
pub open spec fn receiver_ids_increasing(receivers: Seq<ReceiverView>) -> bool {
    forall|a: int, b: int| 0 <= a < b < receivers.len() ==> receivers[a].0 < receivers[b].0
}

/// A message to be written: the receivers that get it, in order, and its text.
pub struct Dispatch {
    pub receivers: Vec<ReceiverId>,
    pub text: String,
}

/// Console log receiver (its output goes to stdout).
pub struct ConsoleReceiver {
    pub enabled_events: Vec<LogEvent>,
}

impl ConsoleReceiver {
    /// Create a new console receiver listening to the given events.
    pub fn new(enabled_events: Vec<LogEvent>) -> (r: Self)
        ensures
            r.enabled_events@ == enabled_events@,
    {
        ConsoleReceiver { enabled_events }
    }

    /// Whether this receiver handles the given event.
    pub fn should_log(&self, event: LogEvent) -> (b: bool)
        ensures
            b == self.enabled_events@.contains(event),
    {
        events_contain(&self.enabled_events, event)
    }
}

/// Whether `event` is among `events`.
fn events_contain(events: &Vec<LogEvent>, event: LogEvent) -> (b: bool)
    ensures
        b == events@.contains(event),
{
    let mut i: usize = 0;
    while i < events.len()
        invariant
            i <= events.len(),
            forall|k: int| 0 <= k < i ==> events@[k] != event,
        decreases events.len() - i,
    {
        if events[i] == event {
            return true;
        }
        i = i + 1;
    }
    false
}

/// Whether some event of `enabled` is among `events`.
fn listens_to_any(enabled: &Vec<LogEvent>, events: &Vec<LogEvent>) -> (b: bool)
    ensures
        b == (exists|j: int| 0 <= j < events.len() && enabled@.contains(#[trigger] events@[j])),
{
    let mut j: usize = 0;
    while j < events.len()
        invariant
            j <= events.len(),
            forall|k: int| 0 <= k < j ==> !enabled@.contains(#[trigger] events@[k]),
        decreases events.len() - j,
    {
        if events_contain(enabled, events[j]) {
            return true;
        }
        j = j + 1;
    }
    false
}

/// The event and all events above it in the hierarchy, in hierarchy order.
fn upward_events(event: LogEvent) -> (events: Vec<LogEvent>)
    ensures
        events@ == upward_events_spec(event),
{
    let events = match event {
        LogEvent::Auction => vec![
            LogEvent::Auction,
            LogEvent::Simulation,
            LogEvent::Convergence,
            LogEvent::Variant,
            LogEvent::Scenario,
            LogEvent::Validation,
        ],
        LogEvent::Simulation => vec![
            LogEvent::Simulation,
            LogEvent::Convergence,
            LogEvent::Variant,
            LogEvent::Scenario,
            LogEvent::Validation,
        ],
        LogEvent::Convergence => vec![
            LogEvent::Convergence,
            LogEvent::Variant,
            LogEvent::Scenario,
            LogEvent::Validation,
        ],
        LogEvent::Variant => vec![LogEvent::Variant, LogEvent::Scenario, LogEvent::Validation],
        LogEvent::Scenario => vec![LogEvent::Scenario, LogEvent::Validation],
        LogEvent::Validation => vec![LogEvent::Validation],
    };
    assert(events@ =~= upward_events_spec(event));
    events
}


/// The source of receiver identifiers. The program makes one and every logger
/// draws its receivers' identifiers from it, in increasing order, so that no
/// identifier is handed out twice.
pub struct ReceiverIds {
    next: ReceiverId,
}

impl ReceiverIds {
    /// The identifier handed out next.
    pub closed spec fn next_id(&self) -> ReceiverId {
        self.next
    }

    #[verifier::type_invariant]
    closed spec fn well_formed(&self) -> bool {
        self.next >= 1
    }

    /// A source whose first identifier is 1.
    pub fn new() -> (r: Self)
        ensures
            r.next_id() == 1,
    {
        ReceiverIds { next: 1 }
    }

    /// The identifier handed out next.
    pub fn peek(&self) -> (n: ReceiverId)
        ensures
            n == self.next_id(),
    {
        self.next
    }

    /// Hand out the next identifier.
    fn take(&mut self) -> (id: ReceiverId)
        requires
            old(self).next_id() < usize::MAX,
        ensures
            id == old(self).next_id(),
            final(self).next_id() == id + 1,
    {
        proof {
            use_type_invariant(&*self);
        }
        let id = self.next;
        self.next = id + 1;
        id
    }
}

/// Main logger: keeps the receivers it routes messages to, each under an identifier.
pub struct Logger {
    receivers: Vec<RegisteredReceiver>,
    next_id: ReceiverId,
}

/// A receiver held by the logger: its identifier and the events it listens to.
pub struct RegisteredReceiver {
    pub id: ReceiverId,
    pub enabled_events: Vec<LogEvent>,
}

impl View for Logger {
    type V = Seq<ReceiverView>;

    /// The receivers in registration order, each as its identifier and its events.
    closed spec fn view(&self) -> Seq<ReceiverView> {
        self.receivers@.map_values(|r: RegisteredReceiver| (r.id, r.enabled_events@))
    }
}

impl Logger {
    /// Every identifier this logger holds is below this value.
    pub closed spec fn next_receiver_id(&self) -> ReceiverId {
        self.next_id
    }

    #[verifier::type_invariant]
    closed spec fn well_formed(&self) -> bool {
        &&& self.next_id >= 1
        &&& receiver_ids_increasing(self@)
        &&& forall|k: int| 0 <= k < self@.len() ==> #[trigger] self@[k].0 < self.next_id
    }

    /// Create a new logger with no receivers.
    pub fn new() -> (logger: Self)
        ensures
            logger@ == Seq::<ReceiverView>::empty(),
            logger.next_receiver_id() == 1,
            receiver_ids_increasing(logger@),
    {
        Logger { receivers: Vec::new(), next_id: 1 }
    }

    /// Every identifier this logger holds is below this bound.
    pub fn receiver_id_bound(&self) -> (n: ReceiverId)
        ensures
            n == self.next_receiver_id(),
    {
        self.next_id
    }

    /// Add a receiver listening to the given events, under the next identifier
    /// of `ids`, and return that identifier. Since every logger draws its
    /// identifiers from the program's one `ReceiverIds`, no identifier is ever
    /// handed out twice, to this logger or any other.
    pub fn add_receiver(&mut self, ids: &mut ReceiverIds, enabled_events: Vec<LogEvent>) -> (id: ReceiverId)
        requires
            old(self).next_receiver_id() <= old(ids).next_id(),
            old(ids).next_id() < usize::MAX,
        ensures
            id == old(ids).next_id(),
            final(ids).next_id() == id + 1,
            final(self).next_receiver_id() == id + 1,
            final(self)@ == old(self)@.push((id, enabled_events@)),
            forall|k: int| 0 <= k < old(self)@.len() ==> #[trigger] old(self)@[k].0 < id,
            receiver_ids_increasing(final(self)@),
    {
        proof {
            use_type_invariant(&*self);
        }
        let id = ids.take();
        let ghost before = self@;
        let mut receivers = Vec::new();
        std::mem::swap(&mut receivers, &mut self.receivers);
        receivers.push(RegisteredReceiver { id, enabled_events });
        assert(receivers@.map_values(|r: RegisteredReceiver| (r.id, r.enabled_events@))
            =~= before.push((id, receivers@.last().enabled_events@)));
        *self = Logger { receivers, next_id: id + 1 };
        id
    }

    /// Remove the receiver with the given identifier (nothing changes when there is none).
    pub fn remove_receiver(&mut self, id: ReceiverId)
        ensures
            final(self)@ == without_receiver(old(self)@, id),
            final(self).next_receiver_id() == old(self).next_receiver_id(),
            receiver_ids_increasing(final(self)@),
    {
        proof {
            use_type_invariant(&*self);
        }
        let ghost before = self@;
        let mut kept: Vec<RegisteredReceiver> = Vec::new();
        let mut old_receivers = Vec::new();
        std::mem::swap(&mut old_receivers, &mut self.receivers);
        let n = old_receivers.len();
        let mut i: usize = 0;
        while i < n
            invariant
                n == old_receivers.len(),
                i <= n,
                old_receivers@.map_values(|r: RegisteredReceiver| (r.id, r.enabled_events@)) == before,
                kept@.map_values(|r: RegisteredReceiver| (r.id, r.enabled_events@))
                    == without_receiver(before.take(i as int), id),
            decreases n - i,
        {
            let ghost kept_before = kept@;
            assert(before.take(i + 1).drop_last() =~= before.take(i as int));
            if old_receivers[i].id != id {
                let r = RegisteredReceiver {
                    id: old_receivers[i].id,
                    enabled_events: old_receivers[i].enabled_events.clone(),
                };
                kept.push(r);
                assert(kept@.map_values(|r: RegisteredReceiver| (r.id, r.enabled_events@))
                    =~= kept_before.map_values(|r: RegisteredReceiver| (r.id, r.enabled_events@)).push(before[i as int]));
            }
            i = i + 1;
        }
        assert(before.take(n as int) =~= before);
        proof {
            lemma_without_receiver_keeps_order(before, id);
        }
        *self = Logger { receivers: kept, next_id: self.next_id };
    }
}

impl Logger {
    /// Identifiers, in registration order, of the receivers whose events satisfy `hears`.
    fn select(&self, event: LogEvent, upward: bool) -> (ids: Vec<ReceiverId>)
        ensures
            ids_increasing(ids@),
            !upward ==> ids@ == select_receivers(self@, hears_event(event)),
            upward ==> ids@ == select_receivers(self@, hears_at_or_above(event)),
    {
        let events = upward_events(event);
        let ghost hears = if upward {
            hears_at_or_above(event)
        } else {
            hears_event(event)
        };
        let ghost all = self@;
        let mut ids: Vec<ReceiverId> = Vec::new();
        let n = self.receivers.len();
        let mut i: usize = 0;
        while i < n
            invariant
                n == self.receivers.len(),
                i <= n,
                all == self@,
                events@ == upward_events_spec(event),
                hears == (if upward {
                    hears_at_or_above(event)
                } else {
                    hears_event(event)
                }),
                ids@ == select_receivers(all.take(i as int), hears),
            decreases n - i,
        {
            assert(all.take(i + 1).drop_last() =~= all.take(i as int));
            let r = &self.receivers[i];
            assert(all[i as int] == (r.id, r.enabled_events@));
            let receives = if upward {
                let b = listens_to_any(&r.enabled_events, &events);
                proof {
                    lemma_any_upward_event(r.enabled_events@, event);
                }
                b
            } else {
                events_contain(&r.enabled_events, event)
            };
            if receives {
                ids.push(r.id);
            }
            i = i + 1;
        }
        assert(all.take(n as int) =~= all);
        proof {
            use_type_invariant(self);
            lemma_select_keeps_order(all, hears);
        }
        ids
    }

    /// Write a message to every receiver listening to `event`.
    pub fn log(&self, event: LogEvent, message: &str) -> (d: Dispatch)
        ensures
            ids_increasing(d.receivers@),
            d.receivers@ == select_receivers(self@, hears_event(event)),
            d.text@ == message@,
    {
        let receivers = self.select(event, false);
        Dispatch { receivers, text: String::from_str(message) }
    }

    /// Write a message followed by a newline to every receiver listening to `event`.
    pub fn logln(&self, event: LogEvent, message: &str) -> (d: Dispatch)
        ensures
            ids_increasing(d.receivers@),
            d.receivers@ == select_receivers(self@, hears_event(event)),
            d.text@ == message@ + "\n"@,
    {
        let receivers = self.select(event, false);
        Dispatch { receivers, text: String::from_str(message).concat("\n") }
    }

    /// Write "<prefix> <message>" and a newline to every receiver that listens to
    /// `event` or to an event above it; each such receiver gets the message once.
    fn log_with_prefix(&self, event: LogEvent, prefix: &str, message: &str) -> (d: Dispatch)
        ensures
            ids_increasing(d.receivers@),
            d.receivers@ == select_receivers(self@, hears_at_or_above(event)),
            d.text@ == prefix@ + " "@ + message@ + "\n"@,
    {
        let receivers = self.select(event, true);
        let text = String::from_str(prefix).concat(" ").concat(message).concat("\n");
        Dispatch { receivers, text }
    }

    /// Write "ERROR <message>" and a newline to `event` and all events above it.
    pub fn errln(&self, event: LogEvent, message: &str) -> (d: Dispatch)
        ensures
            ids_increasing(d.receivers@),
            d.receivers@ == select_receivers(self@, hears_at_or_above(event)),
            d.text@ == "ERROR"@ + " "@ + message@ + "\n"@,
    {
        self.log_with_prefix(event, "ERROR", message)
    }

    /// Write "WARNING <message>" and a newline to `event` and all events above it.
    pub fn warnln(&self, event: LogEvent, message: &str) -> (d: Dispatch)
        ensures
            ids_increasing(d.receivers@),
            d.receivers@ == select_receivers(self@, hears_at_or_above(event)),
            d.text@ == "WARNING"@ + " "@ + message@ + "\n"@,
    {
        self.log_with_prefix(event, "WARNING", message)
    }

    /// The receivers to flush: all of them, in registration order.
    pub fn flush(&self) -> (ids: Vec<ReceiverId>)
        ensures
            ids@ == self@.map_values(|r: ReceiverView| r.0),
    {
        let ghost all = self@;
        let mut ids: Vec<ReceiverId> = Vec::new();
        let n = self.receivers.len();
        let mut i: usize = 0;
        while i < n
            invariant
                n == self.receivers.len(),
                i <= n,
                all == self@,
                ids@ == all.take(i as int).map_values(|r: ReceiverView| r.0),
            decreases n - i,
        {
            ids.push(self.receivers[i].id);
            assert(ids@ =~= all.take(i + 1).map_values(|r: ReceiverView| r.0));
            i = i + 1;
        }
        assert(all.take(n as int) =~= all);
        ids
    }
}

/// Listening to some event of the upward list of `event` is the same as listening
/// to some event at or above `event`.
proof fn lemma_any_upward_event(enabled: Seq<LogEvent>, event: LogEvent)
    ensures
        (exists|j: int| 0 <= j < upward_events_spec(event).len()
            && enabled.contains(#[trigger] upward_events_spec(event)[j]))
            == listens_at_or_above(enabled, event),
{
    let up = upward_events_spec(event);
    if listens_at_or_above(enabled, event) {
        let i = choose|i: int| 0 <= i < enabled.len() && #[trigger] enabled[i].level() >= event.level();
        let j = enabled[i].level() - event.level();
        assert(up[j] == enabled[i]);
        assert(enabled.contains(up[j]));
    }
    if exists|j: int| 0 <= j < up.len() && enabled.contains(#[trigger] up[j]) {
        let j = choose|j: int| 0 <= j < up.len() && enabled.contains(#[trigger] up[j]);
        let i = choose|i: int| 0 <= i < enabled.len() && enabled[i] == up[j];
        assert(enabled[i].level() >= event.level());
    }
}

/// Taking receivers out keeps the identifiers increasing, and every receiver left
/// was there before.
pub proof fn lemma_without_receiver_keeps_order(receivers: Seq<ReceiverView>, id: ReceiverId)
    requires
        receiver_ids_increasing(receivers),
    ensures
        receiver_ids_increasing(without_receiver(receivers, id)),
        forall|k: int| 0 <= k < without_receiver(receivers, id).len()
            ==> receivers.contains(#[trigger] without_receiver(receivers, id)[k]),
        forall|k: int| 0 <= k < without_receiver(receivers, id).len()
            ==> #[trigger] without_receiver(receivers, id)[k].0 != id,
    decreases receivers.len(),
{
    if receivers.len() > 0 {
        let rest = receivers.drop_last();
        lemma_without_receiver_keeps_order(rest, id);
        let earlier = without_receiver(rest, id);
        assert forall|k: int| 0 <= k < earlier.len() implies #[trigger] earlier[k].0 < receivers.last().0 by {
            assert(rest.contains(earlier[k]));
            let j = choose|j: int| 0 <= j < rest.len() && rest[j] == earlier[k];
            assert(receivers[j] == rest[j]);
        }
        assert forall|k: int| 0 <= k < earlier.len() implies receivers.contains(#[trigger] earlier[k]) by {
            assert(rest.contains(earlier[k]));
            let j = choose|j: int| 0 <= j < rest.len() && rest[j] == earlier[k];
            assert(receivers[j] == rest[j]);
        }
        if receivers.last().0 != id {
            assert(receivers[receivers.len() - 1] == receivers.last());
        }
    }
}

/// Characters that cannot stand in a file name and are replaced by '_'.
pub open spec fn is_forbidden_in_filename(c: char) -> bool {
    c == ' ' || c == '/' || c == '\\' || c == ':' || c == '*' || c == '?' || c == '"'
        || c == '<' || c == '>' || c == '|'
}

/// The character as it stands in a sanitized file name.
pub open spec fn sanitize_char(c: char) -> char {
    if is_forbidden_in_filename(c) {
        '_'
    } else {
        c
    }
}

/// A file name with every forbidden character replaced by '_'.
pub open spec fn sanitized(name: Seq<char>) -> Seq<char> {
    name.map_values(|c: char| sanitize_char(c))
}

/// Sanitize a string to be used as a filename: each of the characters
/// space / \ : * ? " < > | becomes '_', every other character stays.
pub fn sanitize_filename(name: &str) -> (r: String)
    ensures
        r@ == sanitized(name@),
{
    let n = name.unicode_len();
    let mut r = String::new();
    let mut i: usize = 0;
    while i < n
        invariant
            n == name@.len(),
            i <= n,
            r@ == name@.take(i as int).map_values(|c: char| sanitize_char(c)),
        decreases n - i,
    {
        let c = name.get_char(i);
        let out = if c == ' ' || c == '/' || c == '\\' || c == ':' || c == '*' || c == '?'
            || c == '"' || c == '<' || c == '>' || c == '|' {
            '_'
        } else {
            c
        };
        push_char(&mut r, out);
        assert(r@ =~= name@.take(i + 1).map_values(|c: char| sanitize_char(c)));
        i = i + 1;
    }
    assert(name@.take(n as int) =~= name@);
    r
}

/// Selecting receivers keeps the identifiers increasing, and the last identifier
/// selected is at most that of the last receiver.
pub proof fn lemma_select_keeps_order(receivers: Seq<ReceiverView>, hears: spec_fn(Seq<LogEvent>) -> bool)
    requires
        receiver_ids_increasing(receivers),
    ensures
        ids_increasing(select_receivers(receivers, hears)),
        select_receivers(receivers, hears).len() > 0 ==> receivers.len() > 0
            && select_receivers(receivers, hears).last() <= receivers.last().0,
    decreases receivers.len(),
{
    if receivers.len() > 0 {
        let rest = receivers.drop_last();
        lemma_select_keeps_order(rest, hears);
        let earlier = select_receivers(rest, hears);
        if rest.len() > 0 {
            assert(rest.last() == receivers[receivers.len() - 2]);
        }
        assert forall|k: int| 0 <= k < earlier.len() implies #[trigger] earlier[k] < receivers.last().0 by {
            if k < earlier.len() - 1 {
                assert(earlier[k] < earlier[earlier.len() - 1]);
            }
        }
    }
}

/// When every receiver hearing under `narrow` also hears under `wide`, every
/// identifier selected under `narrow` is selected under `wide`.
pub proof fn lemma_select_widening(
    receivers: Seq<ReceiverView>,
    narrow: spec_fn(Seq<LogEvent>) -> bool,
    wide: spec_fn(Seq<LogEvent>) -> bool,
)
    requires
        forall|evs: Seq<LogEvent>| #[trigger] narrow(evs) ==> wide(evs),
    ensures
        forall|id: ReceiverId| #[trigger] select_receivers(receivers, narrow).contains(id)
            ==> select_receivers(receivers, wide).contains(id),
    decreases receivers.len(),
{
    if receivers.len() > 0 {
        let rest = receivers.drop_last();
        lemma_select_widening(rest, narrow, wide);
        let n_rest = select_receivers(rest, narrow);
        let w_rest = select_receivers(rest, wide);
        assert forall|id: ReceiverId| #[trigger] select_receivers(receivers, narrow).contains(id)
            implies select_receivers(receivers, wide).contains(id) by {
            let n_all = select_receivers(receivers, narrow);
            let w_all = select_receivers(receivers, wide);
            let k = choose|k: int| 0 <= k < n_all.len() && n_all[k] == id;
            if k < n_rest.len() {
                assert(n_rest[k] == id);
                assert(n_rest.contains(id));
                assert(w_rest.contains(id));
                let m = choose|m: int| 0 <= m < w_rest.len() && w_rest[m] == id;
                if wide(receivers.last().1) {
                    assert(w_all[m] == id);
                } else {
                    assert(w_all[m] == id);
                }
            } else {
                assert(narrow(receivers.last().1));
                assert(wide(receivers.last().1));
                assert(w_all[w_all.len() - 1] == id);
            }
        }
    }
}

/// Removing a receiver right after adding it gives back the receivers as they
/// were, since the new receiver's identifier was fresh.
pub proof fn law_add_then_remove_restores(
    receivers: Seq<ReceiverView>,
    id: ReceiverId,
    enabled_events: Seq<LogEvent>,
)
    requires
        forall|k: int| 0 <= k < receivers.len() ==> #[trigger] receivers[k].0 < id,
    ensures
        without_receiver(receivers.push((id, enabled_events)), id) == receivers,
{
    assert(receivers.push((id, enabled_events)).drop_last() =~= receivers);
    law_remove_unknown_receiver(receivers, id);
}

/// Removing an identifier that no receiver has leaves the receivers unchanged.
pub proof fn law_remove_unknown_receiver(receivers: Seq<ReceiverView>, id: ReceiverId)
    requires
        forall|k: int| 0 <= k < receivers.len() ==> #[trigger] receivers[k].0 != id,
    ensures
        without_receiver(receivers, id) == receivers,
    decreases receivers.len(),
{
    if receivers.len() > 0 {
        let rest = receivers.drop_last();
        assert forall|k: int| 0 <= k < rest.len() implies #[trigger] rest[k].0 != id by {
            assert(rest[k] == receivers[k]);
        }
        law_remove_unknown_receiver(rest, id);
        assert(receivers.last() == receivers[receivers.len() - 1]);
        assert(rest.push(receivers.last()) =~= receivers);
    }
}

/// Every receiver that gets a plain message logged to `event` also gets an
/// ERROR or WARNING line logged to `event`.
pub proof fn law_direct_listeners_get_errors(receivers: Seq<ReceiverView>, event: LogEvent)
    ensures
        forall|id: ReceiverId|
            #[trigger] select_receivers(receivers, hears_event(event)).contains(id)
            ==> select_receivers(receivers, hears_at_or_above(event)).contains(id),
{
    let narrow = hears_event(event);
    let wide = hears_at_or_above(event);
    assert forall|evs: Seq<LogEvent>| #[trigger] narrow(evs) implies wide(evs) by {
        let i = choose|i: int| 0 <= i < evs.len() && evs[i] == event;
        assert(evs[i].level() >= event.level());
    }
    lemma_select_widening(receivers, narrow, wide);
}

/// An ERROR or WARNING line logged to a more detailed event reaches every receiver
/// that one logged to a more general event reaches.
pub proof fn law_detailed_errors_reach_further(
    receivers: Seq<ReceiverView>,
    detailed: LogEvent,
    general: LogEvent,
)
    requires
        detailed.level() <= general.level(),
    ensures
        forall|id: ReceiverId|
            #[trigger] select_receivers(receivers, hears_at_or_above(general)).contains(id)
            ==> select_receivers(receivers, hears_at_or_above(detailed)).contains(id),
{
    let narrow = hears_at_or_above(general);
    let wide = hears_at_or_above(detailed);
    assert forall|evs: Seq<LogEvent>| #[trigger] narrow(evs) implies wide(evs) by {
        let i = choose|i: int| 0 <= i < evs.len() && #[trigger] evs[i].level() >= general.level();
        assert(evs[i].level() >= detailed.level());
    }
    lemma_select_widening(receivers, narrow, wide);
}

/// A receiver just added gets every message logged to an event it listens to,
/// and every ERROR or WARNING line logged to an event at or below one it
/// listens to; it is the last to get them.
pub proof fn law_added_receiver_hears_its_events(
    receivers: Seq<ReceiverView>,
    id: ReceiverId,
    enabled_events: Seq<LogEvent>,
    event: LogEvent,
)
    ensures
        enabled_events.contains(event) ==> select_receivers(receivers.push((id, enabled_events)), hears_event(event))
            == select_receivers(receivers, hears_event(event)).push(id),
        listens_at_or_above(enabled_events, event) ==> select_receivers(
            receivers.push((id, enabled_events)),
            hears_at_or_above(event),
        ) == select_receivers(receivers, hears_at_or_above(event)).push(id),
{
    let all = receivers.push((id, enabled_events));
    assert(all.drop_last() =~= receivers);
}

/// A removed receiver gets no message any more.
pub proof fn law_removed_receiver_hears_nothing(
    receivers: Seq<ReceiverView>,
    id: ReceiverId,
    hears: spec_fn(Seq<LogEvent>) -> bool,
)
    ensures
        !select_receivers(without_receiver(receivers, id), hears).contains(id),
    decreases receivers.len(),
{
    if receivers.len() > 0 {
        let rest = receivers.drop_last();
        law_removed_receiver_hears_nothing(rest, id, hears);
        let kept = without_receiver(receivers, id);
        let earlier = select_receivers(without_receiver(rest, id), hears);
        if receivers.last().0 != id {
            assert(kept.drop_last() =~= without_receiver(rest, id));
            assert(kept.last() == receivers.last());
            let selected = select_receivers(kept, hears);
            assert forall|k: int| 0 <= k < selected.len() implies selected[k] != id by {
                if k < earlier.len() {
                    assert(selected[k] == earlier[k]);
                    assert(!earlier.contains(id));
                }
            }
        }
    }
}

/// Identifiers drawn from one source never repeat. When every identifier handed
/// out so far (to any logger) is below the source's next one, and a logger's
/// receivers hold identifiers among those, strictly increasing: the next
/// identifier is none of those handed out, it is larger than all of them, and
/// the logger's identifiers still strictly increase once it is added.
pub proof fn law_drawn_identifiers_never_repeat(
    handed_out: Seq<ReceiverId>,
    receivers: Seq<ReceiverView>,
    next: ReceiverId,
    enabled_events: Seq<LogEvent>,
)
    requires
        forall|k: int| 0 <= k < handed_out.len() ==> #[trigger] handed_out[k] < next,
        receiver_ids_increasing(receivers),
        forall|k: int| 0 <= k < receivers.len() ==> handed_out.contains(#[trigger] receivers[k].0),
    ensures
        !handed_out.contains(next),
        receiver_ids_increasing(receivers.push((next, enabled_events))),
        forall|k: int| 0 <= k < handed_out.len() + 1 ==> #[trigger] handed_out.push(next)[k] <= next,
{
    let all = receivers.push((next, enabled_events));
    assert forall|a: int, b: int| 0 <= a < b < all.len() implies all[a].0 < all[b].0 by {
        if b == receivers.len() {
            assert(handed_out.contains(receivers[a].0));
            let k = choose|k: int| 0 <= k < handed_out.len() && handed_out[k] == receivers[a].0;
            assert(handed_out[k] < next);
        }
    }
    assert forall|k: int| 0 <= k < handed_out.len() + 1 implies #[trigger] handed_out.push(next)[k] <= next by {
        if k < handed_out.len() {
            assert(handed_out.push(next)[k] == handed_out[k]);
        }
    }
}

/// Removing the receiver a logger just added gives back its receivers as they
/// were, in the same order: `before` is the logger before `add_receiver`,
/// `after_add` right after it (the new receiver under `id`, larger than every
/// identifier it held), and `after_remove` after `remove_receiver(id)`.
pub proof fn law_remove_just_added_receiver(
    before: Logger,
    after_add: Logger,
    after_remove: Logger,
    id: ReceiverId,
    enabled_events: Seq<LogEvent>,
)
    requires
        after_add@ == before@.push((id, enabled_events)),
        forall|k: int| 0 <= k < before@.len() ==> #[trigger] before@[k].0 < id,
        after_remove@ == without_receiver(after_add@, id),
    ensures
        after_remove@ == before@,
{
    law_add_then_remove_restores(before@, id, enabled_events);
}

/// Sanitizing a sanitized file name changes nothing.
pub proof fn law_sanitize_idempotent(name: Seq<char>)
    ensures
        sanitized(sanitized(name))
            == sanitized(name),
{
    assert(sanitized(sanitized(name))
        =~= sanitized(name));
}

/// A sanitized file name has the length of the name and holds no forbidden character.
pub proof fn law_sanitized_name_is_clean(name: Seq<char>)
    ensures
        sanitized(name).len() == name.len(),
        forall|i: int| 0 <= i < name.len() ==>
            !is_forbidden_in_filename(#[trigger] sanitized(name)[i]),
{
}

} // verus!
