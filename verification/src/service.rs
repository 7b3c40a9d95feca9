//! The registry of printers and the queue of commands.
//!
//! `MqttService` holds, for every registered printer, its live state, what
//! has been kept of its reports and whether a session is pooled for it, and
//! the commands that wait for dispatch. Every operation is a step from one
//! state to the next and hands back what is to be sent or broadcast.

use vstd::prelude::*;
use vstd::string::StringExecFns;
use crate::classifier::{ClassificationView, classification, classify};
use crate::clock::now_millis;
use crate::command::{
    Action, CommandError, is_supported_action, payload, payload_of, report_topic, report_topic_of,
    request_topic, request_topic_of,
};
use crate::json::{json_document, parse_report};
use crate::merge::{deep_merge, lemma_merge_keeps_keys, merge};
use crate::model::{
    PrintCommand, Printer, PrinterConfig, PrinterConfigView, PrinterStatus, PrinterTemperatures,
    PrinterView,
};
use crate::text::text_eq;
use crate::tree::{Json, Tree};

verus! {

/// The model of what the registry holds for one printer.
pub struct EntryView {
    pub printer: PrinterView,
    /// What has been kept of the printer's reports.
    pub telemetry: Json,
    /// Whether a session is pooled for the printer.
    pub session: bool,
}

/// The model of a waiting command: the printer's id and the action.
pub struct QueuedView {
    pub printer_id: Seq<char>,
    pub action: Seq<char>,
}

/// The model of an `MqttService`.
pub struct ServiceView {
    /// The registered printers, in the order of their registration.
    pub entries: Seq<EntryView>,
    /// The waiting commands, the oldest first.
    pub queue: Seq<QueuedView>,
}

/// The first index from `from` on at which the printer `id` stands.
pub open spec fn index_from(entries: Seq<EntryView>, id: Seq<char>, from: int) -> Option<int>
    decreases entries.len() - from,
{
    if from < 0 || from >= entries.len() {
        None
    } else if entries[from].printer.id == id {
        Some(from)
    } else {
        index_from(entries, id, from + 1)
    }
}

/// The index at which the printer `id` stands.
pub open spec fn index_of(entries: Seq<EntryView>, id: Seq<char>) -> Option<int> {
    index_from(entries, id, 0)
}

/// No id stands twice among `entries`.
pub open spec fn ids_unique(entries: Seq<EntryView>) -> bool {
    forall|i: int, j: int| 0 <= i < j < entries.len() ==> entries[i].printer.id != entries[j].printer.id
}

/// What `index_from` finds is the first entry of `id` from `from` on.
pub proof fn lemma_index_from(entries: Seq<EntryView>, id: Seq<char>, from: int)
    requires
        0 <= from,
    ensures
        match index_from(entries, id, from) {
            Some(i) => from <= i < entries.len() && entries[i].printer.id == id && forall|j: int|
                from <= j < i ==> entries[j].printer.id != id,
            None => forall|j: int| from <= j < entries.len() ==> entries[j].printer.id != id,
        },
    decreases entries.len() - from,
{
    if from < entries.len() && entries[from].printer.id != id {
        lemma_index_from(entries, id, from + 1);
    }
}

/// What `index_of` finds is the first entry of `id`.
pub proof fn lemma_index_of(entries: Seq<EntryView>, id: Seq<char>)
    ensures
        match index_of(entries, id) {
            Some(i) => 0 <= i < entries.len() && entries[i].printer.id == id && forall|j: int|
                0 <= j < i ==> entries[j].printer.id != id,
            None => forall|j: int| 0 <= j < entries.len() ==> entries[j].printer.id != id,
        },
{
    lemma_index_from(entries, id, 0);
}

/// The live state of a printer at its registration.
pub open spec fn initial_printer(config: PrinterConfigView, now: i64) -> PrinterView {
    PrinterView {
        id: config.id,
        name: config.name,
        model: config.model,
        ip: config.ip,
        access_code: config.access_code,
        serial: config.serial,
        status: PrinterStatus::Connecting,
        online: false,
        connection_state: "connecting"@,
        temperatures: PrinterTemperatures { nozzle: 0, bed: 0, chamber: 0 },
        print: None,
        filament: None,
        error: None,
        last_update: now,
    }
}

/// The live state after the session has been set up.
pub open spec fn connected_printer(p: PrinterView, now: i64) -> PrinterView {
    PrinterView {
        online: true,
        status: PrinterStatus::Idle,
        connection_state: "connected"@,
        last_update: now,
        ..p
    }
}

/// The live state after a transport error.
pub open spec fn offline_printer(p: PrinterView, now: i64) -> PrinterView {
    PrinterView {
        online: false,
        status: PrinterStatus::Offline,
        connection_state: "failed"@,
        last_update: now,
        ..p
    }
}

/// The live state after a classification has been taken over.
pub open spec fn classified_printer(p: PrinterView, c: ClassificationView, now: i64) -> PrinterView {
    PrinterView {
        temperatures: c.temperatures,
        status: c.status,
        print: c.print,
        error: c.error,
        last_update: now,
        ..p
    }
}

/// The live state after a report: where the kept telemetry holds a `print`
/// member, the printer is classified from it; in any case the time of the
/// last update moves on.
pub open spec fn reported_printer(p: PrinterView, telemetry: Json, now: i64) -> PrinterView {
    match telemetry.get("print"@) {
        Some(print) => classified_printer(p, classification(print, p.temperatures, p.status), now),
        None => PrinterView { last_update: now, ..p },
    }
}

/// Why a command was dropped at dispatch.
#[derive(Clone, Copy, Debug, PartialEq, Eq, Structural)]
pub enum DropReason {
    /// No printer is registered under the id.
    UnknownPrinter,
    /// No session is pooled for the printer.
    NoSession,
}

/// The model of a `Dispatch`.
pub enum DispatchView {
    Publish { printer_id: Seq<char>, topic: Seq<char>, payload: Seq<char> },
    Dropped { printer_id: Seq<char>, reason: DropReason },
}

impl ServiceView {
    /// The service without printers and commands.
    pub open spec fn empty() -> ServiceView {
        ServiceView { entries: Seq::empty(), queue: Seq::empty() }
    }

    /// Every printer is registered once, what is kept of its reports is an
    /// object, and every waiting command is one that a printer takes.
    pub open spec fn wf(self) -> bool {
        &&& ids_unique(self.entries)
        &&& forall|i: int| 0 <= i < self.entries.len() ==> (#[trigger] self.entries[i]).telemetry is Object
        &&& forall|k: int| 0 <= k < self.queue.len() ==> is_supported_action((#[trigger] self.queue[k]).action)
    }

    /// Whether a printer is registered under `id`.
    pub open spec fn registered(self, id: Seq<char>) -> bool {
        index_of(self.entries, id) is Some
    }

    /// The live state of the printer `id`.
    pub open spec fn printer(self, id: Seq<char>) -> Option<PrinterView> {
        match index_of(self.entries, id) {
            Some(i) => Some(self.entries[i].printer),
            None => None,
        }
    }

    /// What has been kept of the reports of the printer `id`.
    pub open spec fn telemetry(self, id: Seq<char>) -> Option<Json> {
        match index_of(self.entries, id) {
            Some(i) => Some(self.entries[i].telemetry),
            None => None,
        }
    }

    /// The live states of all printers, in the order of their registration.
    pub open spec fn printers(self) -> Seq<PrinterView> {
        Seq::new(self.entries.len(), |i: int| self.entries[i].printer)
    }

    /// The state with the entry of `id`, if there is one, replaced by what
    /// `change` makes of it.
    pub open spec fn with_entry(self, id: Seq<char>, change: spec_fn(EntryView) -> EntryView) -> ServiceView {
        match index_of(self.entries, id) {
            Some(i) => ServiceView { entries: self.entries.update(i, change(self.entries[i])), ..self },
            None => self,
        }
    }

    /// The state after a registration: the printer starts as connecting,
    /// with empty telemetry. A printer that was registered under the same
    /// id gives way to it, in its place; the pool of sessions is left as it
    /// is, so that a session pooled under the id stays pooled, and a new
    /// id has none.
    pub open spec fn after_add(self, config: PrinterConfigView, now: i64) -> ServiceView {
        let printer = initial_printer(config, now);
        let telemetry = Json::empty_object();
        match index_of(self.entries, config.id) {
            Some(i) => ServiceView {
                entries: self.entries.update(
                    i,
                    EntryView { printer: printer, telemetry: telemetry, session: self.entries[i].session },
                ),
                ..self
            },
            None => ServiceView {
                entries: self.entries.push(
                    EntryView { printer: printer, telemetry: telemetry, session: false },
                ),
                ..self
            },
        }
    }

    /// Whether a session is pooled for the printer `id`.
    pub open spec fn session(self, id: Seq<char>) -> Option<bool> {
        match index_of(self.entries, id) {
            Some(i) => Some(self.entries[i].session),
            None => None,
        }
    }

    /// The state after a removal: the printer's live state, its telemetry
    /// and its session leave together.
    pub open spec fn after_remove(self, id: Seq<char>) -> ServiceView {
        match index_of(self.entries, id) {
            Some(i) => ServiceView { entries: self.entries.remove(i), ..self },
            None => self,
        }
    }

    /// The state after the session of `id` has been set up.
    pub open spec fn after_connected(self, id: Seq<char>, now: i64) -> ServiceView {
        self.with_entry(
            id,
            |e: EntryView| EntryView { printer: connected_printer(e.printer, now), session: true, ..e },
        )
    }

    /// The state after a transport error in the session of `id`.
    pub open spec fn after_lost(self, id: Seq<char>, now: i64) -> ServiceView {
        self.with_entry(id, |e: EntryView| EntryView { printer: offline_printer(e.printer, now), ..e })
    }

    /// The state after a report of `id`: the report is merged into the kept
    /// telemetry, and the printer is classified from the result. A report
    /// is an object: any other value changes nothing.
    pub open spec fn after_report(self, id: Seq<char>, report: Json, now: i64) -> ServiceView {
        if report is Object {
            self.with_entry(
                id,
                |e: EntryView|
                    {
                        let kept = merge(e.telemetry, report);
                        EntryView { printer: reported_printer(e.printer, kept, now), telemetry: kept, ..e }
                    },
            )
        } else {
            self
        }
    }

    /// The state after a payload of `id` that reads as `document`: a
    /// payload that is no document changes nothing.
    pub open spec fn after_message(self, id: Seq<char>, document: Option<Json>, now: i64) -> ServiceView {
        match document {
            Some(report) => self.after_report(id, report, now),
            None => self,
        }
    }

    /// The state after a command has been put at the end of the queue.
    pub open spec fn after_enqueue(self, id: Seq<char>, action: Seq<char>) -> ServiceView {
        ServiceView { queue: self.queue.push(QueuedView { printer_id: id, action: action }), ..self }
    }

    /// The state after the oldest command has left the queue.
    pub open spec fn after_dispatch(self) -> ServiceView {
        ServiceView { queue: self.queue.drop_first(), ..self }
    }

    /// What becomes of the oldest command: it is published on the request
    /// topic of its printer, or dropped where the printer or its session is
    /// missing.
    pub open spec fn dispatch_of(self, now: i64) -> DispatchView
        recommends
            self.queue.len() > 0,
    {
        let command = self.queue[0];
        match index_of(self.entries, command.printer_id) {
            Some(i) => if self.entries[i].session {
                DispatchView::Publish {
                    printer_id: command.printer_id,
                    topic: request_topic_of(self.entries[i].printer.serial),
                    payload: payload_of(command.action, now),
                }
            } else {
                DispatchView::Dropped { printer_id: command.printer_id, reason: DropReason::NoSession }
            },
            None => DispatchView::Dropped {
                printer_id: command.printer_id,
                reason: DropReason::UnknownPrinter,
            },
        }
    }
}

/// What the registry holds for one printer.
struct Entry {
    printer: Printer,
    telemetry: Tree,
    session: bool,
}

impl View for Entry {
    type V = EntryView;

    closed spec fn view(&self) -> EntryView {
        EntryView { printer: self.printer@, telemetry: self.telemetry@, session: self.session }
    }
}

/// A command that waits for dispatch.
struct Queued {
    printer_id: String,
    action: Action,
}

impl View for Queued {
    type V = QueuedView;

    closed spec fn view(&self) -> QueuedView {
        QueuedView { printer_id: self.printer_id@, action: self.action.name_of() }
    }
}

/// What is to be done once the session with a printer stands.
#[derive(Debug, PartialEq, Eq)]
pub struct Connected {
    /// The topic to subscribe to.
    pub report_topic: String,
    /// The topic on which the status probe goes out.
    pub request_topic: String,
    /// The status probe.
    pub probe: String,
    /// The live state to broadcast.
    pub snapshot: Printer,
}

/// The model of a `Connected`.
pub struct ConnectedView {
    pub report_topic: Seq<char>,
    pub request_topic: Seq<char>,
    pub probe: Seq<char>,
    pub snapshot: PrinterView,
}

impl View for Connected {
    type V = ConnectedView;

    open spec fn view(&self) -> ConnectedView {
        ConnectedView {
            report_topic: self.report_topic@,
            request_topic: self.request_topic@,
            probe: self.probe@,
            snapshot: self.snapshot@,
        }
    }
}

/// What became of a payload.
#[derive(Debug, PartialEq, Eq)]
pub enum MessageOutcome {
    /// No printer is registered under the id: the session has no owner.
    Unregistered,
    /// The payload is no document, or the document no object: it was
    /// dropped.
    Malformed,
    /// The report was taken: the live state to broadcast.
    Updated(Printer),
}

/// What became of the oldest command.
#[derive(Debug, PartialEq, Eq)]
pub enum Dispatch {
    /// It goes out on `topic`, in the session of `printer_id`.
    Publish { printer_id: String, topic: String, payload: String },
    /// It was dropped.
    Dropped { printer_id: String, reason: DropReason },
}

impl View for Dispatch {
    type V = DispatchView;

    open spec fn view(&self) -> DispatchView {
        match self {
            Dispatch::Publish { printer_id, topic, payload } => DispatchView::Publish {
                printer_id: printer_id@,
                topic: topic@,
                payload: payload@,
            },
            Dispatch::Dropped { printer_id, reason } => DispatchView::Dropped {
                printer_id: printer_id@,
                reason: *reason,
            },
        }
    }
}

/// What is to be done once the session with the printer `p` stands, at the
/// time `now`: the subscription to its report topic, the status probe on its
/// request topic, and the broadcast of its new live state.
pub open spec fn connected_of(p: PrinterView, now: i64) -> ConnectedView {
    ConnectedView {
        report_topic: report_topic_of(p.serial),
        request_topic: request_topic_of(p.serial),
        probe: payload_of("get_status"@, now),
        snapshot: connected_printer(p, now),
    }
}

/// The model of an optional live state.
pub open spec fn snapshot_view(snapshot: Option<Printer>) -> Option<PrinterView> {
    match snapshot {
        Some(p) => Some(p@),
        None => None,
    }
}

/// The registry of printers and the queue of commands.
pub struct MqttService {
    entries: Vec<Entry>,
    queue: Vec<Queued>,
}

/// The models of the entries of a registry.
spec fn entry_views(entries: Seq<Entry>) -> Seq<EntryView> {
    Seq::new(entries.len(), |i: int| entries[i]@)
}

/// The models of the commands of a queue.
spec fn queued_views(queue: Seq<Queued>) -> Seq<QueuedView> {
    Seq::new(queue.len(), |i: int| queue[i]@)
}

impl View for MqttService {
    type V = ServiceView;

    closed spec fn view(&self) -> ServiceView {
        ServiceView { entries: entry_views(self.entries@), queue: queued_views(self.queue@) }
    }
}

/// The live state of a printer at its registration.
fn new_printer(config: &PrinterConfig, now: i64) -> (r: Printer)
    ensures
        r@ == initial_printer(config@, now),
{
    Printer {
        id: config.id.clone(),
        name: config.name.clone(),
        model: config.model.clone(),
        ip: config.ip.clone(),
        access_code: config.access_code.clone(),
        serial: config.serial.clone(),
        status: PrinterStatus::Connecting,
        online: false,
        connection_state: String::from_str("connecting"),
        temperatures: PrinterTemperatures { nozzle: 0, bed: 0, chamber: 0 },
        print: None,
        filament: None,
        error: None,
        last_update: now,
    }
}

/// Takes a report into an entry: merges it into the kept telemetry and
/// classifies the printer from the result.
fn take_report(entry: Entry, report: &Tree, now: i64) -> (r: Entry)
    ensures
        r@.telemetry == merge(entry@.telemetry, report@),
        r@.printer == reported_printer(entry@.printer, r@.telemetry, now),
        r@.session == entry@.session,
{
    let Entry { printer, telemetry, session } = entry;
    let kept = deep_merge(&telemetry, report);
    let mut printer = printer;
    match kept.get("print") {
        Some(print) => {
            let c = classify(print, printer.temperatures, printer.status);
            printer.temperatures = c.temperatures;
            printer.status = c.status;
            printer.print = c.print;
            printer.error = c.error;
        },
        None => {},
    }
    printer.last_update = now;
    Entry { printer: printer, telemetry: kept, session: session }
}

/// The index of the entry of `id`.
fn find(entries: &Vec<Entry>, id: &str) -> (r: Option<usize>)
    ensures
        match r {
            Some(i) => index_of(entry_views(entries@), id@) == Some(i as int) && i < entries@.len(),
            None => index_of(entry_views(entries@), id@) is None,
        },
{
    let mut i: usize = 0;
    while i < entries.len()
        invariant
            i <= entries@.len(),
            index_of(entry_views(entries@), id@) == index_from(entry_views(entries@), id@, i as int),
        decreases entries@.len() - i,
    {
        if text_eq(entries[i].printer.id.as_str(), id) {
            return Some(i);
        }
        i += 1;
    }
    None
}

/// Puts `entry` in at `i`.
fn put_back(entries: &mut Vec<Entry>, i: usize, entry: Entry)
    requires
        i <= old(entries)@.len(),
    ensures
        entry_views(final(entries)@) == entry_views(old(entries)@).insert(i as int, entry@),
{
    let ghost e = entry@;
    entries.insert(i, entry);
    assert(entry_views(entries@) =~= entry_views(old(entries)@).insert(i as int, e));
}

/// Takes the entry at `i` out.
fn take_out(entries: &mut Vec<Entry>, i: usize) -> (entry: Entry)
    requires
        i < old(entries)@.len(),
    ensures
        entry@ == entry_views(old(entries)@)[i as int],
        entry_views(final(entries)@) == entry_views(old(entries)@).remove(i as int),
        final(entries)@.len() == old(entries)@.len() - 1,
{
    let entry = entries.remove(i);
    assert(entry_views(entries@) =~= entry_views(old(entries)@).remove(i as int));
    entry
}

impl MqttService {
    /// Every printer is registered once, what is kept of its reports is an
    /// object, and every waiting command is one that a printer takes.
    #[verifier::type_invariant]
    spec fn well_formed(&self) -> bool {
        self@.wf()
    }

    /// A service without printers and commands.
    pub fn new() -> (r: MqttService)
        ensures
            r@ == ServiceView::empty(),
            r@.wf(),
    {
        let r = MqttService { entries: Vec::new(), queue: Vec::new() };
        assert(r@.entries =~= Seq::empty());
        assert(r@.queue =~= Seq::empty());
        r
    }

    /// Whether a printer is registered under `id`.
    pub fn is_registered(&self, id: &str) -> (r: bool)
        ensures
            r == self@.registered(id@),
    {
        find(&self.entries, id).is_some()
    }

    /// The number of commands that wait for dispatch.
    pub fn pending_commands(&self) -> (r: usize)
        ensures
            r == self@.queue.len(),
    {
        self.queue.len()
    }

    /// Registers a printer at the time `now` and hands back its live state,
    /// which is to be broadcast.
    pub fn add_printer_at(&mut self, config: PrinterConfig, now: i64) -> (snapshot: Printer)
        ensures
            final(self)@.wf(),
            final(self)@ == old(self)@.after_add(config@, now),
            final(self)@.printer(config@.id) == Some(snapshot@),
            final(self)@.session(config@.id) == match old(self)@.session(config@.id) {
                Some(pooled) => Some(pooled),
                None => Some(false),
            },
            snapshot@ == initial_printer(config@, now),
    {
        proof {
            use_type_invariant(&*self);
            lemma_after_add(self@, config@, now);
        }
        let printer = new_printer(&config, now);
        let snapshot = printer.clone();
        let mut entries: Vec<Entry> = Vec::new();
        std::mem::swap(&mut entries, &mut self.entries);
        let ghost before = entry_views(entries@);
        match find(&entries, config.id.as_str()) {
            Some(i) => {
                let entry = Entry {
                    printer: printer,
                    telemetry: Tree::empty_object(),
                    session: entries[i].session,
                };
                let ghost e = entry@;
                entries.set(i, entry);
                assert(entry_views(entries@) =~= before.update(i as int, e));
            },
            None => {
                let entry = Entry { printer: printer, telemetry: Tree::empty_object(), session: false };
                let ghost e = entry@;
                entries.push(entry);
                assert(entry_views(entries@) =~= before.push(e));
            },
        }
        self.entries = entries;
        snapshot
    }

    /// Registers a printer now and hands back its live state, which is to
    /// be broadcast.
    pub fn add_printer(&mut self, config: PrinterConfig) -> (snapshot: Printer)
        ensures
            final(self)@.wf(),
            final(self)@ == old(self)@.after_add(config@, snapshot.last_update),
            final(self)@.printer(config@.id) == Some(snapshot@),
            snapshot@ == initial_printer(config@, snapshot.last_update),
    {
        let now = now_millis();
        self.add_printer_at(config, now)
    }

    /// Removes the printer `id` with all that is held for it. The result
    /// says whether there was one: only then is a removal to be broadcast.
    pub fn remove_printer(&mut self, id: &str) -> (removed: bool)
        ensures
            final(self)@.wf(),
            removed == old(self)@.registered(id@),
            final(self)@ == old(self)@.after_remove(id@),
            !final(self)@.registered(id@),
    {
        proof {
            use_type_invariant(&*self);
            lemma_after_remove(self@, id@);
        }
        let mut entries: Vec<Entry> = Vec::new();
        std::mem::swap(&mut entries, &mut self.entries);
        let removed = match find(&entries, id) {
            Some(i) => {
                let _ = take_out(&mut entries, i);
                true
            },
            None => false,
        };
        self.entries = entries;
        removed
    }

    /// A copy of the live states of all printers, in the order of their
    /// registration.
    pub fn get_all_printers(&self) -> (all: Vec<Printer>)
        ensures
            all@.len() == self@.printers().len(),
            forall|i: int| 0 <= i < all@.len() ==> (#[trigger] all@[i])@ == self@.printers()[i],
    {
        let mut all: Vec<Printer> = Vec::new();
        let mut i: usize = 0;
        while i < self.entries.len()
            invariant
                i <= self.entries@.len(),
                all@.len() == i,
                forall|j: int| 0 <= j < i ==> (#[trigger] all@[j])@ == self@.printers()[j],
            decreases self.entries@.len() - i,
        {
            all.push(self.entries[i].printer.clone());
            i += 1;
        }
        all
    }

    /// A copy of the live state of the printer `id`.
    pub fn get_printer(&self, id: &str) -> (r: Option<Printer>)
        ensures
            snapshot_view(r) == self@.printer(id@),
    {
        match find(&self.entries, id) {
            Some(i) => Some(self.entries[i].printer.clone()),
            None => None,
        }
    }

    /// The session of `id` stands, at the time `now`: the printer is online
    /// and idle, and the session is pooled. Hands back the topic to
    /// subscribe to, the status probe to publish and the live state to
    /// broadcast; nothing where no printer is registered under `id`, and
    /// the session is then to be given up.
    pub fn connection_established_at(&mut self, id: &str, now: i64) -> (r: Option<Connected>)
        ensures
            final(self)@.wf(),
            final(self)@ == old(self)@.after_connected(id@, now),
            match r {
                Some(c) => old(self)@.printer(id@) matches Some(p) && c@ == connected_of(p, now),
                None => !old(self)@.registered(id@),
            },
    {
        proof {
            use_type_invariant(&*self);
            lemma_with_entry_wf(
                self@,
                id@,
                |e: EntryView| EntryView { printer: connected_printer(e.printer, now), session: true, ..e },
            );
        }
        let mut entries: Vec<Entry> = Vec::new();
        std::mem::swap(&mut entries, &mut self.entries);
        let ghost before = entry_views(entries@);
        let r = match find(&entries, id) {
            Some(i) => {
                let mut entry = take_out(&mut entries, i);
                entry.printer.online = true;
                entry.printer.status = PrinterStatus::Idle;
                entry.printer.connection_state = String::from_str("connected");
                entry.printer.last_update = now;
                entry.session = true;
                let snapshot = entry.printer.clone();
                let ghost e = entry@;
                put_back(&mut entries, i, entry);
                assert(before.remove(i as int).insert(i as int, e) =~= before.update(i as int, e));
                Some(
                    Connected {
                        report_topic: report_topic(snapshot.serial.as_str()),
                        request_topic: request_topic(snapshot.serial.as_str()),
                        probe: payload(Action::GetStatus, now),
                        snapshot: snapshot,
                    },
                )
            },
            None => None,
        };
        self.entries = entries;
        r
    }

    /// The session of `id` stands, now. See `connection_established_at`.
    pub fn connection_established(&mut self, id: &str) -> (r: Option<Connected>)
        ensures
            final(self)@.wf(),
            match r {
                Some(c) => old(self)@.printer(id@) matches Some(p) && c@ == connected_of(
                    p,
                    c.snapshot.last_update,
                ) && final(self)@ == old(self)@.after_connected(id@, c.snapshot.last_update),
                None => !old(self)@.registered(id@) && final(self)@ == old(self)@,
            },
    {
        let now = now_millis();
        self.connection_established_at(id, now)
    }

    /// The session of `id` met a transport error, at the time `now`: the
    /// printer is offline. Hands back the live state to broadcast; nothing
    /// where no printer is registered under `id`, and the session is then
    /// to be given up.
    pub fn connection_lost_at(&mut self, id: &str, now: i64) -> (r: Option<Printer>)
        ensures
            final(self)@.wf(),
            final(self)@ == old(self)@.after_lost(id@, now),
            snapshot_view(r) == final(self)@.printer(id@),
            r is Some <==> old(self)@.registered(id@),
            r matches Some(snapshot) ==> snapshot.last_update == now,
    {
        proof {
            use_type_invariant(&*self);
            lemma_with_entry_wf(
                self@,
                id@,
                |e: EntryView| EntryView { printer: offline_printer(e.printer, now), ..e },
            );
        }
        let mut entries: Vec<Entry> = Vec::new();
        std::mem::swap(&mut entries, &mut self.entries);
        let ghost before = entry_views(entries@);
        let r = match find(&entries, id) {
            Some(i) => {
                let mut entry = take_out(&mut entries, i);
                entry.printer.online = false;
                entry.printer.status = PrinterStatus::Offline;
                entry.printer.connection_state = String::from_str("failed");
                entry.printer.last_update = now;
                let snapshot = entry.printer.clone();
                let ghost e = entry@;
                put_back(&mut entries, i, entry);
                assert(before.remove(i as int).insert(i as int, e) =~= before.update(i as int, e));
                Some(snapshot)
            },
            None => None,
        };
        self.entries = entries;
        r
    }

    /// The session of `id` met a transport error, now. See
    /// `connection_lost_at`.
    pub fn connection_lost(&mut self, id: &str) -> (r: Option<Printer>)
        ensures
            final(self)@.wf(),
            match r {
                Some(snapshot) => old(self)@.registered(id@) && final(self)@ == old(self)@.after_lost(
                    id@,
                    snapshot.last_update,
                ) && final(self)@.printer(id@) == Some(snapshot@),
                None => !old(self)@.registered(id@) && final(self)@ == old(self)@,
            },
    {
        let now = now_millis();
        self.connection_lost_at(id, now)
    }

    /// Takes a report of the printer `id` at the time `now`: merges it into
    /// the kept telemetry and classifies the printer from the result. A
    /// report that is no object is dropped and changes nothing.
    pub fn apply_report(&mut self, id: &str, report: &Tree, now: i64) -> (r: MessageOutcome)
        ensures
            final(self)@.wf(),
            final(self)@ == old(self)@.after_report(id@, report@, now),
            match r {
                MessageOutcome::Unregistered => !old(self)@.registered(id@),
                MessageOutcome::Malformed => old(self)@.registered(id@) && !(report@ is Object),
                MessageOutcome::Updated(snapshot) => old(self)@.registered(id@) && report@ is Object
                    && final(self)@.printer(id@) == Some(snapshot@),
            },
    {
        let ghost change = |e: EntryView|
            {
                let kept = merge(e.telemetry, report@);
                EntryView { printer: reported_printer(e.printer, kept, now), telemetry: kept, ..e }
            };
        proof {
            use_type_invariant(&*self);
            if report@ is Object {
                assert forall|e: EntryView| e.telemetry is Object implies (#[trigger] change(
                    e,
                )).telemetry is Object by {
                    lemma_merge_keeps_keys(e.telemetry, report@, Seq::empty());
                }
                lemma_with_entry_wf(self@, id@, change);
            }
        }
        if !report.is_object() {
            return if self.is_registered(id) {
                MessageOutcome::Malformed
            } else {
                MessageOutcome::Unregistered
            };
        }
        let mut entries: Vec<Entry> = Vec::new();
        std::mem::swap(&mut entries, &mut self.entries);
        let ghost before = entry_views(entries@);
        let r = match find(&entries, id) {
            Some(i) => {
                let entry = take_out(&mut entries, i);
                let entry = take_report(entry, report, now);
                let snapshot = entry.printer.clone();
                let ghost e = entry@;
                put_back(&mut entries, i, entry);
                proof {
                    assert(before.remove(i as int).insert(i as int, e) =~= before.update(i as int, e));
                    assert(e == change(before[i as int]));
                }
                MessageOutcome::Updated(snapshot)
            },
            None => MessageOutcome::Unregistered,
        };
        self.entries = entries;
        r
    }

    /// Takes a payload of the printer `id` at the time `now`. A payload
    /// that is no document, or whose document is no object, is dropped and
    /// changes nothing; any other is taken as a report.
    pub fn handle_message_at(&mut self, id: &str, payload: &[u8], now: i64) -> (r: MessageOutcome)
        ensures
            final(self)@.wf(),
            final(self)@ == old(self)@.after_message(id@, json_document(payload@), now),
            match r {
                MessageOutcome::Unregistered => !old(self)@.registered(id@),
                MessageOutcome::Malformed => old(self)@.registered(id@) && !is_report(json_document(payload@)),
                MessageOutcome::Updated(snapshot) => old(self)@.registered(id@) && is_report(
                    json_document(payload@),
                ) && final(self)@.printer(id@) == Some(snapshot@),
            },
    {
        proof {
            use_type_invariant(&*self);
        }
        match parse_report(payload) {
            Some(report) => self.apply_report(id, &report, now),
            None => if self.is_registered(id) {
                MessageOutcome::Malformed
            } else {
                MessageOutcome::Unregistered
            },
        }
    }

    /// Takes a payload of the printer `id`, now. See `handle_message_at`.
    pub fn handle_message(&mut self, id: &str, payload: &[u8]) -> (r: MessageOutcome)
        ensures
            final(self)@.wf(),
            match r {
                MessageOutcome::Unregistered => !old(self)@.registered(id@) && final(self)@ == old(self)@,
                MessageOutcome::Malformed => old(self)@.registered(id@) && !is_report(json_document(payload@))
                    && final(self)@ == old(self)@,
                MessageOutcome::Updated(snapshot) => old(self)@.registered(id@) && is_report(
                    json_document(payload@),
                ) && final(self)@.printer(id@) == Some(snapshot@) && final(self)@ == old(
                    self,
                )@.after_message(id@, json_document(payload@), snapshot.last_update),
            },
    {
        let now = now_millis();
        proof {
            use_type_invariant(&*self);
            lemma_after_message(self@, id@, json_document(payload@), now);
        }
        self.handle_message_at(id, payload, now)
    }

    /// Puts a command for the printer `id` at the end of the queue. An
    /// action that no printer takes is refused, and nothing changes.
    /// Acceptance says nothing of delivery: the printer is looked up at
    /// dispatch.
    pub fn send_command(&mut self, printer_id: &str, command: PrintCommand) -> (r: Result<(), CommandError>)
        ensures
            final(self)@.wf(),
            match r {
                Ok(_) => is_supported_action(command@) && final(self)@ == old(self)@.after_enqueue(
                    printer_id@,
                    command@,
                ),
                Err(e) => !is_supported_action(command@) && e@ == command@ && final(self)@ == old(
                    self,
                )@,
            },
    {
        proof {
            use_type_invariant(&*self);
        }
        match Action::parse(command.action.as_str()) {
            Some(action) => {
                let mut queue: Vec<Queued> = Vec::new();
                std::mem::swap(&mut queue, &mut self.queue);
                let ghost before = queued_views(queue@);
                let queued = Queued { printer_id: String::from_str(printer_id), action: action };
                let ghost q = queued@;
                queue.push(queued);
                assert(queued_views(queue@) =~= before.push(q));
                self.queue = queue;
                Ok(())
            },
            None => Err(CommandError::Unsupported(command.action)),
        }
    }

    /// Takes the oldest command off the queue, at the time `now`, and says
    /// what becomes of it; nothing where no command waits.
    pub fn next_dispatch_at(&mut self, now: i64) -> (r: Option<Dispatch>)
        ensures
            final(self)@.wf(),
            match r {
                Some(d) => old(self)@.queue.len() > 0 && final(self)@ == old(self)@.after_dispatch() && d@
                    == old(self)@.dispatch_of(now),
                None => old(self)@.queue.len() == 0 && final(self)@ == old(self)@,
            },
    {
        proof {
            use_type_invariant(&*self);
        }
        if self.queue.len() == 0 {
            return None;
        }
        let mut queue: Vec<Queued> = Vec::new();
        std::mem::swap(&mut queue, &mut self.queue);
        let ghost before = queued_views(queue@);
        let command = queue.remove(0);
        assert(queued_views(queue@) =~= before.drop_first());
        assert(command@ == before[0]);
        self.queue = queue;
        let Queued { printer_id, action } = command;
        match find(&self.entries, printer_id.as_str()) {
            Some(i) => {
                if self.entries[i].session {
                    Some(
                        Dispatch::Publish {
                            printer_id: printer_id,
                            topic: request_topic(self.entries[i].printer.serial.as_str()),
                            payload: payload(action, now),
                        },
                    )
                } else {
                    Some(Dispatch::Dropped { printer_id: printer_id, reason: DropReason::NoSession })
                }
            },
            None => Some(Dispatch::Dropped { printer_id: printer_id, reason: DropReason::UnknownPrinter }),
        }
    }

    /// Takes the oldest command off the queue, now. See `next_dispatch_at`.
    pub fn next_dispatch(&mut self) -> (r: Option<Dispatch>)
        ensures
            final(self)@.wf(),
            match r {
                Some(d) => old(self)@.queue.len() > 0 && final(self)@ == old(self)@.after_dispatch()
                    && exists|now: i64| d@ == #[trigger] old(self)@.dispatch_of(now),
                None => old(self)@.queue.len() == 0 && final(self)@ == old(self)@,
            },
    {
        let now = now_millis();
        let r = self.next_dispatch_at(now);
        assert(r matches Some(d) ==> d@ == old(self)@.dispatch_of(now));
        r
    }
}

/// A report of one printer leaves every other printer as it was: its
/// live state, what is kept of its reports, and its session.
pub proof fn lemma_reports_are_isolated(
    pre: ServiceView,
    id: Seq<char>,
    report: Json,
    now: i64,
    other: Seq<char>,
)
    requires
        pre.wf(),
        other != id,
    ensures
        pre.after_report(id, report, now).printer(other) == pre.printer(other),
        pre.after_report(id, report, now).telemetry(other) == pre.telemetry(other),
        pre.after_report(id, report, now).session(other) == pre.session(other),
        pre.after_report(id, report, now).queue == pre.queue,
{
    if report is Object {
        let change = |e: EntryView|
            {
                let kept = merge(e.telemetry, report);
                EntryView { printer: reported_printer(e.printer, kept, now), telemetry: kept, ..e }
            };
        assert forall|e: EntryView| e.telemetry is Object implies (#[trigger] change(e)).telemetry is Object by {
            lemma_merge_keeps_keys(e.telemetry, report, Seq::empty());
        }
        lemma_with_entry_wf(pre, id, change);
        assert(pre.with_entry(id, change).printer(other) == pre.printer(other));
    }
}

/// Whether a payload reads as a report: as a document that is an object.
pub open spec fn is_report(document: Option<Json>) -> bool {
    document matches Some(report) && report is Object
}

/// After a payload the printer, where it is registered and the payload is a
/// report, carries the time of the payload; a payload that is no report, or
/// one for no registered printer, changes nothing.
pub proof fn lemma_after_message(pre: ServiceView, id: Seq<char>, document: Option<Json>, now: i64)
    requires
        pre.wf(),
    ensures
        pre.registered(id) && is_report(document) ==> (pre.after_message(id, document, now).printer(id) matches Some(
            p,
        ) && p.last_update == now),
        !(pre.registered(id) && is_report(document)) ==> pre.after_message(id, document, now) == pre,
{
    lemma_index_of(pre.entries, id);
    if pre.registered(id) && is_report(document) {
        let report = document->Some_0;
        let change = |e: EntryView|
            {
                let kept = merge(e.telemetry, report);
                EntryView { printer: reported_printer(e.printer, kept, now), telemetry: kept, ..e }
            };
        assert forall|e: EntryView| e.telemetry is Object implies (#[trigger] change(e)).telemetry is Object by {
            lemma_merge_keeps_keys(e.telemetry, report, Seq::empty());
        }
        lemma_with_entry_wf(pre, id, change);
    }
}

/// A registration keeps the registry well formed and leaves the printer
/// registered, with its initial state.
pub proof fn lemma_after_add(pre: ServiceView, config: PrinterConfigView, now: i64)
    requires
        pre.wf(),
    ensures
        pre.after_add(config, now).wf(),
        pre.after_add(config, now).registered(config.id),
        pre.after_add(config, now).printer(config.id) == Some(initial_printer(config, now)),
        pre.after_add(config, now).telemetry(config.id) == Some(Json::empty_object()),
        pre.after_add(config, now).session(config.id) == match pre.session(config.id) {
            Some(pooled) => Some(pooled),
            None => Some(false),
        },
        pre.after_add(config, now).queue == pre.queue,
{
    let post = pre.after_add(config, now);
    lemma_index_of(pre.entries, config.id);
    match index_of(pre.entries, config.id) {
        Some(i) => {
            assert(post.entries[i].printer.id == config.id);
            lemma_first_index(post.entries, config.id, i);
        },
        None => {
            let i = pre.entries.len() as int;
            assert(post.entries[i].printer.id == config.id);
            lemma_first_index(post.entries, config.id, i);
        },
    }
}

/// A registration leaves every other printer as it was: its live state,
/// what is kept of its reports, and its session.
pub proof fn lemma_add_leaves_others(pre: ServiceView, config: PrinterConfigView, now: i64, other: Seq<char>)
    requires
        pre.wf(),
        other != config.id,
    ensures
        pre.after_add(config, now).printer(other) == pre.printer(other),
        pre.after_add(config, now).telemetry(other) == pre.telemetry(other),
        pre.after_add(config, now).session(other) == pre.session(other),
{
    let post = pre.after_add(config, now);
    lemma_index_of(pre.entries, config.id);
    lemma_index_of(pre.entries, other);
    lemma_index_of(post.entries, other);
    match index_of(pre.entries, other) {
        Some(k) => {
            assert(post.entries[k] == pre.entries[k]);
            assert forall|j: int| 0 <= j < k implies post.entries[j].printer.id != other by {
                if index_of(pre.entries, config.id) == Some(j) {
                    assert(post.entries[j].printer.id == config.id);
                } else {
                    assert(post.entries[j] == pre.entries[j]);
                }
            }
            lemma_first_index(post.entries, other, k);
        },
        None => {
            if index_of(post.entries, other) is Some {
                let k = index_of(post.entries, other)->Some_0;
                if k < pre.entries.len() {
                    if index_of(pre.entries, config.id) == Some(k) {
                        assert(post.entries[k].printer.id == config.id);
                    } else {
                        assert(post.entries[k] == pre.entries[k]);
                    }
                } else {
                    assert(post.entries[k].printer.id == config.id);
                }
            }
        },
    }
}

/// The first entry of `id` is what `index_of` finds.
pub proof fn lemma_first_index(entries: Seq<EntryView>, id: Seq<char>, i: int)
    requires
        0 <= i < entries.len(),
        entries[i].printer.id == id,
        forall|j: int| 0 <= j < i ==> entries[j].printer.id != id,
    ensures
        index_of(entries, id) == Some(i),
{
    lemma_index_of(entries, id);
}

/// A removal keeps the registry well formed and leaves no printer under
/// the id; where there was none, nothing changes.
pub proof fn lemma_after_remove(pre: ServiceView, id: Seq<char>)
    requires
        pre.wf(),
    ensures
        pre.after_remove(id).wf(),
        !pre.after_remove(id).registered(id),
        !pre.registered(id) ==> pre.after_remove(id) == pre,
{
    let post = pre.after_remove(id);
    lemma_index_of(pre.entries, id);
    lemma_index_of(post.entries, id);
    match index_of(pre.entries, id) {
        Some(i) => {
            assert forall|j: int| 0 <= j < post.entries.len() implies post.entries[j].printer.id != id by {
                if j < i {
                    assert(post.entries[j] == pre.entries[j]);
                } else {
                    assert(post.entries[j] == pre.entries[j + 1]);
                }
            }
            assert forall|a: int, b: int| 0 <= a < b < post.entries.len() implies post.entries[a].printer.id
                != post.entries[b].printer.id by {
                let a0 = if a < i { a } else { a + 1 };
                let b0 = if b < i { b } else { b + 1 };
                assert(post.entries[a] == pre.entries[a0]);
                assert(post.entries[b] == pre.entries[b0]);
            }
        },
        None => {},
    }
}

/// A printer that is registered and then removed is gone: the first removal
/// finds it, so that one removal is broadcast, and a second removal finds
/// nothing and changes nothing.
pub proof fn lemma_add_then_remove(pre: ServiceView, config: PrinterConfigView, now: i64)
    requires
        pre.wf(),
    ensures
        pre.after_add(config, now).registered(config.id),
        !pre.after_add(config, now).after_remove(config.id).registered(config.id),
        pre.after_add(config, now).after_remove(config.id).after_remove(config.id) == pre.after_add(
            config,
            now,
        ).after_remove(config.id),
        pre.after_add(config, now).after_remove(config.id).wf(),
{
    lemma_after_add(pre, config, now);
    lemma_after_remove(pre.after_add(config, now), config.id);
    lemma_after_remove(pre.after_add(config, now).after_remove(config.id), config.id);
}

/// A change to the entry of a printer that keeps its id keeps the registry
/// well formed and every printer registered.
pub proof fn lemma_with_entry_wf(pre: ServiceView, id: Seq<char>, change: spec_fn(EntryView) -> EntryView)
    requires
        pre.wf(),
        forall|e: EntryView| (#[trigger] change(e)).printer.id == e.printer.id,
        forall|e: EntryView| e.telemetry is Object ==> (#[trigger] change(e)).telemetry is Object,
    ensures
        pre.with_entry(id, change).wf(),
        forall|other: Seq<char>| #[trigger] pre.with_entry(id, change).registered(other) == pre.registered(other),
        forall|other: Seq<char>|
            other != id ==> #[trigger] pre.with_entry(id, change).printer(other) == pre.printer(other)
                && pre.with_entry(id, change).telemetry(other) == pre.telemetry(other)
                && pre.with_entry(id, change).session(other) == pre.session(other),
        pre.with_entry(id, change).printer(id) == match index_of(pre.entries, id) {
            Some(i) => Some(change(pre.entries[i]).printer),
            None => None,
        },
{
    let post = pre.with_entry(id, change);
    lemma_index_of(pre.entries, id);
    assert forall|j: int| 0 <= j < pre.entries.len() implies (#[trigger] post.entries[j]).printer.id
        == pre.entries[j].printer.id by {}
    assert forall|other: Seq<char>| other != id implies #[trigger] post.printer(other) == pre.printer(other)
        && post.telemetry(other) == pre.telemetry(other) && post.session(other) == pre.session(other) by {
        lemma_index_of(pre.entries, other);
        lemma_index_of(post.entries, other);
        match index_of(pre.entries, other) {
            Some(k) => {
                assert(post.entries[k].printer.id == other);
                lemma_first_index(post.entries, other, k);
                assert(post.entries[k] == pre.entries[k]);
            },
            None => {
                if index_of(post.entries, other) is Some {
                    let k = index_of(post.entries, other)->Some_0;
                    assert(pre.entries[k].printer.id == post.entries[k].printer.id);
                }
            },
        }
    }
    assert forall|other: Seq<char>| #[trigger] post.registered(other) == pre.registered(other) by {
        lemma_index_of(pre.entries, other);
        lemma_index_of(post.entries, other);
        match index_of(pre.entries, other) {
            Some(k) => {
                assert(post.entries[k].printer.id == other);
                if index_of(post.entries, other) is None {
                    assert(post.entries[k].printer.id != other);
                }
            },
            None => {
                match index_of(post.entries, other) {
                    Some(k) => {
                        assert(pre.entries[k].printer.id == post.entries[k].printer.id);
                    },
                    None => {},
                }
            },
        }
    }
    lemma_index_of(post.entries, id);
    match index_of(pre.entries, id) {
        Some(i) => {
            assert(post.entries[i].printer.id == id);
            assert forall|j: int| 0 <= j < i implies post.entries[j].printer.id != id by {
                assert(post.entries[j].printer.id == pre.entries[j].printer.id);
            }
            lemma_first_index(post.entries, id, i);
        },
        None => {},
    }
}

} // verus!
