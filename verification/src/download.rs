//! The controller of a download run.
//!
//! A run asks the catalog for one page after another and takes the
//! wallpapers of each page in the order given, until enough new ones are
//! saved or the pages are used up. The controller itself reads no file and
//! sends no request: it answers each `Event` with the `Action` that its
//! caller is to carry out next, and the caller reports back what came of it.
//! The record store alone is consulted here.

use vstd::prelude::*;
use vstd::string::*;
use vstd::utf8::encode_utf8;
use crate::database::{lookup, record_bytes, Database, DatabaseError, Lookup};
use crate::error::{MyError, MyErrorView};
use crate::placement::{any_present, consider, probes, probes_of, screen, target_of, Outcome};
use crate::text::{begins, decimal, decimal_text};
use crate::wallhaven::{views_of, Response, ResponseView, Wallpaper, WallpaperView};

verus! {

/// What a run is waiting for.
#[derive(Clone, Copy, Debug, PartialEq, Eq, Structural)]
pub enum Phase {
    /// To be begun.
    Ready,
    /// A page of the catalog.
    Paging,
    /// The immediate subdirectories of the wallpaper directory.
    Listing,
    /// Word on which of the paths probed hold a file.
    Probing,
    /// Word that the image is saved.
    Saving,
    /// Nothing: the run is over.
    Done,
}

/// What the caller reports.
#[derive(Debug)]
pub enum Event {
    /// The run is to begin.
    Begin,
    /// The catalog sent this page.
    Page(Response),
    /// These are the immediate subdirectories of the wallpaper directory.
    Folders(Vec<String>),
    /// Of the paths to probe, in their order, these hold a file.
    Presence(Vec<bool>),
    /// The image is fetched and written.
    Saved,
    /// The last action failed.
    Failed(MyError),
}

/// An `Event` as plain values.
pub enum EventView {
    Begin,
    Page(ResponseView),
    Folders(Seq<Seq<char>>),
    Presence(Seq<bool>),
    Saved,
    Failed(MyErrorView),
}

impl View for Event {
    type V = EventView;

    open spec fn view(&self) -> EventView {
        match self {
            Event::Begin => EventView::Begin,
            Event::Page(response) => EventView::Page(response@),
            Event::Folders(folders) => EventView::Folders(folders.deep_view()),
            Event::Presence(present) => EventView::Presence(present@),
            Event::Saved => EventView::Saved,
            Event::Failed(error) => EventView::Failed(error@),
        }
    }
}

/// What the caller is to do next.
#[derive(Debug)]
pub enum Action {
    /// Fetch the page of the catalog at this address, and report it.
    Fetch(String),
    /// List the immediate subdirectories of this directory, and report them.
    ListFolders(String),
    /// Report for each of these paths whether a file lies there.
    Probe(Vec<String>),
    /// Fetch the image at `url`, write it to `path`, and report.
    Save { url: String, path: String },
    /// Stop: the run is over, well or with this error.
    Finish(Result<(), MyError>),
}

/// An `Action` as plain values.
pub enum ActionView {
    Fetch(Seq<char>),
    ListFolders(Seq<char>),
    Probe(Seq<Seq<char>>),
    Save { url: Seq<char>, path: Seq<char> },
    Finish(Result<(), MyErrorView>),
}

impl View for Action {
    type V = ActionView;

    open spec fn view(&self) -> ActionView {
        match self {
            Action::Fetch(url) => ActionView::Fetch(url@),
            Action::ListFolders(root) => ActionView::ListFolders(root@),
            Action::Probe(paths) => ActionView::Probe(paths.deep_view()),
            Action::Save { url, path } => ActionView::Save { url: url@, path: path@ },
            Action::Finish(Ok(_)) => ActionView::Finish(Ok(())),
            Action::Finish(Err(error)) => ActionView::Finish(Err(error@)),
        }
    }
}

/// The address of page `page` of a search.
pub open spec fn search_url_of(
    api_key: Seq<char>,
    purity: Seq<char>,
    categories: Seq<char>,
    page: nat,
    atleast: Seq<char>,
    query: Seq<char>,
) -> Seq<char> {
    "https://wallhaven.cc/api/v1/search?apikey="@ + api_key + "&purity="@ + purity
        + "&categories="@ + categories + "&page="@ + decimal(page) + "&atleast="@ + atleast
        + "&q="@ + query
}

/// The closing line of a run.
pub open spec fn summary_of(sfw: nat, nsfw: nat, page: nat, total_pages: nat) -> Seq<char> {
    "Sfw: "@ + decimal(sfw) + " --- Nsfw "@ + decimal(nsfw) + " --- reached: "@ + decimal(page)
        + "/"@ + decimal(total_pages)
}

/// What a walk through the rest of a page comes upon first.
pub enum Scan {
    /// The end of the page: the store knows every wallpaper passed.
    End,
    /// A wallpaper, at this index, of which the store holds nothing.
    Fresh(nat),
    /// A wallpaper, at this index, whose record cannot be read.
    Unreadable(nat),
}

/// A run as plain values.
pub struct Run {
    pub api_key: Seq<char>,
    pub purity: Seq<char>,
    pub categories: Seq<char>,
    pub atleast: Seq<char>,
    pub query: Seq<char>,
    /// The wallpaper directory.
    pub root: Seq<char>,
    /// What the record store holds.
    pub records: Map<Seq<u8>, Seq<u8>>,
    /// How many new wallpapers the run is to save.
    pub target: nat,
    /// The page in work; once the run is over, the page that would have come next.
    pub page: nat,
    /// The number of the last page, as the first page gave it.
    pub total_pages: nat,
    /// How many wallpapers the run has saved.
    pub count: nat,
    /// How many of them are safe for work.
    pub sfw: nat,
    /// How many of them are not.
    pub nsfw: nat,
    pub phase: Phase,
    /// The wallpapers of the page in work.
    pub items: Seq<WallpaperView>,
    /// The index of the wallpaper in work.
    pub next: nat,
}

impl Run {
    /// The counters agree: every wallpaper saved is counted once, as safe
    /// for work or not; no more are saved than the target allows; a run that
    /// still waits for something has not reached its target; and the
    /// wallpaper in work is one of the page.
    pub open spec fn sound(self) -> bool {
        &&& self.count == self.sfw + self.nsfw
        &&& self.count <= self.target
        &&& self.page >= 1
        &&& self.phase == Phase::Ready ==> self.count == 0 && self.page == 1
        &&& self.waiting() ==> self.count < self.target
        &&& self.placing() ==> self.next < self.items.len()
    }

    /// The run waits for the outcome of an action.
    pub open spec fn waiting(self) -> bool {
        self.phase == Phase::Paging || self.placing()
    }

    /// The run is placing a wallpaper.
    pub open spec fn placing(self) -> bool {
        self.phase == Phase::Listing || self.phase == Phase::Probing || self.phase
            == Phase::Saving
    }

    /// Whether `event` answers what the run is waiting for.
    pub open spec fn admits(self, event: EventView) -> bool {
        match self.phase {
            Phase::Ready => event is Begin,
            Phase::Paging => event is Page || event is Failed,
            Phase::Listing => event is Folders || event is Failed,
            Phase::Probing => event is Presence || event is Failed,
            Phase::Saving => event is Saved || event is Failed,
            Phase::Done => false,
        }
    }

    /// The address of the page in work.
    pub open spec fn url(self) -> Seq<char> {
        search_url_of(
            self.api_key,
            self.purity,
            self.categories,
            self.page,
            self.atleast,
            self.query,
        )
    }

    /// What a walk through the page from index `from` comes upon first.
    pub open spec fn scan(self, from: nat) -> Scan
        decreases self.items.len() - from,
    {
        if from >= self.items.len() {
            Scan::End
        } else {
            match lookup(self.records, self.items[from as int].file_name()) {
                Lookup::Found(_) => self.scan(from + 1),
                Lookup::Unreadable => Scan::Unreadable(from),
                Lookup::Missing => Scan::Fresh(from),
            }
        }
    }

    /// The run once the page in work is used up: over if that was the last
    /// page, else asking for the next.
    pub open spec fn turn_page(self) -> (Run, ActionView) {
        let turned = Run { page: self.page + 1, ..self };
        if self.page >= self.total_pages {
            (Run { phase: Phase::Done, ..turned }, ActionView::Finish(Ok(())))
        } else {
            (Run { phase: Phase::Paging, ..turned }, ActionView::Fetch(turned.url()))
        }
    }

    /// The run after it has gone through the page from index `from`, where
    /// the store answers: wallpapers that the store knows are passed over,
    /// the first that it does not know is recorded and taken in work, and
    /// the page is turned where none is left. `None` where the walk comes
    /// upon a record that cannot be read.
    pub open spec fn evaluate(self, from: nat) -> Option<(Run, ActionView)> {
        match self.scan(from) {
            Scan::End => Some(self.turn_page()),
            Scan::Fresh(i) => Some(
                (
                    Run {
                        phase: Phase::Listing,
                        next: i,
                        records: self.records.insert(
                            encode_utf8(self.items[i as int].file_name()),
                            record_bytes(self.items[i as int]),
                        ),
                        ..self
                    },
                    ActionView::ListFolders(self.root),
                ),
            ),
            Scan::Unreadable(_) => None,
        }
    }

    /// The run with what `event` brings taken in: a page's wallpapers and,
    /// with the first page, the number of pages; a saved wallpaper counted.
    pub open spec fn prepared(self, event: EventView) -> Run {
        match event {
            EventView::Page(response) => Run {
                total_pages: if self.page == 1 {
                    response.meta.last_page as nat
                } else {
                    self.total_pages
                },
                items: response.data,
                ..self
            },
            EventView::Saved => if self.items[self.next as int].is_sfw() {
                Run { count: self.count + 1, sfw: self.sfw + 1, ..self }
            } else {
                Run { count: self.count + 1, nsfw: self.nsfw + 1, ..self }
            },
            _ => self,
        }
    }

    /// The index from which `event` sends the run through the page, if it
    /// does: a page from its start, a wallpaper found on disk and a saved
    /// one that leaves the target unreached from behind the wallpaper.
    pub open spec fn scan_from(self, event: EventView) -> Option<nat> {
        match event {
            EventView::Page(_) => Some(0),
            EventView::Presence(present) => if any_present(present) {
                Some(self.next + 1)
            } else {
                None
            },
            EventView::Saved => if self.count + 1 < self.target {
                Some(self.next + 1)
            } else {
                None
            },
            _ => None,
        }
    }

    /// The run after `event`, and the action that answers it, where the
    /// store answers; `None` where the run comes upon a record that cannot
    /// be read.
    ///
    /// A run begins by asking for its first page, unless its target is
    /// nothing. A page is gone through from its start. A wallpaper in work
    /// is probed for in the folders reported; if a file lies at one of the
    /// paths probed the run goes on behind the wallpaper, else it asks for
    /// the image to be saved. A saved image is counted, and ends the run if
    /// it reaches the target; else the run goes on behind the wallpaper. A
    /// failure ends the run.
    pub open spec fn step(self, event: EventView) -> Option<(Run, ActionView)> {
        match event {
            EventView::Begin => Some(
                if self.count >= self.target {
                    (Run { phase: Phase::Done, ..self }, ActionView::Finish(Ok(())))
                } else {
                    (Run { phase: Phase::Paging, ..self }, ActionView::Fetch(self.url()))
                },
            ),
            EventView::Page(_) => self.prepared(event).evaluate(0),
            EventView::Folders(folders) => Some(
                (
                    Run { phase: Phase::Probing, ..self },
                    ActionView::Probe(probes_of(self.root, folders, self.items[self.next as int])),
                ),
            ),
            EventView::Presence(present) => if any_present(present) {
                self.evaluate(self.next + 1)
            } else {
                Some(
                    (
                        Run { phase: Phase::Saving, ..self },
                        ActionView::Save {
                            url: self.items[self.next as int].path,
                            path: target_of(self.root, self.items[self.next as int]),
                        },
                    ),
                )
            },
            EventView::Saved => {
                let counted = self.prepared(event);
                if counted.count < counted.target {
                    counted.evaluate(self.next + 1)
                } else {
                    Some(
                        (
                            Run { phase: Phase::Done, page: counted.page + 1, ..counted },
                            ActionView::Finish(Ok(())),
                        ),
                    )
                }
            },
            EventView::Failed(error) => Some(
                (Run { phase: Phase::Done, ..self }, ActionView::Finish(Err(error))),
            ),
        }
    }

    /// What `download` may leave where the store fails or holds a record
    /// that cannot be read: the run is over with the store's error in words.
    /// After a record that cannot be read, or a wallpaper that cannot be
    /// written as bytes, the records are as they were; after a failure of the
    /// tree nothing is known of them.
    pub open spec fn store_failed(self, event: EventView, after: Run, action: ActionView) -> bool {
        &&& self.scan_from(event) matches Some(from)
        &&& from < self.prepared(event).items.len()
        &&& action matches ActionView::Finish(Err(MyErrorView::DatabaseError(detail)))
            && (begins(detail, "sled error: "@) || begins(detail, "bincode error: "@))
            && (begins(detail, "bincode error: "@) ==> after.records == self.records)
        &&& after == Run {
            phase: Phase::Done,
            records: after.records,
            ..self.prepared(event)
        }
    }
}

/// A walk through a page stops at the first wallpaper that the store does
/// not hold readable: every wallpaper passed is known to the store, and one
/// taken as fresh is missing from it.
pub proof fn lemma_scan_stops_at_first_unknown(run: Run, from: nat)
    requires
        from <= run.items.len(),
    ensures
        match run.scan(from) {
            Scan::End => forall|j: int|
                from <= j < run.items.len() ==> lookup(
                    run.records,
                    #[trigger] run.items[j].file_name(),
                ) is Found,
            Scan::Fresh(i) => {
                &&& from <= i < run.items.len()
                &&& lookup(run.records, run.items[i as int].file_name()) is Missing
                &&& forall|j: int|
                    from <= j < i ==> lookup(
                        run.records,
                        #[trigger] run.items[j].file_name(),
                    ) is Found
            },
            Scan::Unreadable(i) => {
                &&& from <= i < run.items.len()
                &&& lookup(run.records, run.items[i as int].file_name()) is Unreadable
                &&& forall|j: int|
                    from <= j < i ==> lookup(
                        run.records,
                        #[trigger] run.items[j].file_name(),
                    ) is Found
            },
        },
    decreases run.items.len() - from,
{
    if from < run.items.len() {
        if lookup(run.records, run.items[from as int].file_name()) is Found {
            lemma_scan_stops_at_first_unknown(run, from + 1);
        }
    }
}

/// A wallpaper that the store knows is never fetched: whatever the event,
/// the wallpaper that a run takes in work next was missing from the store,
/// and is recorded by the time the run asks for anything on its behalf.
pub proof fn lemma_known_wallpapers_are_passed_over(run: Run, event: EventView)
    requires
        run.sound(),
        run.admits(event),
        run.scan_from(event) is Some,
        run.step(event) matches Some((after, _)) && after.phase == Phase::Listing,
    ensures
        ({
            let after = (run.step(event)->0).0;
            let item = after.items[after.next as int];
            &&& after.next < after.items.len()
            &&& lookup(run.records, item.file_name()) is Missing
            &&& after.records == run.records.insert(
                encode_utf8(item.file_name()),
                record_bytes(item),
            )
        }),
{
    let taken = run.prepared(event);
    let from = run.scan_from(event)->0;
    lemma_scan_stops_at_first_unknown(taken, from);
}

/// What the store holds under a name stays as it is through every step of
/// a run: a run writes under the name of a wallpaper that was missing, and
/// nowhere else.
pub proof fn lemma_step_leaves_known_records(run: Run, event: EventView, name: Seq<char>)
    requires
        run.admits(event),
        run.step(event) is Some,
        !(lookup(run.records, name) is Missing),
    ensures
        lookup((run.step(event)->0).0.records, name) == lookup(run.records, name),
{
    if run.scan_from(event) is Some {
        let taken = run.prepared(event);
        let from = run.scan_from(event)->0;
        if from <= taken.items.len() {
            lemma_scan_stops_at_first_unknown(taken, from);
        }
        if let Scan::Fresh(i) = taken.scan(from) {
            if from <= taken.items.len() {
                let fresh = taken.items[i as int];
                crate::database::lemma_put_leaves_other_names(
                    run.records,
                    fresh.file_name(),
                    name,
                    record_bytes(fresh),
                );
            }
        }
    }
}

/// The same over a whole series of events: whatever a run goes through, a
/// record that the store held at its start is held unchanged at its end.
pub proof fn lemma_run_leaves_known_records(run: Run, events: Seq<EventView>, name: Seq<char>)
    requires
        run_after(run, events) is Some,
        !(lookup(run.records, name) is Missing),
    ensures
        lookup(run_after(run, events)->0.records, name) == lookup(run.records, name),
    decreases events.len(),
{
    if events.len() > 0 {
        let (next, _) = run.step(events[0])->0;
        lemma_step_leaves_known_records(run, events[0], name);
        lemma_run_leaves_known_records(next, events.drop_first(), name);
    }
}

/// The counters of a run stay sound: after every event the wallpapers saved
/// are the safe ones and the others together, and no more than the target.
/// Each report of a saved image counts one, nothing else counts, and a run
/// that goes on has not reached its target.
pub proof fn lemma_step_keeps_count(run: Run, event: EventView)
    requires
        run.sound(),
        run.admits(event),
        run.step(event) is Some,
    ensures
        ({
            let after = (run.step(event)->0).0;
            &&& after.sound()
            &&& after.target == run.target
            &&& after.count == run.count + if event is Saved {
                1nat
            } else {
                0nat
            }
            &&& after.sfw + after.nsfw == after.count
            &&& after.count <= after.target
            &&& after.phase != Phase::Done ==> after.count < after.target
            &&& after.phase != Phase::Ready
        }),
{
    let taken = run.prepared(event);
    if run.scan_from(event) is Some {
        let from = run.scan_from(event)->0;
        lemma_scan_stops_at_first_unknown(taken, from);
    }
}

/// A run stops with the save that reaches its target: it is over, well,
/// with exactly as many wallpapers saved as the target asks, and the page
/// counted as done.
pub proof fn lemma_target_ends_run(run: Run)
    requires
        run.sound(),
        run.phase == Phase::Saving,
        run.count + 1 == run.target,
    ensures
        run.step(EventView::Saved) matches Some((after, action)) && {
            &&& after.phase == Phase::Done
            &&& after.count == run.target
            &&& after.sfw + after.nsfw == run.target
            &&& after.page == run.page + 1
            &&& action == ActionView::Finish(Ok(()))
        },
{
}

/// A run ends for one of three reasons only: its caller reports a failure,
/// it has saved as many wallpapers as its target asks, or the page just
/// gone through was the last. It ends with `Finish`, and `Finish` is given
/// at no other time.
pub proof fn lemma_run_ends_for_a_reason(run: Run, event: EventView)
    requires
        run.sound(),
        run.admits(event),
        run.step(event) is Some,
    ensures
        ({
            let (after, action) = run.step(event)->0;
            &&& after.phase == Phase::Done <==> action is Finish
            &&& after.phase == Phase::Done ==> {
                ||| event matches EventView::Failed(error) && action == ActionView::Finish(
                    Err(error),
                )
                ||| after.count == after.target && action == ActionView::Finish(Ok(()))
                ||| after.page > after.total_pages && after.count < after.target && action
                    == ActionView::Finish(Ok(()))
            }
        }),
{
    let taken = run.prepared(event);
    if run.scan_from(event) is Some {
        let from = run.scan_from(event)->0;
        lemma_scan_stops_at_first_unknown(taken, from);
    }
}

/// The run after a series of events, each of which answers what the run
/// is waiting for by then; `None` where one does not, or where the run
/// comes upon a record that cannot be read.
pub open spec fn run_after(run: Run, events: Seq<EventView>) -> Option<Run>
    decreases events.len(),
{
    if events.len() == 0 {
        Some(run)
    } else if !run.admits(events[0]) {
        None
    } else {
        match run.step(events[0]) {
            Some((next, _)) => run_after(next, events.drop_first()),
            None => None,
        }
    }
}

/// How many of `events` report a saved image.
pub open spec fn saves_in(events: Seq<EventView>) -> nat
    decreases events.len(),
{
    if events.len() == 0 {
        0
    } else if events[0] is Saved {
        1 + saves_in(events.drop_first())
    } else {
        saves_in(events.drop_first())
    }
}

/// Whatever the catalog and the disk answer, a run saves no more wallpapers
/// than its target asks: over any series of events the count grows by the
/// saves reported, the safe and the other wallpapers together make up the
/// count, the count stays within the target, and a run that goes on is
/// still below it.
pub proof fn lemma_run_stays_within_target(run: Run, events: Seq<EventView>)
    requires
        run.sound(),
        run_after(run, events) is Some,
    ensures
        ({
            let end = run_after(run, events)->0;
            &&& end.sound()
            &&& end.target == run.target
            &&& end.count == run.count + saves_in(events)
            &&& end.sfw + end.nsfw == end.count
            &&& end.count <= end.target
            &&& events.len() > 0 && end.phase != Phase::Done ==> end.count < end.target
        }),
    decreases events.len(),
{
    if events.len() > 0 {
        let (next, _) = run.step(events[0])->0;
        lemma_step_keeps_count(run, events[0]);
        lemma_run_stays_within_target(next, events.drop_first());
        if events.len() == 1 {
            assert(run_after(next, events.drop_first()) == Some(next));
        }
    }
}

/// No two of `items` have the same file name.
pub open spec fn distinct_names(items: Seq<WallpaperView>) -> bool {
    forall|i: int, j: int|
        0 <= i < j < items.len() ==> (#[trigger] items[i]).file_name()
            != (#[trigger] items[j]).file_name()
}

/// How many of `events` bring a page of the catalog.
pub open spec fn pages_in(events: Seq<EventView>) -> nat
    decreases events.len(),
{
    if events.len() == 0 {
        0
    } else if events[0] is Page {
        1 + pages_in(events.drop_first())
    } else {
        pages_in(events.drop_first())
    }
}

impl Run {
    /// How many pages of the catalog the run has been given.
    pub open spec fn pages_given(self) -> nat {
        if self.placing() {
            self.page
        } else {
            (self.page - 1) as nat
        }
    }

    /// Whether `event` is one of a run that nothing hinders: no action
    /// fails, no file lies on disk already, and every page brings at least
    /// one wallpaper, all of them under different names and new to the
    /// store; the catalog has at least as many pages as the target asks
    /// wallpapers.
    pub open spec fn favours(self, event: EventView) -> bool {
        match event {
            EventView::Page(response) => {
                &&& response.data.len() >= 1
                &&& distinct_names(response.data)
                &&& forall|i: int|
                    0 <= i < response.data.len() ==> lookup(
                        self.records,
                        (#[trigger] response.data[i]).file_name(),
                    ) is Missing
                &&& self.page == 1 ==> response.meta.last_page >= self.target
            },
            EventView::Presence(present) => !any_present(present),
            EventView::Failed(_) => false,
            _ => true,
        }
    }

    /// What holds all through a run that nothing hinders: every page given
    /// has brought a wallpaper that was saved, every wallpaper of the page
    /// in work before the one in work was saved, those behind it are still
    /// new to the store, and the run is over only with its target reached.
    pub open spec fn on_course(self) -> bool {
        &&& self.sound()
        &&& match self.phase {
            Phase::Ready => true,
            Phase::Paging => {
                &&& self.count + 1 >= self.page
                &&& self.page > 1 ==> self.total_pages >= self.target
            },
            Phase::Done => self.count == self.target && self.page <= self.target + 1,
            _ => {
                &&& self.count + 1 >= self.page + self.next
                &&& self.total_pages >= self.target
                &&& distinct_names(self.items)
                &&& forall|j: int|
                    self.next < j < self.items.len() ==> lookup(
                        self.records,
                        (#[trigger] self.items[j]).file_name(),
                    ) is Missing
            },
        }
    }
}

/// Whether each of `events` answers what the run is waiting for by then, and
/// is one of a run that nothing hinders.
pub open spec fn unhindered(run: Run, events: Seq<EventView>) -> bool
    decreases events.len(),
{
    if events.len() == 0 {
        true
    } else {
        &&& run.admits(events[0])
        &&& run.favours(events[0])
        &&& run.step(events[0]) matches Some((next, _)) && unhindered(next, events.drop_first())
    }
}

/// Taking a wallpaper in work leaves those behind it new to the store.
proof fn lemma_rest_stays_new(run: Run, at: int)
    requires
        0 <= at < run.items.len(),
        distinct_names(run.items),
        forall|j: int|
            at <= j < run.items.len() ==> lookup(
                run.records,
                (#[trigger] run.items[j]).file_name(),
            ) is Missing,
    ensures
        run.scan(at as nat) == Scan::Fresh(at as nat),
        forall|j: int|
            at < j < run.items.len() ==> lookup(
                run.records.insert(
                    encode_utf8(run.items[at].file_name()),
                    record_bytes(run.items[at]),
                ),
                (#[trigger] run.items[j]).file_name(),
            ) is Missing,
{
    assert(lookup(run.records, run.items[at].file_name()) is Missing);
    assert forall|j: int| at < j < run.items.len() implies lookup(
        run.records.insert(encode_utf8(run.items[at].file_name()), record_bytes(run.items[at])),
        (#[trigger] run.items[j]).file_name(),
    ) is Missing by {
        assert(run.items[at].file_name() != run.items[j].file_name());
        crate::database::lemma_put_leaves_other_names(
            run.records,
            run.items[at].file_name(),
            run.items[j].file_name(),
            record_bytes(run.items[at]),
        );
    }
}

/// One step of a run that nothing hinders keeps it on course, and only a
/// page of the catalog counts as a page given.
pub proof fn lemma_step_stays_on_course(run: Run, event: EventView)
    requires
        run.on_course(),
        run.admits(event),
        run.favours(event),
    ensures
        run.step(event) matches Some((after, _)) && {
            &&& after.on_course()
            &&& after.target == run.target
            &&& after.pages_given() == run.pages_given() + if event is Page {
                1nat
            } else {
                0nat
            }
        },
{
    match event {
        EventView::Page(response) => {
            let taken = run.prepared(event);
            lemma_rest_stays_new(taken, 0);
        },
        EventView::Saved => {
            let counted = run.prepared(event);
            if counted.count < counted.target {
                if run.next + 1 < run.items.len() {
                    lemma_rest_stays_new(counted, run.next as int + 1);
                } else {
                    assert(counted.scan(run.next + 1) == Scan::End);
                }
            }
        },
        _ => {},
    }
}

/// With a catalog that has pages enough, each with a wallpaper new to the
/// store, an empty disk and no failure, a run never ends short of its
/// target: it stays on course over any series of events, asks for no more
/// pages than its target counts wallpapers, and once it is over it has
/// saved exactly as many wallpapers as its target asks.
pub proof fn lemma_unhindered_run_reaches_target(run: Run, events: Seq<EventView>)
    requires
        run.on_course(),
        unhindered(run, events),
    ensures
        run_after(run, events) matches Some(end) && {
            &&& end.on_course()
            &&& end.target == run.target
            &&& end.pages_given() == run.pages_given() + pages_in(events)
            &&& end.pages_given() <= end.target
            &&& end.count == run.count + saves_in(events)
            &&& end.phase == Phase::Done ==> end.count == end.target && end.sfw + end.nsfw
                == end.target
        },
    decreases events.len(),
{
    if events.len() > 0 {
        let (next, _) = run.step(events[0])->0;
        lemma_step_stays_on_course(run, events[0]);
        lemma_step_keeps_count(run, events[0]);
        lemma_unhindered_run_reaches_target(next, events.drop_first());
    }
}

/// A run that is over takes no further event.
pub proof fn lemma_done_is_final(run: Run, event: EventView)
    requires
        run.phase == Phase::Done,
    ensures
        !run.admits(event),
{
}

/// A page whose wallpapers the store knows all, one without wallpapers too,
/// is turned like any other: the run is over, well and below its target,
/// if that was the last page, and asks for the next page if not.
pub proof fn lemma_page_without_news_is_turned(run: Run, response: ResponseView)
    requires
        run.sound(),
        run.phase == Phase::Paging,
        forall|j: int|
            0 <= j < response.data.len() ==> lookup(
                run.records,
                #[trigger] response.data[j].file_name(),
            ) is Found,
    ensures
        run.step(EventView::Page(response)) matches Some((after, action)) && {
            let last = if run.page == 1 {
                response.meta.last_page as nat
            } else {
                run.total_pages
            };
            &&& after.page == run.page + 1
            &&& after.total_pages == last
            &&& after.records == run.records
            &&& after.count == run.count
            &&& after.count < after.target
            &&& run.page >= last ==> after.phase == Phase::Done && action == ActionView::Finish(
                Ok(()),
            )
            &&& run.page < last ==> after.phase == Phase::Paging && action == ActionView::Fetch(
                after.url(),
            )
        },
{
    let taken = run.prepared(EventView::Page(response));
    lemma_scan_stops_at_first_unknown(taken, 0);
    match taken.scan(0) {
        Scan::End => {},
        Scan::Fresh(i) => {
            assert(lookup(run.records, response.data[i as int].file_name()) is Found);
        },
        Scan::Unreadable(i) => {
            assert(lookup(run.records, response.data[i as int].file_name()) is Found);
        },
    }
}

/// The address of page `page` of a search.
pub fn search_url(
    api_key: &str,
    purity: &str,
    categories: &str,
    page: u64,
    atleast: &str,
    query: &str,
) -> (url: String)
    ensures
        url@ == search_url_of(api_key@, purity@, categories@, page as nat, atleast@, query@),
{
    let mut url = "https://wallhaven.cc/api/v1/search?apikey=".to_owned();
    url.append(api_key);
    url.append("&purity=");
    url.append(purity);
    url.append("&categories=");
    url.append(categories);
    url.append("&page=");
    url.append(decimal_text(page).as_str());
    url.append("&atleast=");
    url.append(atleast);
    url.append("&q=");
    url.append(query);
    url
}

/// The closing line of a run: how many wallpapers of each kind were saved,
/// and the page reached of how many.
pub fn summary_line(sfw: u32, nsfw: u32, page: u64, total_pages: u32) -> (line: String)
    ensures
        line@ == summary_of(sfw as nat, nsfw as nat, page as nat, total_pages as nat),
{
    let mut line = "Sfw: ".to_owned();
    line.append(decimal_text(sfw as u64).as_str());
    line.append(" --- Nsfw ");
    line.append(decimal_text(nsfw as u64).as_str());
    line.append(" --- reached: ");
    line.append(decimal_text(page).as_str());
    line.append("/");
    line.append(decimal_text(total_pages as u64).as_str());
    line
}

/// The counters of a run.
#[derive(Clone, Copy, Debug, PartialEq, Eq)]
pub struct Progress {
    pub phase: Phase,
    pub target: u32,
    pub page: u64,
    pub total_pages: u32,
    pub count: u32,
    pub sfw: u32,
    pub nsfw: u32,
    pub next: usize,
}

/// What a run does with the store's answer on the wallpaper at `index` of
/// the page in work.
///
/// A wallpaper that the store knew is passed over: nothing changes and
/// nothing is to be done for it. One that the store has just recorded is
/// taken in work, and the folders of `root` are asked for. An error of the
/// store ends the run, with the error in words.
pub fn answered(
    progress: Progress,
    index: usize,
    root: &str,
    answer: Result<bool, DatabaseError>,
) -> (r: (Progress, Option<Action>))
    ensures
        match answer {
            Ok(true) => r.0 == progress && r.1 is None,
            Ok(false) => {
                &&& r.0 == (Progress { phase: Phase::Listing, next: index, ..progress })
                &&& r.1 matches Some(action) && action@ == ActionView::ListFolders(root@)
            },
            Err(e) => {
                &&& r.0 == (Progress { phase: Phase::Done, ..progress })
                &&& r.1 matches Some(action) && action@ matches ActionView::Finish(
                    Err(MyErrorView::DatabaseError(detail)),
                ) && match e {
                    DatabaseError::KeyNotExist => detail == "Key not existed in database."@,
                    DatabaseError::SledError(_) => begins(detail, "sled error: "@),
                    DatabaseError::BinCodeError(_) => begins(detail, "bincode error: "@),
                }
            },
        },
{
    match answer {
        Ok(true) => (progress, None),
        Ok(false) => (
            Progress { phase: Phase::Listing, next: index, ..progress },
            Some(Action::ListFolders(root.to_owned())),
        ),
        Err(e) => (
            Progress { phase: Phase::Done, ..progress },
            Some(Action::Finish(Err(MyError::from(e)))),
        ),
    }
}

/// The labels of the store's two kinds of failure differ.
proof fn lemma_labels_differ(detail: Seq<char>)
    ensures
        !(begins(detail, "sled error: "@) && begins(detail, "bincode error: "@)),
{
    reveal_strlit("sled error: ");
    reveal_strlit("bincode error: ");
    if begins(detail, "sled error: "@) && begins(detail, "bincode error: "@) {
        assert(detail.subrange(0, "sled error: "@.len() as int)[0] == 's');
        assert(detail.subrange(0, "bincode error: "@.len() as int)[0] == 'b');
    }
}

/// A download run: the search it makes, the record store it consults, and
/// how far it has come.
pub struct WallHaven {
    api_key: String,
    purity: String,
    categories: String,
    atleast: String,
    query: String,
    download_location: String,
    db: Database,
    agenda: Agenda,
}

/// How far a run has come, with the wallpapers of the page in work.
struct Agenda {
    progress: Progress,
    items: Vec<Wallpaper>,
}

impl Agenda {
    #[verifier::type_invariant]
    spec fn inv(self) -> bool {
        let p = self.progress;
        let placing = p.phase == Phase::Listing || p.phase == Phase::Probing || p.phase
            == Phase::Saving;
        &&& p.count == p.sfw + p.nsfw
        &&& p.count <= p.target
        &&& 1 <= p.page <= u32::MAX + 1
        &&& p.phase != Phase::Done ==> p.page <= u32::MAX
        &&& p.phase == Phase::Ready ==> p.count == 0 && p.page == 1
        &&& p.phase == Phase::Paging || placing ==> p.count < p.target
        &&& placing ==> p.next < self.items.len()
    }
}

impl View for WallHaven {
    type V = Run;

    closed spec fn view(&self) -> Run {
        Run {
            api_key: self.api_key@,
            purity: self.purity@,
            categories: self.categories@,
            atleast: self.atleast@,
            query: self.query@,
            root: self.download_location@,
            records: self.db@,
            target: self.agenda.progress.target as nat,
            page: self.agenda.progress.page as nat,
            total_pages: self.agenda.progress.total_pages as nat,
            count: self.agenda.progress.count as nat,
            sfw: self.agenda.progress.sfw as nat,
            nsfw: self.agenda.progress.nsfw as nat,
            phase: self.agenda.progress.phase,
            items: views_of(self.agenda.items@),
            next: self.agenda.progress.next as nat,
        }
    }
}

impl WallHaven {
    /// What the tree beside the records of the run's store holds.
    pub closed spec fn reserved(&self) -> Map<Seq<u8>, Seq<u8>> {
        self.db.reserved()
    }

    /// A run that is to save ten new wallpapers in `download_location`,
    /// ready to begin at the first page.
    pub fn new(
        api_key: &str,
        purity: &str,
        categories: &str,
        atleast: &str,
        query: &str,
        download_location: &str,
        db: Database,
    ) -> (r: Self)
        ensures
            r@ == (Run {
                api_key: api_key@,
                purity: purity@,
                categories: categories@,
                atleast: atleast@,
                query: query@,
                root: download_location@,
                records: db@,
                target: 10,
                page: 1,
                total_pages: 1,
                count: 0,
                sfw: 0,
                nsfw: 0,
                phase: Phase::Ready,
                items: Seq::empty(),
                next: 0,
            }),
            r@.sound(),
            r.reserved() == db.reserved(),
    {
        let r = WallHaven {
            api_key: api_key.to_owned(),
            purity: purity.to_owned(),
            categories: categories.to_owned(),
            atleast: atleast.to_owned(),
            query: query.to_owned(),
            download_location: download_location.to_owned(),
            db,
            agenda: Agenda {
                progress: Progress {
                    phase: Phase::Ready,
                    target: 10,
                    page: 1,
                    total_pages: 1,
                    count: 0,
                    sfw: 0,
                    nsfw: 0,
                    next: 0,
                },
                items: Vec::new(),
            },
        };
        assert(r@.items =~= Seq::empty());
        r
    }

    /// The same run with another target, where it has not begun; unchanged
    /// where it has.
    pub fn with_target(self, target: u32) -> (r: Self)
        ensures
            r@ == if self@.phase == Phase::Ready {
                Run { target: target as nat, ..self@ }
            } else {
                self@
            },
            r@.sound(),
            r.reserved() == self.reserved(),
    {
        proof {
            use_type_invariant(&self.agenda);
        }
        let mut r = self;
        match r.agenda.progress.phase {
            Phase::Ready => {
                r.agenda.progress = Progress { target, ..r.agenda.progress };
            },
            _ => {},
        }
        r
    }

    /// The counters as they stand.
    pub fn progress(&self) -> (p: Progress)
        ensures
            p.phase == self@.phase,
            p.target == self@.target,
            p.page == self@.page,
            p.total_pages == self@.total_pages,
            p.count == self@.count,
            p.sfw == self@.sfw,
            p.nsfw == self@.nsfw,
            p.next == self@.next,
            self@.sound(),
    {
        proof {
            use_type_invariant(&self.agenda);
        }
        self.agenda.progress
    }

    /// The record store.
    pub fn database(&self) -> (db: &Database)
        ensures
            db@ == self@.records,
            db.reserved() == self.reserved(),
    {
        &self.db
    }

    /// Gives the record store back.
    pub fn into_database(self) -> (db: Database)
        ensures
            db@ == self@.records,
            db.reserved() == self.reserved(),
    {
        self.db
    }

    /// The closing line of the run as it stands.
    pub fn summary(&self) -> (line: String)
        ensures
            line@ == summary_of(self@.sfw, self@.nsfw, self@.page, self@.total_pages),
    {
        summary_line(
            self.agenda.progress.sfw,
            self.agenda.progress.nsfw,
            self.agenda.progress.page,
            self.agenda.progress.total_pages,
        )
    }

    fn page_url(&self) -> (url: String)
        ensures
            url@ == self@.url(),
    {
        search_url(
            self.api_key.as_str(),
            self.purity.as_str(),
            self.categories.as_str(),
            self.agenda.progress.page,
            self.atleast.as_str(),
            self.query.as_str(),
        )
    }

    fn turn_page(&mut self) -> (action: Action)
        requires
            old(self)@.waiting(),
        ensures
            (final(self)@, action@) == old(self)@.turn_page(),
            final(self)@.sound(),
            final(self).reserved() == old(self).reserved(),
    {
        proof {
            use_type_invariant(&self.agenda);
        }
        let p = self.agenda.progress;
        if p.page >= p.total_pages as u64 {
            self.agenda.progress = Progress { phase: Phase::Done, page: p.page + 1, ..p };
            Action::Finish(Ok(()))
        } else {
            self.agenda.progress = Progress { phase: Phase::Paging, page: p.page + 1, ..p };
            Action::Fetch(self.page_url())
        }
    }

    fn evaluate(&mut self, from: usize) -> (action: Action)
        requires
            from <= old(self)@.items.len(),
            old(self)@.waiting(),
        ensures
            final(self)@.sound(),
            final(self).reserved() == old(self).reserved(),
            final(self)@.phase == Phase::Listing ==> lookup(
                final(self)@.records,
                final(self)@.items[final(self)@.next as int].file_name(),
            ) == Lookup::Found(final(self)@.items[final(self)@.next as int]),
            old(self)@.evaluate(from as nat) == Some((final(self)@, action@)) || {
                &&& from < old(self)@.items.len()
                &&& action@ matches ActionView::Finish(Err(MyErrorView::DatabaseError(detail)))
                    && (begins(detail, "sled error: "@) || begins(detail, "bincode error: "@))
                    && (begins(detail, "bincode error: "@) ==> final(self)@.records
                    == old(self)@.records)
                &&& final(self)@ == Run {
                    phase: Phase::Done,
                    records: final(self)@.records,
                    ..old(self)@
                }
            },
    {
        proof {
            use_type_invariant(&self.agenda);
        }
        let mut i = from;
        while i < self.agenda.items.len()
            invariant
                from <= i <= self.agenda.items.len(),
                self.agenda.inv(),
                self@ == old(self)@,
                self.reserved() == old(self).reserved(),
                old(self)@.scan(from as nat) == old(self)@.scan(i as nat),
                self@.waiting(),
            decreases self.agenda.items.len() - i,
        {
            let answer = screen(&mut self.db, &self.agenda.items[i]);
            let (progress, action) = answered(
                self.agenda.progress,
                i,
                self.download_location.as_str(),
                answer,
            );
            match action {
                Some(action) => {
                    proof {
                        if let ActionView::Finish(Err(MyErrorView::DatabaseError(detail))) =
                            action@ {
                            lemma_labels_differ(detail);
                        }
                    }
                    self.agenda.progress = progress;
                    return action;
                },
                None => {
                    i = i + 1;
                },
            }
        }
        self.turn_page()
    }

    /// Takes `event` in and says what is to be done next.
    ///
    /// An event that does not answer what the run is waiting for changes
    /// nothing and gets `None`. Any other gets the action that `Run::step`
    /// names, and leaves the run as `Run::step` says, unless the record
    /// store fails or holds a record that cannot be read: then the run is
    /// over with the store's error. A failure that the caller reports ends
    /// the run with that error. A wallpaper that the run takes in work is
    /// in the store by then, and reads back as itself. The tree beside the
    /// records is never written.
    pub fn download(&mut self, event: Event) -> (r: Option<Action>)
        ensures
            final(self)@.sound(),
            final(self).reserved() == old(self).reserved(),
            old(self)@.admits(event@) && final(self)@.phase == Phase::Listing ==> lookup(
                final(self)@.records,
                final(self)@.items[final(self)@.next as int].file_name(),
            ) == Lookup::Found(final(self)@.items[final(self)@.next as int]),
            !old(self)@.admits(event@) ==> r is None && final(self)@ == old(self)@,
            old(self)@.admits(event@) ==> (r matches Some(action) && {
                ||| old(self)@.step(event@) == Some((final(self)@, action@))
                ||| old(self)@.store_failed(event@, final(self)@, action@)
            }),
    {
        proof {
            use_type_invariant(&self.agenda);
        }
        let p = self.agenda.progress;
        match event {
            Event::Begin => match p.phase {
                Phase::Ready => {
                    if p.count >= p.target {
                        self.agenda.progress = Progress { phase: Phase::Done, ..p };
                        Some(Action::Finish(Ok(())))
                    } else {
                        self.agenda.progress = Progress { phase: Phase::Paging, ..p };
                        Some(Action::Fetch(self.page_url()))
                    }
                },
                _ => None,
            },
            Event::Failed(error) => match p.phase {
                Phase::Paging | Phase::Listing | Phase::Probing | Phase::Saving => {
                    self.agenda.progress = Progress { phase: Phase::Done, ..p };
                    Some(Action::Finish(Err(error)))
                },
                _ => None,
            },
            Event::Page(response) => match p.phase {
                Phase::Paging => {
                    let total_pages = if p.page == 1 {
                        response.meta.last_page
                    } else {
                        p.total_pages
                    };
                    self.agenda.progress = Progress { total_pages, ..p };
                    self.agenda.items = response.data;
                    Some(self.evaluate(0))
                },
                _ => None,
            },
            Event::Folders(folders) => match p.phase {
                Phase::Listing => {
                    self.agenda.progress = Progress { phase: Phase::Probing, ..p };
                    let item = &self.agenda.items[p.next];
                    Some(Action::Probe(probes(self.download_location.as_str(), &folders, item)))
                },
                _ => None,
            },
            Event::Presence(present) => match p.phase {
                Phase::Probing => {
                    let item = &self.agenda.items[p.next];
                    match consider(self.download_location.as_str(), item, false, &present) {
                        Outcome::Accepted(path) => {
                            let url = item.path.clone();
                            self.agenda.progress = Progress { phase: Phase::Saving, ..p };
                            Some(Action::Save { url, path })
                        },
                        _ => Some(self.evaluate(p.next + 1)),
                    }
                },
                _ => None,
            },
            Event::Saved => match p.phase {
                Phase::Saving => {
                    let counted = if self.agenda.items[p.next].is_sfw() {
                        Progress { count: p.count + 1, sfw: p.sfw + 1, ..p }
                    } else {
                        Progress { count: p.count + 1, nsfw: p.nsfw + 1, ..p }
                    };
                    if counted.count >= counted.target {
                        self.agenda.progress = Progress {
                            phase: Phase::Done,
                            page: p.page + 1,
                            ..counted
                        };
                        Some(Action::Finish(Ok(())))
                    } else {
                        self.agenda.progress = counted;
                        Some(self.evaluate(p.next + 1))
                    }
                },
                _ => None,
            },
        }
    }
}

} // verus!
