//! The sampler of the focused window: what a sample is, when a session of a
//! window starts and ends, and which windows were focused most recently.

use crate::clock::now;
use crate::text::{
    chars_of, same_text, string_of, trim, trim_range, trim_start, trim_start_at,
    trim_start_matches, trim_start_matches_at,
};
use itertools::Itertools;
use vstd::prelude::*;
use vstd::std_specs::cmp::PartialEqSpecImpl;

verus! {

/// What the window system reports of the focused window.
#[derive(Debug)]
pub struct ActiveWindow {
    pub title: String,
    pub process_path: String,
    pub app_name: String,
    pub window_id: String,
    pub process_id: u64,
}

/// What the process table reports of the process that owns a window.
#[derive(Debug)]
pub struct Process {
    pub parent: Option<usize>,
    pub start_time: u64,
    pub exe: String,
}

/// A sample of the focused window.
#[derive(Debug)]
pub struct ActiveProcess {
    pub title: String,
    pub app_name: String,
    pub window_id: String,
    pub exe: String,
    pub process_path: String,
    pub process_id: usize,
    pub parent: Option<usize>,
    pub start_time: u64,
}

pub struct ActiveProcessView {
    pub title: Seq<char>,
    pub app_name: Seq<char>,
    pub window_id: Seq<char>,
    pub exe: Seq<char>,
    pub process_path: Seq<char>,
    pub process_id: int,
    pub parent: Option<int>,
    pub start_time: int,
}

impl View for ActiveProcess {
    type V = ActiveProcessView;

    open spec fn view(&self) -> ActiveProcessView {
        ActiveProcessView {
            title: self.title@,
            app_name: self.app_name@,
            window_id: self.window_id@,
            exe: self.exe@,
            process_path: self.process_path@,
            process_id: self.process_id as int,
            parent: match self.parent {
                Some(p) => Some(p as int),
                None => None,
            },
            start_time: self.start_time as int,
        }
    }
}

/// A session: a window sample, the wall-clock time at which it got the focus
/// and how long it has held it, both in nanoseconds.
#[derive(Debug)]
pub struct ActiveProcessEvent {
    pub process: ActiveProcess,
    pub active_start_time: u128,
    pub active_duration: u128,
}

pub struct ActiveProcessEventView {
    pub process: ActiveProcessView,
    pub active_start_time: int,
    pub active_duration: int,
}

impl View for ActiveProcessEvent {
    type V = ActiveProcessEventView;

    open spec fn view(&self) -> ActiveProcessEventView {
        ActiveProcessEventView {
            process: self.process@,
            active_start_time: self.active_start_time as int,
            active_duration: self.active_duration as int,
        }
    }
}

/// The sessions that a sequence of sessions stands for.
pub open spec fn event_views(events: Seq<ActiveProcessEvent>) -> Seq<ActiveProcessEventView> {
    Seq::new(events.len(), |i: int| events[i]@)
}

/// The session that an optional session stands for.
pub open spec fn option_view(event: Option<ActiveProcessEvent>) -> Option<ActiveProcessEventView> {
    match event {
        Some(e) => Some(e@),
        None => None,
    }
}

/// The sample that an optional sample stands for.
pub open spec fn sample_view(sample: Option<ActiveProcess>) -> Option<ActiveProcessView> {
    match sample {
        Some(p) => Some(p@),
        None => None,
    }
}

/// The mark that some editors put in front of the title of an unsaved file.
pub open spec fn unsaved_mark() -> Seq<char> {
    seq!['\u{e2}', '\u{2014}', ' ']
}

/// The title of a sample: the window's title without whitespace at its ends
/// and without the unsaved marks at its front, or the application's name
/// where that leaves nothing.
pub open spec fn normalized_title(title: Seq<char>, app_name: Seq<char>) -> Seq<char> {
    let stripped = trim(trim_start_matches(trim_start(title), unsaved_mark()));
    if stripped.len() == 0 {
        app_name
    } else {
        stripped
    }
}

/// Two samples show the same window when process and title agree.
pub open spec fn same_window(a: ActiveProcessView, b: ActiveProcessView) -> bool {
    a.process_id == b.process_id && a.title == b.title
}

/// The titles that never start a session: this program's own window, the
/// task switcher, and no title at all.
pub open spec fn is_ignored(title: Seq<char>) -> bool {
    title == "Rarian app"@ || title == "Task Switching"@ || title.len() == 0
}

/// A session whose duration has been brought up to `now`. The duration never
/// shrinks, whatever the clock does.
pub open spec fn extended(event: ActiveProcessEventView, now: int) -> ActiveProcessEventView {
    ActiveProcessEventView {
        active_duration: if now - event.active_start_time > event.active_duration {
            now - event.active_start_time
        } else {
            event.active_duration
        },
        ..event
    }
}

/// A session that starts at `now`.
pub open spec fn started(process: ActiveProcessView, now: int) -> ActiveProcessEventView {
    ActiveProcessEventView { process, active_start_time: now, active_duration: 0 }
}

/// The state of the sampler: the session that holds the focus, if any, and
/// the sessions that are over, oldest first.
pub struct GathererView {
    pub current: Option<ActiveProcessEventView>,
    pub process_events: Seq<ActiveProcessEventView>,
}

/// The state after the current session, if there is one, has been closed and
/// `next` has taken its place.
pub open spec fn superseded(
    state: GathererView,
    next: Option<ActiveProcessEventView>,
) -> GathererView {
    GathererView {
        current: next,
        process_events: match state.current {
            Some(closed) => state.process_events.push(closed),
            None => state.process_events,
        },
    }
}

/// The state with the duration of the current session brought up to `now`.
pub open spec fn with_duration(state: GathererView, now: int) -> GathererView {
    GathererView {
        current: match state.current {
            Some(current) => Some(extended(current, now)),
            None => None,
        },
        ..state
    }
}

/// The state after one pass of the sampler at time `now`, in which the
/// window system reported `observed` (`None`: it could report no window).
/// Without a window the current session is cleared. A sample with an ignored
/// title changes nothing. A sample of the current window brings the duration
/// of the current session up to `now`. Any other sample closes the current
/// session, as it stands, and starts a new one.
pub open spec fn after_tick(
    state: GathererView,
    observed: Option<ActiveProcessView>,
    now: int,
) -> GathererView {
    match observed {
        None => GathererView { current: None, ..state },
        Some(sample) => {
            if is_ignored(sample.title) {
                state
            } else if state.current is Some && same_window(state.current->0.process, sample) {
                with_duration(state, now)
            } else {
                superseded(state, Some(started(sample, now)))
            }
        },
    }
}

/// The session that one pass of the sampler closes, if it closes one.
pub open spec fn closed_by_tick(
    state: GathererView,
    observed: Option<ActiveProcessView>,
    now: int,
) -> Option<ActiveProcessEventView> {
    let after = after_tick(state, observed, now);
    if after.process_events.len() > state.process_events.len() {
        Some(after.process_events.last())
    } else {
        None
    }
}

/// Whether one of the titles before index `i` equals the title at `i`.
pub open spec fn seen_before(titles: Seq<Seq<char>>, i: int) -> bool {
    exists|j: int| 0 <= j < i && titles[j] == titles[i]
}

/// The indices, in rising order, at which a title stands for the first time.
pub open spec fn first_occurrences(titles: Seq<Seq<char>>) -> Seq<int>
    decreases titles.len(),
{
    if titles.len() == 0 {
        Seq::<int>::empty()
    } else {
        let before = first_occurrences(titles.drop_last());
        if seen_before(titles, titles.len() - 1) {
            before
        } else {
            before.push(titles.len() - 1)
        }
    }
}

/// The titles of the closed sessions, newest first.
pub open spec fn titles_newest_first(events: Seq<ActiveProcessEventView>) -> Seq<Seq<char>> {
    Seq::new(events.len(), |k: int| events[events.len() - 1 - k].process.title)
}

/// Where the recently focused windows stand in `events`: for each title the
/// index of its newest session, the newest of them first, `n` at most.
pub open spec fn recent_indices(events: Seq<ActiveProcessEventView>, n: int) -> Seq<int> {
    let firsts = first_occurrences(titles_newest_first(events));
    Seq::new(
        if n < firsts.len() {
            n as nat
        } else {
            firsts.len()
        },
        |k: int| events.len() - 1 - firsts[k],
    )
}

/// The recently focused windows: the newest session of each title, newest
/// first, `n` at most.
pub open spec fn recent(events: Seq<ActiveProcessEventView>, n: int) -> Seq<
    ActiveProcessEventView,
> {
    let indices = recent_indices(events, n);
    Seq::new(indices.len(), |k: int| events[indices[k]])
}

/// The titles of a sequence of sessions.
pub open spec fn titles_of(events: Seq<&ActiveProcessEvent>) -> Seq<Seq<char>> {
    Seq::new(events.len(), |i: int| events[i].process.title@)
}

/// `Itertools::unique_by`, keyed by title, over the sessions in `events` and
/// their indices. The adaptor hands on an item when no earlier item had an
/// equal key, and keeps the order: what comes out are the indices at which a
/// title stands for the first time, rising.
#[verifier::external_body]
fn unique_by_title(events: &Vec<&ActiveProcessEvent>) -> (kept: Vec<usize>)
    ensures
        kept@.len() == first_occurrences(titles_of(events@)).len(),
        forall|k: int|
            0 <= k < kept@.len() ==> kept@[k] as int == first_occurrences(titles_of(events@))[k],
{
    events.iter().enumerate().unique_by(|item| item.1.get_title()).map(|item| item.0).collect()
}

impl Clone for ActiveProcess {
    fn clone(&self) -> (r: Self)
        ensures
            r@ == self@,
    {
        ActiveProcess {
            title: self.title.clone(),
            app_name: self.app_name.clone(),
            window_id: self.window_id.clone(),
            exe: self.exe.clone(),
            process_path: self.process_path.clone(),
            process_id: self.process_id,
            parent: self.parent,
            start_time: self.start_time,
        }
    }
}

impl Clone for ActiveProcessEvent {
    fn clone(&self) -> (r: Self)
        ensures
            r@ == self@,
    {
        ActiveProcessEvent {
            process: self.process.clone(),
            active_start_time: self.active_start_time,
            active_duration: self.active_duration,
        }
    }
}

impl PartialEq for ActiveProcess {
    fn eq(&self, other: &Self) -> (r: bool) {
        self.process_id == other.process_id && self.title == other.title
    }
}

impl PartialEqSpecImpl for ActiveProcess {
    open spec fn obeys_eq_spec() -> bool {
        true
    }

    open spec fn eq_spec(&self, other: &Self) -> bool {
        same_window(self@, other@)
    }
}

/// Why the sampler cannot go on.
#[derive(Debug, PartialEq, Eq, Structural)]
pub enum SamplerError {
    /// The focused window names a process id that this machine cannot hold.
    ProcessIdOutOfRange,
    /// The focused window names a process that the process table lacks.
    ProcessNotFound,
}

impl ActiveProcess {
    /// The sample for a focused window and the process that owns it.
    pub fn new(active_window: ActiveWindow, process: &Process) -> (r: ActiveProcess)
        requires
            active_window.process_id <= usize::MAX,
        ensures
            r@ == (ActiveProcessView {
                title: normalized_title(active_window.title@, active_window.app_name@),
                app_name: active_window.app_name@,
                window_id: active_window.window_id@,
                exe: process.exe@,
                process_path: active_window.process_path@,
                process_id: active_window.process_id as int,
                parent: match process.parent {
                    Some(p) => Some(p as int),
                    None => None,
                },
                start_time: process.start_time as int,
            }),
    {
        let app_name = active_window.app_name;
        let chars = chars_of(active_window.title.as_str());
        let mark: Vec<char> = vec!['\u{e2}', '\u{2014}', ' '];
        proof {
            assert(mark@ =~= unsaved_mark());
        }
        let front = trim_start_at(&chars);
        let start = trim_start_matches_at(&chars, &mark, front);
        let (from, to) = trim_range(&chars, start, chars.len());
        let mut title = string_of(&chars, from, to);
        proof {
            assert(chars@.subrange(start as int, chars.len() as int) =~= chars@.skip(start as int));
        }
        if from == to {
            title = app_name.clone();
        }
        ActiveProcess {
            title,
            app_name,
            window_id: active_window.window_id,
            exe: process.exe.clone(),
            process_path: active_window.process_path,
            process_id: active_window.process_id as usize,
            parent: process.parent,
            start_time: process.start_time,
        }
    }
}

impl ActiveProcessEvent {
    /// A session of `process` that starts now.
    pub fn new(process: ActiveProcess) -> (r: Self)
        ensures
            r@.process == process@,
            r@.active_duration == 0,
    {
        ActiveProcessEvent::started_at(process, now())
    }

    /// A session of `process` that starts at `start`.
    pub fn started_at(process: ActiveProcess, start: u128) -> (r: Self)
        ensures
            r@ == started(process@, start as int),
    {
        ActiveProcessEvent { process, active_start_time: start, active_duration: 0 }
    }

    pub fn get_title(&self) -> (title: &str)
        ensures
            title@ == self@.process.title,
    {
        self.process.title.as_str()
    }
}

/// Whether a title never starts a session.
pub fn ignored(title: &str) -> (r: bool)
    ensures
        r == is_ignored(title@),
{
    same_text(title, "Rarian app") || same_text(title, "Task Switching") || title.is_empty()
}

/// The sample for what the window system and the process table report:
/// none where no window has the focus, and an error where the focused window
/// names a process that cannot be had.
pub fn get_active_process(active_window: Option<ActiveWindow>, process: Option<Process>) -> (r:
    Result<Option<ActiveProcess>, SamplerError>)
    ensures
        match active_window {
            None => r == Ok::<Option<ActiveProcess>, SamplerError>(None),
            Some(window) => {
                if window.process_id > usize::MAX {
                    r == Err::<Option<ActiveProcess>, SamplerError>(
                        SamplerError::ProcessIdOutOfRange,
                    )
                } else {
                    match process {
                        None => r == Err::<Option<ActiveProcess>, SamplerError>(
                            SamplerError::ProcessNotFound,
                        ),
                        Some(process) => {
                            &&& r matches Ok(Some(sample))
                            &&& sample@ == (ActiveProcessView {
                                title: normalized_title(window.title@, window.app_name@),
                                app_name: window.app_name@,
                                window_id: window.window_id@,
                                exe: process.exe@,
                                process_path: window.process_path@,
                                process_id: window.process_id as int,
                                parent: match process.parent {
                                    Some(p) => Some(p as int),
                                    None => None,
                                },
                                start_time: process.start_time as int,
                            })
                        },
                    }
                }
            },
        },
{
    match active_window {
        None => Ok(None),
        Some(window) => {
            if window.process_id > usize::MAX as u64 {
                return Err(SamplerError::ProcessIdOutOfRange);
            }
            match process {
                None => Err(SamplerError::ProcessNotFound),
                Some(process) => Ok(Some(ActiveProcess::new(window, &process))),
            }
        },
    }
}

/// The sampler's state: the session that holds the focus, if any, and the
/// sessions that are over, oldest first.
pub struct ActiveProcessGatherer {
    current: Option<ActiveProcessEvent>,
    process_events: Vec<ActiveProcessEvent>,
}

impl View for ActiveProcessGatherer {
    type V = GathererView;

    closed spec fn view(&self) -> GathererView {
        GathererView {
            current: option_view(self.current),
            process_events: event_views(self.process_events@),
        }
    }
}

impl ActiveProcessGatherer {
    pub fn new(current: Option<ActiveProcessEvent>, process_events: Vec<ActiveProcessEvent>) -> (r:
        Self)
        ensures
            r@ == (GathererView {
                current: option_view(current),
                process_events: event_views(process_events@),
            }),
    {
        Self { current, process_events }
    }

    /// Whether `active_process` shows the window of the current session.
    pub fn is_current_process(&self, active_process: &ActiveProcess) -> (r: bool)
        ensures
            r == (self@.current is Some && same_window(self@.current->0.process, active_process@)),
    {
        match &self.current {
            Some(current) => current.process == *active_process,
            None => false,
        }
    }

    /// Brings the duration of the current session up to `now`: the time since
    /// its start, unless that is less than what it already has.
    pub fn update_active_duration(&mut self, now: u128)
        ensures
            final(self)@ == with_duration(old(self)@, now as int),
    {
        match self.current.take() {
            Some(mut current) => {
                if now >= current.active_start_time && now - current.active_start_time
                    > current.active_duration {
                    current.active_duration = now - current.active_start_time;
                }
                self.current = Some(current);
            },
            None => {},
        }
    }

    /// Clears the current session: it joins no list and is not handed back.
    pub fn clear_current(&mut self)
        ensures
            final(self)@ == (GathererView { current: None, ..old(self)@ }),
    {
        self.current = None;
    }

    /// Closes the current session, if there is one, and makes `new_process`
    /// the current one. The closed session joins the sessions that are over
    /// and is handed back, to be appended to the log of sessions.
    pub fn update_current_and_cache(&mut self, new_process: Option<ActiveProcessEvent>) -> (closed:
        Option<ActiveProcessEvent>)
        ensures
            final(self)@ == superseded(old(self)@, option_view(new_process)),
            option_view(closed) == old(self)@.current,
    {
        let closed = self.current.take();
        match &closed {
            Some(current) => {
                self.process_events.push(current.clone());
                proof {
                    assert(event_views(self.process_events@) =~= event_views(
                        old(self).process_events@,
                    ).push(current@));
                }
            },
            None => {},
        }
        self.current = new_process;
        closed
    }
}

/// One pass of the sampler at time `now`, after the window system reported
/// `observed` (`None`: it could report no window). The session that the pass
/// closes, if any, is handed back, to be appended to the log of sessions.
pub fn monitor_processes(
    gatherer: &mut ActiveProcessGatherer,
    observed: Option<ActiveProcess>,
    now: u128,
) -> (closed: Option<ActiveProcessEvent>)
    ensures
        final(gatherer)@ == after_tick(old(gatherer)@, sample_view(observed), now as int),
        option_view(closed) == closed_by_tick(old(gatherer)@, sample_view(observed), now as int),
{
    match observed {
        Some(active_process) => {
            if ignored(active_process.title.as_str()) {
                None
            } else if gatherer.is_current_process(&active_process) {
                gatherer.update_active_duration(now);
                None
            } else {
                let new_process = ActiveProcessEvent::started_at(active_process, now);
                gatherer.update_current_and_cache(Some(new_process))
            }
        },
        None => {
            gatherer.clear_current();
            None
        },
    }
}

/// What the rest of the program sees of the sampler.
pub struct AppGatherer {
    gatherer: ActiveProcessGatherer,
}

impl View for AppGatherer {
    type V = GathererView;

    closed spec fn view(&self) -> GathererView {
        self.gatherer@
    }
}

impl AppGatherer {
    /// A sampler without a current session, which starts from the sessions
    /// that the log of sessions held.
    pub fn new(process_events: Vec<ActiveProcessEvent>) -> (r: Self)
        ensures
            r@ == (GathererView { current: None, process_events: event_views(process_events@) }),
    {
        Self { gatherer: ActiveProcessGatherer::new(None, process_events) }
    }

    /// One pass of the sampler: see `monitor_processes`.
    pub fn sample(&mut self, observed: Option<ActiveProcess>, now: u128) -> (closed: Option<
        ActiveProcessEvent,
    >)
        ensures
            final(self)@ == after_tick(old(self)@, sample_view(observed), now as int),
            option_view(closed) == closed_by_tick(old(self)@, sample_view(observed), now as int),
    {
        monitor_processes(&mut self.gatherer, observed, now)
    }

    /// The session that holds the focus, if any.
    pub fn get_current(&self) -> (r: Option<ActiveProcessEvent>)
        ensures
            option_view(r) == self@.current,
    {
        match &self.gatherer.current {
            Some(current) => Some(current.clone()),
            None => None,
        }
    }

    /// The recently focused windows: of the sessions that are over, the
    /// newest of each title, newest first, `n` at most.
    pub fn get_last_processes(&self, n: usize) -> (r: Vec<ActiveProcessEvent>)
        ensures
            event_views(r@) == recent(self@.process_events, n as int),
    {
        let events = &self.gatherer.process_events;
        let len = events.len();
        let mut newest_first: Vec<&ActiveProcessEvent> = Vec::new();
        let mut i: usize = 0;
        while i < len
            invariant
                i <= len,
                len == events.len(),
                newest_first@.len() == i,
                forall|k: int| 0 <= k < i ==> newest_first@[k] == events@[len - 1 - k],
            decreases len - i,
        {
            newest_first.push(&events[len - 1 - i]);
            i += 1;
        }
        let kept = unique_by_title(&newest_first);
        proof {
            assert(titles_of(newest_first@) =~= titles_newest_first(event_views(events@)));
            lemma_first_occurrences(titles_of(newest_first@));
        }
        let num = if n < kept.len() {
            n
        } else {
            kept.len()
        };
        let mut last_processes: Vec<ActiveProcessEvent> = Vec::new();
        let mut k: usize = 0;
        while k < num
            invariant
                k <= num <= kept.len(),
                newest_first@.len() == len,
                len == events.len(),
                forall|j: int| 0 <= j < kept@.len() ==> 0 <= #[trigger] kept@[j] < len,
                forall|j: int| 0 <= j < len ==> newest_first@[j] == events@[len - 1 - j],
                last_processes@.len() == k,
                forall|j: int|
                    0 <= j < k ==> (#[trigger] last_processes@[j])@ == events@[len - 1
                        - kept@[j]]@,
            decreases num - k,
        {
            last_processes.push(newest_first[kept[k]].clone());
            k += 1;
        }
        proof {
            assert(event_views(last_processes@) =~= recent(event_views(events@), n as int));
        }
        last_processes
    }
}

/// The indices at which a title stands for the first time rise, lie in the
/// sequence, hold titles that differ from one another, and leave out no
/// title.
pub proof fn lemma_first_occurrences(titles: Seq<Seq<char>>)
    ensures
        ({
            let firsts = first_occurrences(titles);
            &&& firsts.len() <= titles.len()
            &&& forall|k: int| 0 <= k < firsts.len() ==> 0 <= #[trigger] firsts[k] < titles.len()
            &&& forall|k: int|
                0 <= k < firsts.len() ==> !seen_before(titles, #[trigger] firsts[k])
            &&& forall|k: int, l: int| 0 <= k < l < firsts.len() ==> firsts[k] < firsts[l]
            &&& forall|i: int|
                0 <= i < titles.len() && !seen_before(titles, i) ==> firsts.contains(i)
        }),
    decreases titles.len(),
{
    if titles.len() > 0 {
        let init = titles.drop_last();
        let last = titles.len() - 1;
        lemma_first_occurrences(init);
        let before = first_occurrences(init);
        let firsts = first_occurrences(titles);
        assert forall|i: int| 0 <= i < init.len() implies seen_before(init, i) == seen_before(
            titles,
            i,
        ) by {
            if seen_before(init, i) {
                let j = choose|j: int| 0 <= j < i && init[j] == init[i];
                assert(titles[j] == titles[i]);
            }
            if seen_before(titles, i) {
                let j = choose|j: int| 0 <= j < i && titles[j] == titles[i];
                assert(init[j] == init[i]);
            }
        }
        assert forall|i: int|
            0 <= i < titles.len() && !seen_before(titles, i) implies firsts.contains(i) by {
            if i < last {
                assert(before.contains(i));
                let k = choose|k: int| 0 <= k < before.len() && before[k] == i;
                assert(firsts[k] == i);
            } else {
                assert(firsts[firsts.len() - 1] == i);
            }
        }
    }
}

/// The recently focused windows, for every `n`: there are `n` at most, no two
/// of them have the same title, each is the newest session of its title, and
/// they stand newest first.
pub proof fn lemma_recent_is_deduplicated_newest_first(
    events: Seq<ActiveProcessEventView>,
    n: nat,
)
    ensures
        ({
            let indices = recent_indices(events, n as int);
            let sessions = recent(events, n as int);
            &&& sessions.len() == indices.len()
            &&& sessions.len() <= n
            &&& sessions.len() <= events.len()
            &&& forall|k: int|
                0 <= k < sessions.len() ==> 0 <= #[trigger] indices[k] < events.len()
                    && sessions[k] == events[indices[k]]
            &&& forall|k: int, l: int|
                0 <= k < l < sessions.len() ==> #[trigger] indices[k] > #[trigger] indices[l]
            &&& forall|k: int, l: int|
                0 <= k < l < sessions.len() ==> (#[trigger] sessions[k]).process.title != (
                #[trigger] sessions[l]).process.title
            &&& forall|k: int, later: int|
                0 <= k < sessions.len() && indices[k] < later < events.len() ==> (
                #[trigger] events[later]).process.title != (#[trigger] sessions[k]).process.title
        }),
{
    let titles = titles_newest_first(events);
    let firsts = first_occurrences(titles);
    let indices = recent_indices(events, n as int);
    let sessions = recent(events, n as int);
    lemma_first_occurrences(titles);
    assert forall|k: int, l: int| 0 <= k < l < sessions.len() implies (
    #[trigger] sessions[k]).process.title != (#[trigger] sessions[l]).process.title by {
        assert(firsts[k] < firsts[l]);
        assert(!seen_before(titles, firsts[l]));
        assert(titles[firsts[k]] == sessions[k].process.title);
        assert(titles[firsts[l]] == sessions[l].process.title);
    }
    assert forall|k: int, later: int|
        0 <= k < sessions.len() && indices[k] < later < events.len() implies (
    #[trigger] events[later]).process.title != (#[trigger] sessions[k]).process.title by {
        let j = events.len() - 1 - later;
        assert(!seen_before(titles, firsts[k]));
        assert(0 <= j < firsts[k]);
        assert(titles[j] == events[later].process.title);
        assert(titles[firsts[k]] == sessions[k].process.title);
    }
}

/// Asked for enough of them, the recently focused windows leave out no title
/// of a session that is over.
pub proof fn lemma_recent_is_complete(events: Seq<ActiveProcessEventView>, n: nat, i: int)
    requires
        events.len() <= n,
        0 <= i < events.len(),
    ensures
        exists|k: int|
            0 <= k < recent(events, n as int).len() && (#[trigger] recent(
                events,
                n as int,
            )[k]).process.title == events[i].process.title,
    decreases events.len() - i,
{
    let titles = titles_newest_first(events);
    let firsts = first_occurrences(titles);
    lemma_first_occurrences(titles);
    let at = events.len() - 1 - i;
    if seen_before(titles, at) {
        let j = choose|j: int| 0 <= j < at && titles[j] == titles[at];
        lemma_recent_is_complete(events, n, events.len() - 1 - j);
    } else {
        assert(firsts.contains(at));
        let k = choose|k: int| 0 <= k < firsts.len() && firsts[k] == at;
        assert(recent(events, n as int)[k] == events[i]);
    }
}

/// There is one current session at most, and it becomes a new one only after
/// the one before it is over. A pass of the sampler leaves the sessions that
/// are over as they were, unless it starts a new session: then the session
/// that was current, if there was one, is added to them as it stood, and the
/// new one starts at this pass with no duration.
pub proof fn lemma_one_current_session(
    state: GathererView,
    observed: Option<ActiveProcessView>,
    now: int,
)
    ensures
        ({
            let after = after_tick(state, observed, now);
            let closed = closed_by_tick(state, observed, now);
            ||| {
                &&& observed is None
                &&& after == (GathererView { current: None, ..state })
                &&& closed is None
            }
            ||| {
                &&& observed is Some
                &&& is_ignored(observed->0.title)
                &&& after == state
                &&& closed is None
            }
            ||| {
                &&& observed is Some
                &&& state.current is Some
                &&& same_window(state.current->0.process, observed->0)
                &&& after == with_duration(state, now)
                &&& closed is None
            }
            ||| {
                &&& observed is Some
                &&& !is_ignored(observed->0.title)
                &&& state.current is Some ==> !same_window(state.current->0.process, observed->0)
                &&& after.current == Some(started(observed->0, now))
                &&& closed == state.current
                &&& after.process_events == match state.current {
                    Some(session) => state.process_events.push(session),
                    None => state.process_events,
                }
            }
        }),
{
}

} // verus!
