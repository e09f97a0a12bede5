//! The page search: which request comes next, and what a response means.
//!
//! The search itself sends nothing. It is a machine that is told what came
//! back and answers with what to do next, so that whoever owns the network
//! runs it: perform the action, hand back the event, until the action is
//! `Finish` or `Abort`.

use crate::markup::{is_readable, names_chars, readable, rows_chars, select_attrs, selected_attrs};
use crate::parser::{find_target, first_link, markup_regions, opt_chars, regions, Target};
use crate::text::{decimal, push_padded};
use crate::types::Date;
use vstd::prelude::*;
use vstd::string::StringExecFns;

verus! {

/// The address that relative links of the archive are resolved against.
pub const BASE_URL: &'static str = "https://www.ehitavada.com/";

/// The address that discovery requests go to.
pub const DISCOVERY_URL: &'static str = "https://www.ehitavada.com/val.php";

/// The number of pages that a search tries by default.
pub const DEFAULT_PAGES: u32 = 20;

/// What one search is set up with.
#[derive(Debug, Clone, Copy, PartialEq, Eq, Structural)]
pub struct Config {
    /// The day whose crossword is wanted.
    pub date: Date,
    /// Where the crossword is expected on a page.
    pub target: Target,
    /// The last page to try; the first is page 1.
    pub pages: u32,
}

impl Config {
    /// The usual search for `date`: the reference target, pages 1 to 20.
    pub fn new(date: Date) -> (config: Config)
        ensures
            config.date == date,
            config.target == Target::reference(),
            config.pages == DEFAULT_PAGES,
    {
        Config { date, target: Target::reference(), pages: DEFAULT_PAGES }
    }
}

/// What a search that has found its page waits for.
#[derive(Debug, Clone, Copy, PartialEq, Eq, Structural)]
pub enum Step {
    /// The markup of the crossword's page.
    Page,
    /// The bytes of the image.
    Image,
    /// Word that the image was saved and uploaded.
    Store,
}

/// Where a search stands.
#[derive(Debug, Clone, Copy, PartialEq, Eq, Structural)]
pub enum State {
    /// The discovery request for `page` is out.
    Scanning { page: u32 },
    /// A page matched; the search is fetching and storing the crossword.
    Matched { step: Step },
    /// Every page was tried and none matched. The search is over.
    Exhausted,
    /// The search was given up. It is over.
    Aborted,
    /// The crossword was stored. The search is over.
    Finished,
}

impl State {
    /// Whether the search is over.
    pub open spec fn is_over(self) -> bool {
        self is Exhausted || self is Aborted || self is Finished
    }
}

/// Why a search ended without a crossword.
#[derive(Debug, Clone, Copy, PartialEq, Eq, Structural)]
pub enum SearchError {
    /// No page had a matching region.
    NotFound,
    /// The crossword's page has no image where one is expected.
    ImageMissing,
    /// The image on the crossword's page names no source.
    SourceMissing,
    /// Markup came back that is too long to be read.
    MarkupTooLong,
    /// An action could not be carried out; `during` is the state in which
    /// that happened.
    Interrupted { during: State },
    /// An event came that the state does not wait for.
    Unexpected { during: State },
}

/// What came back from the last action.
#[derive(Debug, Clone, PartialEq, Eq)]
pub enum Event {
    /// The body of the response to a `Post` or a `Get`.
    Text(String),
    /// The image was downloaded.
    Fetched,
    /// The image was saved and uploaded.
    Stored,
    /// The action failed.
    Failed,
}

/// What an `Event` holds, as text.
pub enum EventView {
    Text(Seq<char>),
    Fetched,
    Stored,
    Failed,
}

impl View for Event {
    type V = EventView;

    open spec fn view(&self) -> EventView {
        match *self {
            Event::Text(s) => EventView::Text(s@),
            Event::Fetched => EventView::Fetched,
            Event::Stored => EventView::Stored,
            Event::Failed => EventView::Failed,
        }
    }
}

/// What to do next.
#[derive(Debug, Clone, PartialEq, Eq)]
pub enum Action {
    /// Send `body` as a form to `url`; answer with the response's `Text`.
    Post { url: String, body: String },
    /// Fetch `url`; answer with the response's `Text`.
    Get { url: String },
    /// Fetch the bytes at `url` and keep them; answer with `Fetched`.
    Download { url: String },
    /// Write the bytes to `path` and upload that file; answer with `Stored`.
    Store { path: String },
    /// The search has succeeded; the crossword is at `path`.
    Finish { path: String },
    /// The search has failed.
    Abort { error: SearchError },
}

/// What an `Action` holds, as text.
pub enum ActionView {
    Post { url: Seq<char>, body: Seq<char> },
    Get { url: Seq<char> },
    Download { url: Seq<char> },
    Store { path: Seq<char> },
    Finish { path: Seq<char> },
    Abort { error: SearchError },
}

impl View for Action {
    type V = ActionView;

    open spec fn view(&self) -> ActionView {
        match *self {
            Action::Post { url, body } => ActionView::Post { url: url@, body: body@ },
            Action::Get { url } => ActionView::Get { url: url@ },
            Action::Download { url } => ActionView::Download { url: url@ },
            Action::Store { path } => ActionView::Store { path: path@ },
            Action::Finish { path } => ActionView::Finish { path: path@ },
            Action::Abort { error } => ActionView::Abort { error },
        }
    }
}

/// The form that asks for the image map of `page` on `date`: the address
/// of the page's full scan, made of the date's year, month and day and the
/// page's number, then the date, the prefix of the scans, and the page.
pub open spec fn discovery_body(date: Date, page: u32) -> Seq<char> {
    "get_mapping_coords=https%3A%2F%2Fehitavada.com%2Fencyc%2F6%2F"@ + date.year_text()
        + date.month_text() + date.day_text() + "%2FMpage_"@ + decimal(page as nat)
        + ".jpg&get_mapping_coords_date="@ + date.iso()
        + "&get_mapping_coords_prefix=Mpage&get_mapping_coords_page="@ + decimal(page as nat)
}

/// Where the image of `date` is saved.
pub open spec fn local_path(date: Date) -> Seq<char> {
    "/tmp/crossword_"@ + date.iso() + ".jpg"@
}

/// The address that `reference` stands for, taken relative to the site.
pub open spec fn resolved(reference: Seq<char>) -> Seq<char> {
    BASE_URL@ + reference
}

/// Writes the discovery form of `page` on `date`.
pub fn make_discovery_body(date: &Date, page: u32) -> (body: String)
    ensures
        body@ == discovery_body(*date, page),
{
    let mut body = String::from_str("get_mapping_coords=https%3A%2F%2Fehitavada.com%2Fencyc%2F6%2F");
    date.push_year(&mut body);
    date.push_month(&mut body);
    date.push_day(&mut body);
    body.append("%2FMpage_");
    push_padded(&mut body, page as u64, 0);
    body.append(".jpg&get_mapping_coords_date=");
    date.push_iso(&mut body);
    body.append("&get_mapping_coords_prefix=Mpage&get_mapping_coords_page=");
    push_padded(&mut body, page as u64, 0);
    body
}

/// Writes the path under which the image of `date` is saved.
pub fn make_local_path(date: &Date) -> (path: String)
    ensures
        path@ == local_path(*date),
{
    let mut path = String::from_str("/tmp/crossword_");
    date.push_iso(&mut path);
    path.append(".jpg");
    path
}

/// Resolves a relative link against the site's address.
pub fn resolve(reference: &str) -> (url: String)
    ensures
        url@ == resolved(reference@),
{
    String::from_str(BASE_URL).concat(reference)
}

/// The source of the first image among `rows`, which hold the `src` of
/// each image that was selected: `ImageMissing` where nothing was selected,
/// `SourceMissing` where the first image has no `src`.
pub open spec fn first_source(rows: Option<Seq<Seq<Option<Seq<char>>>>>) -> Result<
    Seq<char>,
    SearchError,
> {
    match rows {
        Some(rows) => if rows.len() == 0 {
            Err(SearchError::ImageMissing)
        } else if rows[0].len() == 0 {
            Err(SearchError::SourceMissing)
        } else {
            match rows[0][0] {
                Some(source) => Ok(source),
                None => Err(SearchError::SourceMissing),
            }
        },
        None => Err(SearchError::ImageMissing),
    }
}

/// The source of the crossword's image on its page: the `src` of the first
/// `img` inside an element of class `slices_container`. Markup that is not
/// readable gives `MarkupTooLong`.
pub open spec fn image_source(html: Seq<char>) -> Result<Seq<char>, SearchError> {
    if is_readable(html) {
        first_source(selected_attrs(html, ".slices_container img"@, seq!["src"@]))
    } else {
        Err(SearchError::MarkupTooLong)
    }
}

/// The link of the crossword in the markup of an image map: that of the
/// first region which `target` accepts and which has a link, or none.
/// Markup that is not readable gives `MarkupTooLong`.
pub open spec fn page_link(html: Seq<char>, target: Target) -> Result<
    Option<Seq<char>>,
    SearchError,
> {
    if is_readable(html) {
        Ok(first_link(markup_regions(html), target))
    } else {
        Err(SearchError::MarkupTooLong)
    }
}

/// Whether `r` is the link or the error that `expected` stands for.
pub open spec fn is_link_result(
    r: Result<Option<String>, SearchError>,
    expected: Result<Option<Seq<char>>, SearchError>,
) -> bool {
    match expected {
        Ok(link) => r matches Ok(l) && opt_chars(l) == link,
        Err(error) => r == Err::<Option<String>, SearchError>(error),
    }
}

/// Finds the link of the crossword in the markup of an image map. Markup
/// that is too long to be read is refused, not parsed.
pub fn find_link(html: &str, target: &Target) -> (r: Result<Option<String>, SearchError>)
    ensures
        is_link_result(r, page_link(html@, *target)),
{
    if !readable(html) {
        return Err(SearchError::MarkupTooLong);
    }
    let regions = regions(html);
    Ok(find_target(&regions, target))
}

/// The characters of what was selected.
pub open spec fn selection_chars(rows: Option<Vec<Vec<Option<String>>>>) -> Option<
    Seq<Seq<Option<Seq<char>>>>,
> {
    match rows {
        Some(rows) => Some(rows_chars(rows)),
        None => None,
    }
}

/// Whether `r` is the text or the error that `expected` stands for.
pub open spec fn is_source_result(
    r: Result<String, SearchError>,
    expected: Result<Seq<char>, SearchError>,
) -> bool {
    match expected {
        Ok(source) => r matches Ok(s) && s@ == source,
        Err(error) => r == Err::<String, SearchError>(error),
    }
}

/// Picks the source of the first image out of what was selected.
pub fn pick_source(rows: &Option<Vec<Vec<Option<String>>>>) -> (r: Result<String, SearchError>)
    ensures
        is_source_result(r, first_source(selection_chars(*rows))),
{
    match rows {
        Some(rows) => {
            if rows.len() == 0 {
                Err(SearchError::ImageMissing)
            } else if rows[0].len() == 0 {
                Err(SearchError::SourceMissing)
            } else {
                match &rows[0][0] {
                    Some(source) => Ok(source.clone()),
                    None => Err(SearchError::SourceMissing),
                }
            }
        },
        None => Err(SearchError::ImageMissing),
    }
}

/// Finds the source of the crossword's image in the markup of its page.
/// Markup that is too long to be read is refused, not parsed.
pub fn find_image_source(html: &str) -> (r: Result<String, SearchError>)
    ensures
        is_source_result(r, image_source(html@)),
{
    if !readable(html) {
        return Err(SearchError::MarkupTooLong);
    }
    let mut names: Vec<&str> = Vec::new();
    names.push("src");
    assert(names_chars(names@) =~= seq!["src"@]);
    let rows = select_attrs(html, ".slices_container img", &names);
    pick_source(&rows)
}

/// How the try of `page` begins: with its discovery request, where `page`
/// is one of the pages of the search; else the search is exhausted.
pub open spec fn scan(config: Config, page: u32) -> (State, ActionView) {
    if 1 <= page <= config.pages {
        (
            State::Scanning { page },
            ActionView::Post { url: DISCOVERY_URL@, body: discovery_body(config.date, page) },
        )
    } else {
        (State::Exhausted, ActionView::Abort { error: SearchError::NotFound })
    }
}

/// How a search begins: with the try of page 1.
pub open spec fn first(config: Config) -> (State, ActionView) {
    scan(config, 1)
}

/// What follows `event` in `state`: the next state, and what to do.
///
/// While scanning, the markup of a page either holds the link of the
/// crossword, which is fetched next, or it does not, and the next page is
/// tried. Once a page has matched, the search only goes forward: the page's
/// markup gives the image's source, the image is downloaded, then stored.
/// A failed action, markup that is too long to be read, or markup without
/// the image ends the search at once.
pub open spec fn next(config: Config, state: State, event: EventView) -> (State, ActionView) {
    if state.is_over() {
        (state, ActionView::Abort { error: SearchError::Unexpected { during: state } })
    } else if event is Failed {
        (State::Aborted, ActionView::Abort { error: SearchError::Interrupted { during: state } })
    } else {
        match (state, event) {
            (State::Scanning { page }, EventView::Text(html)) => match page_link(
                html,
                config.target,
            ) {
                Ok(Some(link)) => (
                    State::Matched { step: Step::Page },
                    ActionView::Get { url: resolved(link) },
                ),
                Ok(None) => if page < config.pages {
                    scan(config, (page + 1) as u32)
                } else {
                    (State::Exhausted, ActionView::Abort { error: SearchError::NotFound })
                },
                Err(error) => (State::Aborted, ActionView::Abort { error }),
            },
            (State::Matched { step: Step::Page }, EventView::Text(html)) => match image_source(
                html,
            ) {
                Ok(source) => (
                    State::Matched { step: Step::Image },
                    ActionView::Download { url: resolved(source) },
                ),
                Err(error) => (State::Aborted, ActionView::Abort { error }),
            },
            (State::Matched { step: Step::Image }, EventView::Fetched) => (
                State::Matched { step: Step::Store },
                ActionView::Store { path: local_path(config.date) },
            ),
            (State::Matched { step: Step::Store }, EventView::Stored) => (
                State::Finished,
                ActionView::Finish { path: local_path(config.date) },
            ),
            _ => (
                State::Aborted,
                ActionView::Abort { error: SearchError::Unexpected { during: state } },
            ),
        }
    }
}

/// Begins the try of `page`.
fn begin_scan(config: &Config, page: u32) -> (r: (State, Action))
    ensures
        r.0 == scan(*config, page).0,
        r.1@ == scan(*config, page).1,
{
    if 1 <= page && page <= config.pages {
        (
            State::Scanning { page },
            Action::Post {
                url: String::from_str(DISCOVERY_URL),
                body: make_discovery_body(&config.date, page),
            },
        )
    } else {
        (State::Exhausted, Action::Abort { error: SearchError::NotFound })
    }
}

/// Begins a search: the state it starts in, and its first action.
pub fn start(config: &Config) -> (r: (State, Action))
    ensures
        r.0 == first(*config).0,
        r.1@ == first(*config).1,
{
    begin_scan(config, 1)
}

/// Takes the search one step on: given what came back from the last action,
/// says where the search stands now and what to do next.
pub fn step(config: &Config, state: State, event: Event) -> (r: (State, Action))
    ensures
        r.0 == next(*config, state, event@).0,
        r.1@ == next(*config, state, event@).1,
{
    let unexpected = Action::Abort { error: SearchError::Unexpected { during: state } };
    match state {
        State::Exhausted | State::Aborted | State::Finished => (state, unexpected),
        State::Scanning { page } => match event {
            Event::Failed => (
                State::Aborted,
                Action::Abort { error: SearchError::Interrupted { during: state } },
            ),
            Event::Text(html) => match find_link(html.as_str(), &config.target) {
                Ok(Some(link)) => (
                    State::Matched { step: Step::Page },
                    Action::Get { url: resolve(link.as_str()) },
                ),
                Ok(None) => if page < config.pages {
                    begin_scan(config, page + 1)
                } else {
                    (State::Exhausted, Action::Abort { error: SearchError::NotFound })
                },
                Err(error) => (State::Aborted, Action::Abort { error }),
            },
            _ => (State::Aborted, unexpected),
        },
        State::Matched { step } => match event {
            Event::Failed => (
                State::Aborted,
                Action::Abort { error: SearchError::Interrupted { during: state } },
            ),
            Event::Text(html) => match step {
                Step::Page => match find_image_source(html.as_str()) {
                    Ok(source) => (
                        State::Matched { step: Step::Image },
                        Action::Download { url: resolve(source.as_str()) },
                    ),
                    Err(error) => (State::Aborted, Action::Abort { error }),
                },
                _ => (State::Aborted, unexpected),
            },
            Event::Fetched => match step {
                Step::Image => (
                    State::Matched { step: Step::Store },
                    Action::Store { path: make_local_path(&config.date) },
                ),
                _ => (State::Aborted, unexpected),
            },
            Event::Stored => match step {
                Step::Store => (
                    State::Finished,
                    Action::Finish { path: make_local_path(&config.date) },
                ),
                _ => (State::Aborted, unexpected),
            },
        },
    }
}

impl SearchError {
    /// The words for the error.
    pub open spec fn text(self) -> Seq<char> {
        match self {
            SearchError::NotFound => "Could not find crossword on any page"@,
            SearchError::ImageMissing => "Could not find crossword image"@,
            SearchError::SourceMissing => "Could not find image source"@,
            SearchError::MarkupTooLong => "The markup is too long to be read"@,
            SearchError::Interrupted { during } => "The search was interrupted"@,
            SearchError::Unexpected { during } => "The search was handed an event it did not wait for"@,
        }
    }

    /// The words for the error.
    pub fn message(&self) -> (s: String)
        ensures
            s@ == self.text(),
    {
        match self {
            SearchError::NotFound => String::from_str("Could not find crossword on any page"),
            SearchError::ImageMissing => String::from_str("Could not find crossword image"),
            SearchError::SourceMissing => String::from_str("Could not find image source"),
            SearchError::MarkupTooLong => String::from_str("The markup is too long to be read"),
            SearchError::Interrupted { during } => String::from_str("The search was interrupted"),
            SearchError::Unexpected { during } => String::from_str(
                "The search was handed an event it did not wait for",
            ),
        }
    }
}

/// Where a search stands after `events`, each handed to it in turn.
pub open spec fn state_after(config: Config, events: Seq<EventView>) -> State
    decreases events.len(),
{
    if events.len() == 0 {
        first(config).0
    } else {
        next(config, state_after(config, events.drop_last()), events.last()).0
    }
}

/// What a search asks for after `events`: its first action where there are
/// none, else its answer to the last of them.
pub open spec fn action_after(config: Config, events: Seq<EventView>) -> ActionView
    decreases events.len(),
{
    if events.len() == 0 {
        first(config).1
    } else {
        next(config, state_after(config, events.drop_last()), events.last()).1
    }
}

/// Whether `event` is the markup of a page on which nothing matches.
pub open spec fn is_miss(config: Config, event: EventView) -> bool {
    event matches EventView::Text(html) && page_link(html, config.target) == Ok::<
        Option<Seq<char>>,
        SearchError,
    >(None)
}

/// Pages are tried one by one from page 1: after `n` pages without a match,
/// with pages left, the search asks for page `n + 1`.
pub proof fn lemma_misses_try_the_next_page(config: Config, events: Seq<EventView>)
    requires
        events.len() < config.pages,
        forall|i: int| 0 <= i < events.len() ==> is_miss(config, #[trigger] events[i]),
    ensures
        state_after(config, events) == (State::Scanning { page: (events.len() + 1) as u32 }),
        action_after(config, events) == (ActionView::Post {
            url: DISCOVERY_URL@,
            body: discovery_body(config.date, (events.len() + 1) as u32),
        }),
    decreases events.len(),
{
    if events.len() > 0 {
        lemma_misses_try_the_next_page(config, events.drop_last());
    }
}

/// When every page of the search has come back without a match, the search
/// is exhausted and fails with `NotFound`. Until then it has asked for
/// discovery requests only: see `lemma_misses_try_the_next_page`.
pub proof fn lemma_misses_exhaust_the_search(config: Config, events: Seq<EventView>)
    requires
        events.len() == config.pages,
        forall|i: int| 0 <= i < events.len() ==> is_miss(config, #[trigger] events[i]),
    ensures
        state_after(config, events) == State::Exhausted,
        action_after(config, events) == (ActionView::Abort { error: SearchError::NotFound }),
{
    if events.len() > 0 {
        lemma_misses_try_the_next_page(config, events.drop_last());
    }
}

/// A search that is over stays as it is, and asks for nothing more.
pub proof fn lemma_over_is_final(config: Config, state: State, event: EventView)
    requires
        state.is_over(),
    ensures
        next(config, state, event).0 == state,
        next(config, state, event).1 is Abort,
{
}

/// A discovery request is only ever the answer of a scanning search that
/// goes on scanning, and a search that has left the scan never returns to
/// it.
pub proof fn lemma_scan_is_left_for_good(config: Config, state: State, event: EventView)
    ensures
        next(config, state, event).1 is Post ==> state is Scanning && next(
            config,
            state,
            event,
        ).0 is Scanning,
        !(state is Scanning) ==> !(next(config, state, event).0 is Scanning),
{
}

/// Once the search is past the scan, after the first `k` of `events`, no
/// later event brings it back, and no later answer is a discovery request.
pub proof fn lemma_no_page_is_tried_after_a_match(
    config: Config,
    events: Seq<EventView>,
    k: int,
)
    requires
        0 <= k <= events.len(),
        !(state_after(config, events.take(k)) is Scanning),
    ensures
        !(state_after(config, events) is Scanning),
        k < events.len() ==> !(action_after(config, events) is Post),
    decreases events.len(),
{
    if k == events.len() {
        assert(events.take(k) =~= events);
    } else {
        let before = events.drop_last();
        assert(before.take(k) =~= events.take(k));
        lemma_no_page_is_tried_after_a_match(config, before, k);
        lemma_scan_is_left_for_good(config, state_after(config, before), events.last());
    }
}

/// Markup without the image, with an image that names no source, or too
/// long to be read ends a matched search at once, with that error.
pub proof fn lemma_missing_image_aborts(config: Config, html: Seq<char>)
    requires
        image_source(html) is Err,
    ensures
        next(config, State::Matched { step: Step::Page }, EventView::Text(html)) == (
            State::Aborted,
            ActionView::Abort { error: image_source(html)->Err_0 },
        ),
{
}

/// An action that fails ends a search that is under way at once.
pub proof fn lemma_failure_aborts(config: Config, state: State)
    requires
        !state.is_over(),
    ensures
        next(config, state, EventView::Failed) == (
            State::Aborted,
            ActionView::Abort { error: SearchError::Interrupted { during: state } },
        ),
{
}

/// The way of a crossword that is found: the page whose markup holds the
/// link is followed by the fetch of that link, then of the image that the
/// fetched page names, then by the storing of the image under the path of
/// the date, and the search finishes with that path.
pub proof fn lemma_a_match_is_fetched_and_stored(
    config: Config,
    page: u32,
    map_html: Seq<char>,
    page_html: Seq<char>,
)
    requires
        page_link(map_html, config.target) matches Ok(Some(_)),
        image_source(page_html) is Ok,
    ensures
        ({
            let link = page_link(map_html, config.target)->Ok_0->0;
            let source = image_source(page_html)->Ok_0;
            let found = next(config, State::Scanning { page }, EventView::Text(map_html));
            let read = next(config, found.0, EventView::Text(page_html));
            let fetched = next(config, read.0, EventView::Fetched);
            let stored = next(config, fetched.0, EventView::Stored);
            &&& found.1 == ActionView::Get { url: resolved(link) }
            &&& read.1 == ActionView::Download { url: resolved(source) }
            &&& fetched.1 == ActionView::Store { path: local_path(config.date) }
            &&& stored == (State::Finished, ActionView::Finish { path: local_path(config.date) })
        }),
{
}

} // verus!
