use hitavada_crossword::crossword::{
    find_image_source, find_link, make_discovery_body, make_local_path, pick_source, resolve,
    start, step, Action, Config, Event, SearchError, State, Step, BASE_URL, DEFAULT_PAGES,
    DISCOVERY_URL,
};
use hitavada_crossword::markup::{readable, MAX_MARKUP_BYTES};
use hitavada_crossword::parser::Target;
use hitavada_crossword::types::Date;

const MISS: &str = r#"<map><area shape="rect" coords="100,100,200,200" href="test"/></map>"#;
const HIT: &str = r#"<map><area shape="rect" coords="0,1625,1000,2775" href="article.php?mid=X"/></map>"#;
const PAGE: &str = r#"<div class="slices_container"><img src="images/foo.jpg"/></div>"#;

fn config() -> Config {
    Config::new(Date::new(2024, 3, 20).unwrap())
}

// A site that answers from fixed pages, and keeps a record of what it was
// asked for.
struct Site {
    match_on: Option<u32>,
    page_html: &'static str,
    posts: Vec<String>,
    gets: Vec<String>,
    downloads: Vec<String>,
    stored: Vec<String>,
}

impl Site {
    fn new(match_on: Option<u32>, page_html: &'static str) -> Site {
        Site {
            match_on,
            page_html,
            posts: Vec::new(),
            gets: Vec::new(),
            downloads: Vec::new(),
            stored: Vec::new(),
        }
    }

    fn run(&mut self, config: &Config) -> Result<String, SearchError> {
        let (mut state, mut action) = start(config);
        loop {
            let event = match action {
                Action::Post { url, body } => {
                    assert_eq!(url, "https://www.ehitavada.com/val.php");
                    self.posts.push(body);
                    if Some(self.posts.len() as u32) == self.match_on {
                        Event::Text(HIT.to_string())
                    } else {
                        Event::Text(MISS.to_string())
                    }
                }
                Action::Get { url } => {
                    self.gets.push(url);
                    Event::Text(self.page_html.to_string())
                }
                Action::Download { url } => {
                    self.downloads.push(url);
                    Event::Fetched
                }
                Action::Store { path } => {
                    self.stored.push(path);
                    Event::Stored
                }
                Action::Finish { path } => {
                    assert_eq!(state, State::Finished);
                    return Ok(path);
                }
                Action::Abort { error } => return Err(error),
            };
            let next = step(config, state, event);
            state = next.0;
            action = next.1;
        }
    }
}

#[test]
fn a_match_on_page_three_is_fetched_and_stored() {
    let mut site = Site::new(Some(3), PAGE);
    let path = site.run(&config()).unwrap();
    assert_eq!(path, "/tmp/crossword_2024-03-20.jpg");
    assert!(path.contains("2024-03-20"));
    assert_eq!(site.posts.len(), 3);
    for (i, body) in site.posts.iter().enumerate() {
        assert!(body.ends_with(&format!("get_mapping_coords_page={}", i + 1)));
    }
    assert_eq!(site.gets, vec!["https://www.ehitavada.com/article.php?mid=X"]);
    assert_eq!(site.downloads, vec!["https://www.ehitavada.com/images/foo.jpg"]);
    assert_eq!(site.stored, vec!["/tmp/crossword_2024-03-20.jpg"]);
}

#[test]
fn twenty_misses_exhaust_the_search() {
    let mut site = Site::new(None, PAGE);
    assert_eq!(site.run(&config()), Err(SearchError::NotFound));
    assert_eq!(site.posts.len(), 20);
    for (i, body) in site.posts.iter().enumerate() {
        assert_eq!(
            body,
            &make_discovery_body(&Date::new(2024, 3, 20).unwrap(), i as u32 + 1)
        );
    }
    assert!(site.gets.is_empty());
    assert!(site.downloads.is_empty());
    assert!(site.stored.is_empty());
}

#[test]
fn a_page_without_the_image_aborts_and_page_six_is_never_tried() {
    let mut site = Site::new(Some(5), "<div class=\"slices_container\"><p>no image</p></div>");
    assert_eq!(site.run(&config()), Err(SearchError::ImageMissing));
    assert_eq!(site.posts.len(), 5);
    assert_eq!(site.gets.len(), 1);
    assert!(site.downloads.is_empty());
    assert!(site.stored.is_empty());
}

#[test]
fn an_image_without_a_source_aborts() {
    let mut site = Site::new(Some(1), "<div class=\"slices_container\"><img alt=\"x\"></div>");
    assert_eq!(site.run(&config()), Err(SearchError::SourceMissing));
    assert_eq!(site.posts.len(), 1);
    assert_eq!(site.gets.len(), 1);
    assert!(site.downloads.is_empty());
}

#[test]
fn the_search_stops_at_the_first_page_that_matches() {
    let mut site = Site::new(Some(1), PAGE);
    assert!(site.run(&config()).is_ok());
    assert_eq!(site.posts.len(), 1);
}

#[test]
fn a_match_on_the_last_page_is_still_found() {
    let mut site = Site::new(Some(20), PAGE);
    assert!(site.run(&config()).is_ok());
    assert_eq!(site.posts.len(), 20);
}

#[test]
fn the_number_of_pages_can_be_set() {
    let two = Config { pages: 2, ..config() };
    let mut site = Site::new(Some(3), PAGE);
    assert_eq!(site.run(&two), Err(SearchError::NotFound));
    assert_eq!(site.posts.len(), 2);

    let none = Config { pages: 0, ..config() };
    let (state, action) = start(&none);
    assert_eq!(state, State::Exhausted);
    assert_eq!(action, Action::Abort { error: SearchError::NotFound });
}

#[test]
fn the_target_can_be_set() {
    let elsewhere = Config {
        target: Target { tolerance_x1: 0, ..Target::reference() },
        ..config()
    };
    let html = r#"<map><area coords="4,1672,997,2778" href="near"></map>"#;
    let (state, _) = step(&elsewhere, State::Scanning { page: 1 }, Event::Text(html.to_string()));
    assert_eq!(state, State::Scanning { page: 2 });
    let (state, action) = step(&config(), State::Scanning { page: 1 }, Event::Text(html.to_string()));
    assert_eq!(state, State::Matched { step: Step::Page });
    assert_eq!(action, Action::Get { url: "https://www.ehitavada.com/near".to_string() });
}

#[test]
fn the_first_action_asks_for_page_one() {
    let (state, action) = start(&config());
    assert_eq!(state, State::Scanning { page: 1 });
    assert_eq!(
        action,
        Action::Post {
            url: "https://www.ehitavada.com/val.php".to_string(),
            body: "get_mapping_coords=https%3A%2F%2Fehitavada.com%2Fencyc%2F6%2F20240320%2FMpage_1.jpg&get_mapping_coords_date=2024-03-20&get_mapping_coords_prefix=Mpage&get_mapping_coords_page=1".to_string(),
        }
    );
}

#[test]
fn the_discovery_form() {
    let date = Date::new(2025, 11, 5).unwrap();
    assert_eq!(
        make_discovery_body(&date, 17),
        "get_mapping_coords=https%3A%2F%2Fehitavada.com%2Fencyc%2F6%2F20251105%2FMpage_17.jpg&get_mapping_coords_date=2025-11-05&get_mapping_coords_prefix=Mpage&get_mapping_coords_page=17"
    );
    // as the date's text is cut up for it: year, month and day
    let text = date.to_iso_string();
    assert_eq!(
        make_discovery_body(&date, 3),
        format!(
            "get_mapping_coords=https%3A%2F%2Fehitavada.com%2Fencyc%2F6%2F{}{}{}%2FMpage_{}.jpg&get_mapping_coords_date={}&get_mapping_coords_prefix=Mpage&get_mapping_coords_page={}",
            &text[0..4], &text[5..7], &text[8..10], 3, text, 3
        )
    );
}

#[test]
fn paths_and_addresses() {
    assert_eq!(BASE_URL, "https://www.ehitavada.com/");
    assert_eq!(DISCOVERY_URL, "https://www.ehitavada.com/val.php");
    assert_eq!(DEFAULT_PAGES, 20);
    assert_eq!(make_local_path(&Date::new(2024, 3, 20).unwrap()), "/tmp/crossword_2024-03-20.jpg");
    assert_eq!(resolve("images/not_found.png"), "https://www.ehitavada.com/images/not_found.png");
    assert_eq!(resolve(""), "https://www.ehitavada.com/");
}

#[test]
fn the_source_of_the_first_image_in_the_container() {
    assert_eq!(find_image_source(PAGE), Ok("images/foo.jpg".to_string()));
    assert_eq!(
        find_image_source(
            r#"<img src="outside.jpg"><div class="slices_container"><span><img src="a.jpg"></span><img src="b.jpg"></div>"#
        ),
        Ok("a.jpg".to_string())
    );
    assert_eq!(
        find_image_source(r#"<div class="slices_container"><img><img src="b.jpg"></div>"#),
        Err(SearchError::SourceMissing)
    );
    assert_eq!(find_image_source(r#"<img src="outside.jpg">"#), Err(SearchError::ImageMissing));
    assert_eq!(find_image_source(""), Err(SearchError::ImageMissing));
}

#[test]
fn picking_the_source_out_of_a_selection() {
    assert_eq!(pick_source(&None), Err(SearchError::ImageMissing));
    assert_eq!(pick_source(&Some(vec![])), Err(SearchError::ImageMissing));
    assert_eq!(pick_source(&Some(vec![vec![]])), Err(SearchError::SourceMissing));
    assert_eq!(pick_source(&Some(vec![vec![None]])), Err(SearchError::SourceMissing));
    assert_eq!(
        pick_source(&Some(vec![vec![Some("a".to_string())], vec![Some("b".to_string())]])),
        Ok("a".to_string())
    );
    assert_eq!(
        pick_source(&Some(vec![vec![None], vec![Some("b".to_string())]])),
        Err(SearchError::SourceMissing)
    );
}

#[test]
fn a_failed_action_aborts_at_once() {
    for state in [
        State::Scanning { page: 4 },
        State::Matched { step: Step::Page },
        State::Matched { step: Step::Image },
        State::Matched { step: Step::Store },
    ] {
        let (next, action) = step(&config(), state, Event::Failed);
        assert_eq!(next, State::Aborted);
        assert_eq!(action, Action::Abort { error: SearchError::Interrupted { during: state } });
    }
}

#[test]
fn a_search_that_is_over_stays_over() {
    for state in [State::Exhausted, State::Aborted, State::Finished] {
        for event in [Event::Text(HIT.to_string()), Event::Fetched, Event::Stored, Event::Failed] {
            let (next, action) = step(&config(), state, event);
            assert_eq!(next, state);
            assert_eq!(action, Action::Abort { error: SearchError::Unexpected { during: state } });
        }
    }
}

#[test]
fn an_event_that_is_not_waited_for_aborts() {
    let cases = [
        (State::Scanning { page: 1 }, Event::Fetched),
        (State::Scanning { page: 1 }, Event::Stored),
        (State::Matched { step: Step::Page }, Event::Fetched),
        (State::Matched { step: Step::Page }, Event::Stored),
        (State::Matched { step: Step::Image }, Event::Text(PAGE.to_string())),
        (State::Matched { step: Step::Image }, Event::Stored),
        (State::Matched { step: Step::Store }, Event::Text(PAGE.to_string())),
        (State::Matched { step: Step::Store }, Event::Fetched),
    ];
    for (state, event) in cases {
        let (next, action) = step(&config(), state, event);
        assert_eq!(next, State::Aborted);
        assert_eq!(action, Action::Abort { error: SearchError::Unexpected { during: state } });
    }
}

#[test]
fn the_words_of_the_errors() {
    assert_eq!(SearchError::NotFound.message(), "Could not find crossword on any page");
    assert_eq!(SearchError::ImageMissing.message(), "Could not find crossword image");
    assert_eq!(SearchError::SourceMissing.message(), "Could not find image source");
    assert_eq!(SearchError::MarkupTooLong.message(), "The markup is too long to be read");
    assert_eq!(
        SearchError::Interrupted { during: State::Scanning { page: 2 } }.message(),
        "The search was interrupted"
    );
    assert_eq!(
        SearchError::Unexpected { during: State::Finished }.message(),
        "The search was handed an event it did not wait for"
    );
}

#[test]
fn the_link_in_an_image_map() {
    let target = Target::reference();
    assert_eq!(find_link(HIT, &target), Ok(Some("article.php?mid=X".to_string())));
    assert_eq!(find_link(MISS, &target), Ok(None));
    assert_eq!(find_link("", &target), Ok(None));
}

#[test]
fn markup_up_to_the_limit_is_readable() {
    assert_eq!(MAX_MARKUP_BYTES, 0x1000_0000);
    assert!(readable(""));
    assert!(readable(HIT));
    let mut markup = "é".repeat(MAX_MARKUP_BYTES / 2);
    assert_eq!(markup.len(), MAX_MARKUP_BYTES);
    assert!(readable(&markup));
    markup.push('a');
    assert!(!readable(&markup));
}

#[test]
fn markup_that_is_too_long_is_not_read() {
    let mut markup = String::from(HIT);
    markup.push_str(PAGE);
    markup.push_str(&" ".repeat(MAX_MARKUP_BYTES + 1 - markup.len()));
    assert_eq!(markup.len(), MAX_MARKUP_BYTES + 1);
    assert_eq!(find_link(&markup, &Target::reference()), Err(SearchError::MarkupTooLong));
    assert_eq!(find_image_source(&markup), Err(SearchError::MarkupTooLong));
    for state in [State::Scanning { page: 2 }, State::Matched { step: Step::Page }] {
        let (next, action) = step(&config(), state, Event::Text(markup.clone()));
        assert_eq!(next, State::Aborted);
        assert_eq!(action, Action::Abort { error: SearchError::MarkupTooLong });
    }
    // one byte less, and it is read
    markup.pop();
    assert_eq!(find_link(&markup, &Target::reference()), Ok(Some("article.php?mid=X".to_string())));
    assert_eq!(find_image_source(&markup), Ok("images/foo.jpg".to_string()));
}
