//! Tests of the retry policy, the url template, the form field set, the
//! positional zip, and the end-to-end pipeline ordering.
use catalog_scraper::listing::{extract_listings, Anchor};
use catalog_scraper::pipeline::{replay_run, start, step, PipelineAction, PipelineEvent, PipelineState};
use catalog_scraper::{
    get_pages_from_html, get_part_details, get_parts_from_html, make_url, run_with_retries,
    should_retry, stock_form_fields, PartWithDetails,
};
use scraper::Html;

#[test]
fn retry_returns_first_success_after_k_failures() {
    let outcomes = vec![None, None, None, Some("strona".to_string())];
    let run = run_with_retries(&outcomes);
    assert_eq!(run.result, Some("strona".to_string()));
    assert_eq!(run.attempts, 4);
    assert_eq!(run.waits, 3);
}

#[test]
fn retry_succeeds_on_the_very_last_attempt() {
    let mut outcomes: Vec<Option<String>> = vec![None; 10];
    outcomes.push(Some("ostatnia".to_string()));
    let run = run_with_retries(&outcomes);
    assert_eq!(run.result, Some("ostatnia".to_string()));
    assert_eq!(run.attempts, 11);
    assert_eq!(run.waits, 10);
}

#[test]
fn retry_exhausts_without_exceeding_the_bound() {
    let mut outcomes: Vec<Option<String>> = vec![None; 11];
    outcomes.push(Some("za pozno".to_string()));
    let run = run_with_retries(&outcomes);
    assert_eq!(run.result, None);
    assert_eq!(run.attempts, 11);
    assert_eq!(run.waits, 10);
}

#[test]
fn retry_bound_is_ten_retries() {
    assert!(should_retry(0));
    assert!(should_retry(10));
    assert!(!should_retry(11));
}

#[test]
fn make_url_embeds_the_page_number() {
    assert_eq!(
        make_url(&1),
        "https://www.jeepchryslerparts.pl/sklep/wszystkie-marki/1/wszystkie-marki.html"
    );
    assert_eq!(
        make_url(&259),
        "https://www.jeepchryslerparts.pl/sklep/wszystkie-marki/259/wszystkie-marki.html"
    );
}

#[test]
fn form_fields_are_the_fixed_set() {
    let fields = stock_form_fields(6493);
    assert_eq!(
        fields,
        vec![
            ("ilosc_prod".to_string(), "10000".to_string()),
            ("produkt_id".to_string(), "6493".to_string()),
            ("dodajdokoszyka".to_string(), "".to_string()),
        ]
    );
}

#[test]
fn zip_truncates_to_the_shorter_side() {
    let price_cells = vec![
        Some(vec!["12.50 z\u{142}".to_string()]),
        Some(vec!["99 z\u{142}".to_string()]),
    ];
    let id_cells = vec![Some(Anchor {
        href: Some("/sklep/produkt/77/a.html".to_string()),
        paragraph_texts: vec![vec!["PN-A".to_string()]],
    })];
    let parts = extract_listings(&price_cells, &id_cells).unwrap();
    assert_eq!(parts.len(), 1);
    assert_eq!(parts[0].price, "12.50");
    assert_eq!(parts[0].shop_id, Some(77));
    assert_eq!(parts[0].id, "PN-A");
}

#[test]
fn id_cell_without_href_is_dropped() {
    let price_cells = vec![
        Some(vec!["12.50".to_string()]),
        Some(vec!["13.50".to_string()]),
    ];
    let id_cells = vec![
        Some(Anchor { href: None, paragraph_texts: vec![vec!["PN-A".to_string()]] }),
        Some(Anchor {
            href: Some("/sklep/produkt/88/b.html".to_string()),
            paragraph_texts: vec![vec!["PN-B".to_string()]],
        }),
    ];
    let parts = extract_listings(&price_cells, &id_cells).unwrap();
    assert_eq!(parts.len(), 1);
    assert_eq!(parts[0].id, "PN-B");
    assert_eq!(parts[0].shop_id, Some(88));
}

#[test]
fn shop_id_is_none_without_a_slashed_digit_run() {
    let price_cells = vec![Some(vec!["5".to_string()])];
    let id_cells = vec![Some(Anchor {
        href: Some("https://www.jeepchryslerparts.pl/sklep/produkt/czesc.html".to_string()),
        paragraph_texts: vec![vec!["PN-C".to_string()]],
    })];
    let parts = extract_listings(&price_cells, &id_cells).unwrap();
    assert_eq!(parts[0].shop_id, None);
}

#[test]
fn id_cell_with_empty_href_is_dropped() {
    let price_cells = vec![
        Some(vec!["1.00".to_string()]),
        Some(vec!["2.00".to_string()]),
    ];
    let id_cells = vec![
        Some(Anchor { href: Some("".to_string()), paragraph_texts: vec![vec!["PN-E".to_string()]] }),
        Some(Anchor {
            href: Some("/sklep/produkt/99/c.html".to_string()),
            paragraph_texts: vec![vec!["PN-F".to_string()]],
        }),
    ];
    let parts = extract_listings(&price_cells, &id_cells).unwrap();
    assert_eq!(parts.len(), 1);
    assert_eq!(parts[0].id, "PN-F");
    assert!(!parts[0].href.is_empty());
}

#[test]
fn shop_id_beyond_i64_is_none() {
    let price_cells = vec![Some(vec!["5".to_string()])];
    let id_cells = vec![Some(Anchor {
        href: Some("/sklep/produkt/99999999999999999999999/a.html".to_string()),
        paragraph_texts: vec![vec!["PN-D".to_string()]],
    })];
    let parts = extract_listings(&price_cells, &id_cells).unwrap();
    assert_eq!(parts[0].shop_id, None);
}

fn listing_fixture(count: usize, first_index: usize, last_page: &str) -> String {
    let mut items = String::new();
    for k in 0..count {
        let i = first_index + k;
        items.push_str(&format!(
            "<div class=\"col-lg-2 col-md-2 col-sm-3 col-xs-3\"><p>Cena<br>{}.00 z\u{142}</p></div>\
             <div class=\"col-lg-3 col-md-3 col-sm-9 col-xs-8\"><div>\
             <a href=\"https://www.jeepchryslerparts.pl/sklep/produkt/{}/czesc.html\">\
             <p>Nr<br>PN-{}</p></a></div></div>",
            100 + i,
            6000 + i,
            i
        ));
    }
    format!(
        "<html><body><div id=\"prawy_bootstrap\">{}\
         <ul class=\"pagination\"><li><a>1</a></li><li><a>{}</a></li></ul>\
         </div></body></html>",
        items, last_page
    )
}

fn detail_fixture(name: &str) -> String {
    format!(
        "<html><body>\
         <div class=\"col-lg-9 col-md-8 col-sm-7 col-xs-12 text-left styl_exo\"><h3>{}</h3></div>\
         <div class=\"opistresc\"><p>OPIS<br>ALT-1,ALT-2</p></div>\
         <p id=\"myDIV\">Stan: <b>5 sztuk</b></p>\
         </body></html>",
        name
    )
}

#[test]
fn two_page_run_writes_every_item_once_in_order() {
    let pages = [
        Html::parse_document(&listing_fixture(2, 0, "2")),
        Html::parse_document(&listing_fixture(2, 2, "2")),
    ];

    let (mut state, mut acts) = start();
    let mut rows: Vec<PartWithDetails> = Vec::new();
    let mut waits: usize = 0;
    let mut finished = false;
    let mut aborted = false;

    while !finished && !aborted {
        let mut next_event: Option<PipelineEvent> = None;
        for act in acts {
            match act {
                PipelineAction::FetchListing { page } => {
                    assert_eq!(page, 1);
                    let html = &pages[0];
                    let parts = get_parts_from_html(html).unwrap();
                    let detected = get_pages_from_html(html);
                    assert_eq!(detected, Some(2));
                    next_event =
                        Some(PipelineEvent::FirstPageLoaded { parts, detected_pages: detected });
                }
                PipelineAction::WaitThenFetchListing { page } => {
                    waits += 1;
                    assert_eq!(page, 2);
                    let parts = get_parts_from_html(&pages[1]).unwrap();
                    next_event = Some(PipelineEvent::PageLoaded { parts });
                }
                PipelineAction::WaitThenFetchDetail { part } => {
                    waits += 1;
                    let html = Html::parse_document(&detail_fixture(&format!("NAZWA {}", part.id)));
                    let event = match get_part_details(&html, &part) {
                        Ok(detail) => PipelineEvent::DetailLoaded { detail },
                        Err(_) => PipelineEvent::DetailFailed,
                    };
                    next_event = Some(event);
                }
                PipelineAction::WriteBatch { batch } => {
                    rows.extend(batch);
                }
                PipelineAction::Finish => {
                    finished = true;
                }
                PipelineAction::Abort => {
                    aborted = true;
                }
            }
        }
        match next_event {
            Some(event) => {
                let (next_state, next_acts) = step(state, event, None);
                state = next_state;
                acts = next_acts;
            }
            None => break,
        }
    }

    assert!(finished);
    assert!(!aborted);
    assert!(matches!(state, PipelineState::Done));
    // one row per listing item across both pages, in page-then-listing order
    let ids: Vec<&str> = rows.iter().map(|r| r.id.as_str()).collect();
    assert_eq!(ids, vec!["PN-0", "PN-1", "PN-2", "PN-3"]);
    for (n, row) in rows.iter().enumerate() {
        assert_eq!(row.name, format!("NAZWA PN-{}", n));
        assert_eq!(row.stock, 5);
        assert_eq!(row.other_ids, vec!["ALT-1".to_string(), "ALT-2".to_string()]);
        for later in rows.iter().skip(n + 1) {
            assert_ne!(row.id, later.id);
        }
    }
    // one pacing wait before each detail fetch and before the second page
    assert_eq!(waits, 5);
}

#[test]
fn replayed_run_emits_details_in_page_then_listing_order() {
    let page1 = Html::parse_document(&listing_fixture(2, 0, "2"));
    let page2 = Html::parse_document(&listing_fixture(1, 2, "2"));
    let pages = vec![
        get_parts_from_html(&page1).unwrap(),
        get_parts_from_html(&page2).unwrap(),
    ];
    let details: Vec<Vec<PartWithDetails>> = pages
        .iter()
        .map(|parts| {
            parts
                .iter()
                .map(|part| {
                    let html =
                        Html::parse_document(&detail_fixture(&format!("NAZWA {}", part.id)));
                    get_part_details(&html, part).unwrap()
                })
                .collect()
        })
        .collect();
    let rows = replay_run(&pages, &details);
    let expected: Vec<PartWithDetails> = details.into_iter().flatten().collect();
    assert_eq!(rows, expected);
    let ids: Vec<&str> = rows.iter().map(|r| r.id.as_str()).collect();
    assert_eq!(ids, vec!["PN-0", "PN-1", "PN-2"]);
}

#[test]
fn first_page_failure_aborts_before_any_output() {
    let (state, _) = start();
    let (state, acts) = step(state, PipelineEvent::FirstPageFailed, None);
    assert!(matches!(state, PipelineState::Aborted));
    assert!(matches!(acts.as_slice(), [PipelineAction::Abort]));
}

#[test]
fn later_page_failure_contributes_zero_listings() {
    let state = PipelineState::FetchingPage { page: 2, total: 3 };
    let (state, acts) = step(state, PipelineEvent::PageFailed, None);
    assert!(matches!(state, PipelineState::FetchingPage { page: 3, total: 3 }));
    match acts.as_slice() {
        [PipelineAction::WriteBatch { batch }, PipelineAction::WaitThenFetchListing { page: 3 }] => {
            assert!(batch.is_empty());
        }
        _ => panic!("unexpected actions"),
    }
}

#[test]
fn page_limit_overrides_detected_count() {
    let (state, _) = start();
    let parts = Vec::new();
    let event = PipelineEvent::FirstPageLoaded { parts, detected_pages: Some(259) };
    let (state, acts) = step(state, event, Some(1));
    // with the override no page beyond 1 is fetched
    assert!(matches!(state, PipelineState::Done));
    match acts.as_slice() {
        [PipelineAction::WriteBatch { batch }, PipelineAction::Finish] => {
            assert!(batch.is_empty());
        }
        _ => panic!("unexpected actions"),
    }
}
