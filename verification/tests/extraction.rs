//! Extraction tests against fixed page fixtures of the site template.
use catalog_scraper::{get_pages_from_html, get_part_details, get_parts_from_html};
use catalog_scraper::{ExtractError, PartData, PartWithDetails};
use scraper::Html;

/// A listing page in the site template: `n` items with prices and id cells,
/// and a pagination control whose last page link is labelled `last_page`.
fn listing_page(n: usize, last_page: &str) -> String {
    let mut items = String::new();
    for i in 0..n {
        items.push_str(&format!(
            "<div class=\"col-lg-2 col-md-2 col-sm-3 col-xs-3\"><p>Cena<br>{}.00 z\u{142}</p></div>\
             <div class=\"col-lg-3 col-md-3 col-sm-9 col-xs-8\"><div>\
             <a href=\"https://www.jeepchryslerparts.pl/sklep/produkt/{}/czesc.html\">\
             <p>Nr<br>PN-{}</p></a></div></div>",
            100 + i,
            6000 + i,
            i
        ));
    }
    format!(
        "<html><body><div id=\"prawy_bootstrap\">{}\
         <ul class=\"pagination\"><li><a>1</a></li><li><a>2</a></li><li><a>{}</a></li></ul>\
         </div></body></html>",
        items, last_page
    )
}

/// A detail page in the site template, with the given description-region
/// lines (the last line carries the alternate ids) and an optional
/// stock-announcement block.
fn detail_page(name: &str, lines: &[&str], stock_block: Option<&str>) -> String {
    let description = lines.join("<br>");
    let stock = match stock_block {
        Some(text) => format!("<p id=\"myDIV\">Stan: <b>{}</b></p>", text),
        None => String::new(),
    };
    format!(
        "<html><body>\
         <div class=\"col-lg-9 col-md-8 col-sm-7 col-xs-12 text-left styl_exo\"><h3>{}</h3></div>\
         <div class=\"opistresc\"><p>{}</p></div>\
         {}\
         </body></html>",
        name, description, stock
    )
}

fn sample_parent() -> PartData {
    PartData {
        price: "1062".to_string(),
        shop_id: Some(0),
        id: "Z 600-105 DOR".to_string(),
        href: "https://www.jeepchryslerparts.pl/sklep/produkt/6493/aktywator-napedu.html"
            .to_string(),
    }
}

#[test]
fn shoud_parse_html() {
    let html_string = listing_page(30, "259");
    let html: Html = Html::parse_document(&html_string);
    let result = get_parts_from_html(&html).unwrap();
    assert_eq!(result.len(), 30)
}

#[test]
fn shoud_parse_inner_html() {
    let html_string = detail_page(
        "AKTYWATOR NAP\u{118}DU",
        &[
            "AKTYWATOR NAP\u{118}DU 4WD/AWD",
            "FORD EXPEDITION 2003-2015",
            "FORD F-150 2004-2015",
            "LINCOLN MARK LT 2006-2008",
            "LINCOLN NAVIGATOR 2003-2015",
            "DORMAN",
            "600-105, 7L1Z3C247A, TCA107",
        ],
        None,
    );
    let html: Html = Html::parse_document(&html_string);
    let parent = sample_parent();
    let result = get_part_details(&html, &parent).unwrap();

    assert_eq!(
        result,
        PartWithDetails {
            id: String::from("Z 600-105 DOR"),
            name: String::from("AKTYWATOR NAP\u{118}DU"),
            description: String::from(
                "AKTYWATOR NAP\u{118}DU 4WD/AWD\nFORD EXPEDITION 2003-2015\nFORD F-150 2004-2015\nLINCOLN MARK LT 2006-2008\nLINCOLN NAVIGATOR 2003-2015\nDORMAN"
            ),
            price: String::from("1062"),
            stock: 0,
            other_ids: vec![
                "600-105".to_string(),
                " 7L1Z3C247A".to_string(),
                " TCA107".to_string()
            ]
        }
    )
}

#[test]
fn shoud_parse_inner_html_with_stock() {
    let html_string = detail_page(
        "FILTR OLEJU",
        &["FILTR OLEJU SILNIKA", "CA9471,5015610AA,WIX 42190,AA3037"],
        Some("W magazynie: 25 szt."),
    );
    let html: Html = Html::parse_document(&html_string);
    let parent = sample_parent();
    let result = get_part_details(&html, &parent).unwrap();
    assert_eq!(
        result.other_ids,
        vec![
            "CA9471".to_string(),
            "5015610AA".to_string(),
            "WIX 42190".to_string(),
            "AA3037".to_string()
        ]
    )
}

#[test]
fn shoud_parse_pages_html() {
    let html_string = listing_page(30, "259");
    let html: Html = Html::parse_document(&html_string);
    let result = get_pages_from_html(&html);

    let expected: Option<i32> = Some(259);

    assert_eq!(result, expected);
}

#[test]
fn listing_records_carry_fixture_fields() {
    let html_string = listing_page(3, "2");
    let html: Html = Html::parse_document(&html_string);
    let result = get_parts_from_html(&html).unwrap();
    assert_eq!(result.len(), 3);
    assert_eq!(
        result[0],
        PartData {
            price: "100.00".to_string(),
            shop_id: Some(6000),
            id: "PN-0".to_string(),
            href: "https://www.jeepchryslerparts.pl/sklep/produkt/6000/czesc.html".to_string(),
        }
    );
    assert_eq!(result[2].price, "102.00");
    assert_eq!(result[2].shop_id, Some(6002));
    assert_eq!(result[2].id, "PN-2");
}

#[test]
fn stock_defaults_to_zero_without_block() {
    let html_string = detail_page("CZUJNIK", &["CZUJNIK ABS", "X1,X2"], None);
    let html: Html = Html::parse_document(&html_string);
    let result = get_part_details(&html, &sample_parent()).unwrap();
    assert_eq!(result.stock, 0);
}

#[test]
fn stock_reads_last_digit_run_of_block() {
    let html_string = detail_page(
        "CZUJNIK",
        &["CZUJNIK ABS", "X1,X2"],
        Some("Dost\u{119}pne 3 paczki, razem 47 sztuk"),
    );
    let html: Html = Html::parse_document(&html_string);
    let result = get_part_details(&html, &sample_parent()).unwrap();
    assert_eq!(result.stock, 47);
}

#[test]
fn stock_beyond_i32_defaults_to_zero() {
    let html_string = detail_page(
        "CZUJNIK",
        &["CZUJNIK ABS", "X1,X2"],
        Some("kod 99999999999999999999"),
    );
    let html: Html = Html::parse_document(&html_string);
    let result = get_part_details(&html, &sample_parent()).unwrap();
    assert_eq!(result.stock, 0);
}

#[test]
fn pagination_label_beyond_i32_yields_none() {
    let html_string = "<html><body><ul class=\"pagination\">\
                       <li><a>99999999999</a></li></ul></body></html>";
    let html: Html = Html::parse_document(html_string);
    assert_eq!(get_pages_from_html(&html), None);
}

#[test]
fn pagination_absent_yields_none() {
    let html_string = "<html><body><div id=\"prawy_bootstrap\"></div></body></html>";
    let html: Html = Html::parse_document(html_string);
    assert_eq!(get_pages_from_html(&html), None);
}

#[test]
fn pagination_non_numeric_label_yields_none() {
    let html_string = "<html><body><ul class=\"pagination\">\
                       <li><a>1</a></li><li><a>next</a></li></ul></body></html>";
    let html: Html = Html::parse_document(html_string);
    assert_eq!(get_pages_from_html(&html), None);
}

#[test]
fn price_cell_without_paragraph_is_an_error() {
    let html_string = "<html><body><div id=\"prawy_bootstrap\">\
         <div class=\"col-lg-2 col-md-2 col-sm-3 col-xs-3\"><span>brak</span></div>\
         <div class=\"col-lg-3 col-md-3 col-sm-9 col-xs-8\"><div>\
         <a href=\"https://example.jeepchryslerparts.pl/sklep/produkt/1/x.html\">\
         <p>PN-9</p></a></div></div>\
         </div></body></html>";
    let html: Html = Html::parse_document(html_string);
    assert_eq!(
        get_parts_from_html(&html),
        Err(ExtractError::PriceCellWithoutParagraph)
    );
}

#[test]
fn malformed_price_token_is_an_error() {
    let html_string = "<html><body><div id=\"prawy_bootstrap\">\
         <div class=\"col-lg-2 col-md-2 col-sm-3 col-xs-3\"><p>cena nieznana</p></div>\
         <div class=\"col-lg-3 col-md-3 col-sm-9 col-xs-8\"><div>\
         <a href=\"https://example.jeepchryslerparts.pl/sklep/produkt/1/x.html\">\
         <p>PN-9</p></a></div></div>\
         </div></body></html>";
    let html: Html = Html::parse_document(html_string);
    assert_eq!(get_parts_from_html(&html), Err(ExtractError::InvalidPriceToken));
}

#[test]
fn extracting_twice_is_bit_identical() {
    let listing = listing_page(5, "7");
    let html: Html = Html::parse_document(&listing);
    let first = get_parts_from_html(&html).unwrap();
    let second = get_parts_from_html(&html).unwrap();
    assert_eq!(first, second);

    let detail = detail_page("NAZWA", &["OPIS", "A,B"], Some("w sumie 12"));
    let dhtml: Html = Html::parse_document(&detail);
    let parent = sample_parent();
    let d1 = get_part_details(&dhtml, &parent).unwrap();
    let d2 = get_part_details(&dhtml, &parent).unwrap();
    assert_eq!(d1, d2);
}

#[test]
fn single_description_line_means_empty_description() {
    let html_string = detail_page("NAZWA", &["600-105,ABC"], None);
    let html: Html = Html::parse_document(&html_string);
    let result = get_part_details(&html, &sample_parent()).unwrap();
    assert_eq!(result.description, "");
    assert_eq!(result.other_ids, vec!["600-105".to_string(), "ABC".to_string()]);
}

#[test]
fn name_defaults_to_empty_literal() {
    let html_string =
        "<html><body><div class=\"opistresc\"><p>OPIS<br>A,B</p></div></body></html>";
    let html: Html = Html::parse_document(html_string);
    let result = get_part_details(&html, &sample_parent()).unwrap();
    assert_eq!(result.name, "empty");
}

#[test]
fn empty_description_region_is_an_error() {
    // no description region at all
    let no_region = "<html><body>\
         <div class=\"col-lg-9 col-md-8 col-sm-7 col-xs-12 text-left styl_exo\"><h3>NAZWA</h3></div>\
         </body></html>";
    let html: Html = Html::parse_document(no_region);
    assert_eq!(
        get_part_details(&html, &sample_parent()),
        Err(ExtractError::DescriptionRegionEmpty)
    );

    // a description region whose text is all blank
    let blank_region = "<html><body>\
         <div class=\"opistresc\"><p>   \n\t  </p></div>\
         </body></html>";
    let html: Html = Html::parse_document(blank_region);
    assert_eq!(
        get_part_details(&html, &sample_parent()),
        Err(ExtractError::DescriptionRegionEmpty)
    );
}

#[test]
fn other_ids_join_back_with_commas() {
    let html_string = detail_page("NAZWA", &["OPIS", "A, B,C"], None);
    let html: Html = Html::parse_document(&html_string);
    let result = get_part_details(&html, &sample_parent()).unwrap();
    assert_eq!(result.other_ids_joined(), "A, B,C");
}
