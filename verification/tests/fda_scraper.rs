use fda_calendar_scraper::currency::USDParseError;
use fda_calendar_scraper::currency::USD;
use fda_calendar_scraper::fda_scraper::parse_all_rows;
use fda_calendar_scraper::fda_scraper::dom::MAX_PAGE_BYTES;
use fda_calendar_scraper::fda_scraper::is_parseable;
use fda_calendar_scraper::fda_scraper::parse_rows;
use fda_calendar_scraper::fda_scraper::parse_rows_read;
use fda_calendar_scraper::fda_scraper::CatalystDate;
use fda_calendar_scraper::fda_scraper::ParsedRow;
use fda_calendar_scraper::fda_scraper::PhaseLabel;
use fda_calendar_scraper::fda_scraper::ScrapeError;
use fda_calendar_scraper::fda_scraper::ScrapePredicates;
use fda_calendar_scraper::fda_scraper::ScrapedCatalysts;

fn row_html(
    price: &str,
    url: &str,
    symbol: &str,
    date: &str,
    drug: &str,
    indication: &str,
    note: &str,
    label: &str,
    phase: &str,
) -> String {
    format!(
        r#"
        <tr class="js-tr js-drug">
          <td>
            <a href="{url}">{symbol}</a>
            <div class="price">{price}</div>
          </td>
          <td>
            <strong class="drug">{drug}</strong>
            <div class="indication">{indication}</div>
          </td>
          <td class="js-td--stage" data-value="{label}">
            {phase}
          </td>
          <td>
            <time class="catalyst-date">{date}</time>
            <div class="catalyst-note">{note}</div>
          </td>
        </tr>"#
    )
}

fn page(rows: &[String]) -> String {
    format!(
        "<!DOCTYPE html><html><head><title>FDA Calendar</title></head><body>\
         <table><thead><tr><th>Ticker</th><th>Drug</th><th>Stage</th><th>Catalyst</th></tr></thead>\
         <tbody>{}</tbody></table></body></html>",
        rows.concat()
    )
}

const BTX_NOTE: &str =
    "Phase 1/2 enrolment to be completed 2019. Updated data due  May 2, 2019,10:15am ET at ARVO.";
const GWPH_NOTE: &str = "Phase 3 data to be presented at AAN in late-breaker May 7, 2019. Abstract embargoed until May 3, 2019.";
const EYEN_NOTE: &str = "Phase 3 trial met primary endpoint - January 31, 2019. Data from second trial also met primary endpoint - February 25, 2019. Detailed data due at (ASCRS) meeting May 3-7, 2019.";

fn btx_html(price: &str, date: &str) -> String {
    row_html(
        price,
        "https://www.biopharmcatalyst.com/company/BTX",
        "BTX",
        date,
        "OpRegen",
        "Dry age-related macular degeneration (AMD)",
        BTX_NOTE,
        "phase1.5",
        "Phase 1/2",
    )
}

fn gwph_html() -> String {
    row_html(
        "$173.16",
        "https://www.biopharmcatalyst.com/company/GWPH",
        "GWPH",
        "05/03/2019",
        "Epidiolex GWPCARE2",
        "Dravet Syndrome",
        GWPH_NOTE,
        "phase3",
        "Phase 3",
    )
}

fn eyen_html() -> String {
    row_html(
        "$6.00",
        "https://www.biopharmcatalyst.com/company/EYEN",
        "EYEN",
        "05/03/2019",
        "MicroStat",
        "Mydriasis - pupil dilation",
        EYEN_NOTE,
        "phase3",
        "Phase 3",
    )
}

fn sample_page() -> String {
    page(&[btx_html("$1.26", "05/02/2019")])
}

fn multiple_rows_page() -> String {
    page(&[btx_html("$1.26", "05/02/2019"), gwph_html(), eyen_html()])
}

fn malformed_date_page() -> String {
    page(&[btx_html("$1.26", "05/02/2019"), btx_html("$1.26", "May 2nd"), eyen_html()])
}

fn malformed_price_page() -> String {
    page(&[btx_html("$1.26", "05/02/2019"), btx_html("1.26", "05/02/2019"), eyen_html()])
}

fn date(year: i32, month: u32, day: u32) -> CatalystDate {
    CatalystDate { year, month, day }
}

fn label(text: &str) -> PhaseLabel {
    PhaseLabel(text.to_string())
}

fn btx_row() -> ParsedRow {
    ParsedRow {
        price: USD::new("$1.26").unwrap(),
        url: "https://www.biopharmcatalyst.com/company/BTX".to_string(),
        symbol: "BTX".to_string(),
        catalyst_date: date(2019, 5, 2),
        drug_name: "OpRegen".to_string(),
        drug_indication: "Dry age-related macular degeneration (AMD)".to_string(),
        catalyst_note: BTX_NOTE.to_string(),
        phase: "Phase 1/2".to_string(),
    }
}

fn gwph_row() -> ParsedRow {
    ParsedRow {
        price: USD::new("$173.16").unwrap(),
        url: "https://www.biopharmcatalyst.com/company/GWPH".to_string(),
        symbol: "GWPH".to_string(),
        catalyst_date: date(2019, 5, 3),
        drug_name: "Epidiolex GWPCARE2".to_string(),
        drug_indication: "Dravet Syndrome".to_string(),
        catalyst_note: GWPH_NOTE.to_string(),
        phase: "Phase 3".to_string(),
    }
}

fn eyen_row() -> ParsedRow {
    ParsedRow {
        price: USD::new("$6.00").unwrap(),
        url: "https://www.biopharmcatalyst.com/company/EYEN".to_string(),
        symbol: "EYEN".to_string(),
        catalyst_date: date(2019, 5, 3),
        drug_name: "MicroStat".to_string(),
        drug_indication: "Mydriasis - pupil dilation".to_string(),
        catalyst_note: EYEN_NOTE.to_string(),
        phase: "Phase 3".to_string(),
    }
}

fn catalog_of(entries: Vec<(PhaseLabel, ParsedRow)>) -> ScrapedCatalysts {
    let mut catalysts = ScrapedCatalysts::empty();
    for (label, row) in entries {
        catalysts.insert(label, row);
    }
    catalysts
}

#[test]
#[should_panic(expected = "Failed to parse date")]
fn fda_scraper_parse_malformed_time() {
    match parse_rows(&malformed_date_page(), ScrapePredicates::new()) {
        Err(ScrapeError::DateParseFailure(_)) => panic!("Failed to parse date"),
        x => panic!("Unexpected result {:?}", x),
    }
}

#[test]
#[should_panic(expected = "Failed to parse currency")]
fn fda_scraper_parse_malformed_price() {
    match parse_rows(&malformed_price_page(), ScrapePredicates::new()) {
        Err(ScrapeError::CurrencyParseError(_)) => panic!("Failed to parse currency"),
        x => panic!("Unexpected result {:?}", x),
    }
}

#[test]
fn fda_scraper_parse_single_row() {
    let catalysts = catalog_of(vec![(label("phase1.5"), btx_row())]);
    assert_eq!(catalysts, parse_rows(&sample_page(), ScrapePredicates::new()).unwrap());
}

#[test]
fn fda_scraper_parse_multiple_rows() {
    let catalysts = catalog_of(vec![
        (label("phase1.5"), btx_row()),
        (label("phase3"), gwph_row()),
        (label("phase3"), eyen_row()),
    ]);
    assert_eq!(catalysts, parse_rows(&multiple_rows_page(), ScrapePredicates::new()).unwrap());
}

#[test]
fn fda_scraper_parse_with_price_ceiling() {
    let catalysts =
        catalog_of(vec![(label("phase1.5"), btx_row()), (label("phase3"), eyen_row())]);
    assert_eq!(
        catalysts,
        parse_rows(
            &multiple_rows_page(),
            ScrapePredicates::new().set_price_limit(USD::new("$6").unwrap())
        )
        .unwrap()
    );
}

#[test]
fn fda_scraper_parse_with_date_ceiling() {
    let catalysts = catalog_of(vec![(label("phase1.5"), btx_row())]);
    let date_limit = date(2019, 5, 3);
    assert_eq!(
        catalysts,
        parse_rows(&multiple_rows_page(), ScrapePredicates::new().set_date_limit(date_limit))
            .unwrap()
    );
}

#[test]
fn fda_scraper_parse_with_price_and_date_ceiling() {
    let price_limit = USD::new("$1").unwrap();
    let date_limit = date(2019, 5, 3);
    assert_eq!(
        ScrapedCatalysts::empty(),
        parse_rows(
            &multiple_rows_page(),
            ScrapePredicates::new().set_price_limit(price_limit).set_date_limit(date_limit)
        )
        .unwrap()
    );
}

#[test]
#[should_panic(expected = "Failed to parse date")]
fn lib_parse_malformed_time() {
    match parse_all_rows(&malformed_date_page()) {
        Err(ScrapeError::DateParseFailure(_)) => panic!("Failed to parse date"),
        x => panic!("Unexpected result {:?}", x),
    }
}

#[test]
#[should_panic(expected = "Failed to parse currency")]
fn lib_parse_malformed_price() {
    match parse_all_rows(&malformed_price_page()) {
        Err(ScrapeError::CurrencyParseError(_)) => panic!("Failed to parse currency"),
        x => panic!("Unexpected result {:?}", x),
    }
}

#[test]
fn lib_parse_single_row() {
    let catalysts = catalog_of(vec![(label("phase1.5"), btx_row())]);
    assert_eq!(catalysts, parse_all_rows(&sample_page()).unwrap());
}

#[test]
fn lib_parse_multiple_rows() {
    let catalysts = catalog_of(vec![
        (label("phase1.5"), btx_row()),
        (label("phase3"), gwph_row()),
        (label("phase3"), eyen_row()),
    ]);
    assert_eq!(catalysts, parse_all_rows(&multiple_rows_page()).unwrap());
}

#[test]
fn lib_parse_with_price_ceiling() {
    let catalysts =
        catalog_of(vec![(label("phase1.5"), btx_row()), (label("phase3"), eyen_row())]);
    let price_limit = USD::new("$6").unwrap();
    assert_eq!(
        catalysts,
        parse_rows(&multiple_rows_page(), ScrapePredicates::new().set_price_limit(price_limit))
            .unwrap()
    );
}

#[test]
fn lib_parse_with_date_ceiling() {
    let catalysts = catalog_of(vec![(label("phase1.5"), btx_row())]);
    let date_limit = date(2019, 5, 3);
    assert_eq!(
        catalysts,
        parse_rows(&multiple_rows_page(), ScrapePredicates::new().set_date_limit(date_limit))
            .unwrap()
    );
}

#[test]
fn lib_parse_with_price_and_date_ceiling() {
    let price_limit = USD::new("$1").unwrap();
    let date_limit = date(2019, 5, 3);
    assert_eq!(
        ScrapedCatalysts::empty(),
        parse_rows(
            &multiple_rows_page(),
            ScrapePredicates::new().set_price_limit(price_limit).set_date_limit(date_limit)
        )
        .unwrap()
    );
}

#[test]
fn groups_stand_in_key_order_with_rows_in_document_order() {
    let catalysts = parse_all_rows(&multiple_rows_page()).unwrap();
    let groups = catalysts.groups();
    assert_eq!(groups.len(), 2);
    assert_eq!(groups[0].label, label("phase1.5"));
    assert_eq!(groups[0].date, date(2019, 5, 2));
    assert_eq!(groups[0].rows, vec![btx_row()]);
    assert_eq!(groups[1].label, label("phase3"));
    assert_eq!(groups[1].date, date(2019, 5, 3));
    assert_eq!(groups[1].rows, vec![gwph_row(), eyen_row()]);
}

#[test]
fn rows_of_one_key_keep_document_order_when_other_keys_come_between() {
    let rows = [eyen_html(), btx_html("$1.26", "05/02/2019"), gwph_html(), btx_html("$2.00", "05/02/2019")];
    let catalysts = parse_all_rows(&page(&rows)).unwrap();
    let groups = catalysts.groups();
    assert_eq!(groups.len(), 2);
    let mut second_btx = btx_row();
    second_btx.price = USD { is_negative: false, cents: 200 };
    assert_eq!(groups[0].rows, vec![btx_row(), second_btx]);
    assert_eq!(groups[1].rows, vec![eyen_row(), gwph_row()]);
}

#[test]
fn one_label_on_two_dates_makes_two_groups_by_date() {
    let rows = [btx_html("$1.26", "12/31/2019"), btx_html("$1.26", "01/15/2020"), btx_html("$1.26", "02/01/2019")];
    let catalysts = parse_all_rows(&page(&rows)).unwrap();
    let dates: Vec<CatalystDate> = catalysts.groups().iter().map(|group| group.date).collect();
    assert_eq!(dates, vec![date(2019, 2, 1), date(2019, 12, 31), date(2020, 1, 15)]);
}

#[test]
fn a_malformed_date_fails_the_page_even_after_good_rows() {
    let rows = [btx_html("$1.26", "05/02/2019"), gwph_html(), btx_html("$1.26", "2019-05-02")];
    let result = parse_all_rows(&page(&rows));
    assert!(matches!(result, Err(ScrapeError::DateParseFailure(_))));
}

#[test]
fn the_first_failing_row_decides_the_failure() {
    let rows = [btx_html("$1.2", "05/02/2019"), btx_html("$1.26", "nonsense")];
    match parse_all_rows(&page(&rows)) {
        Err(ScrapeError::CurrencyParseError(e)) => {
            assert_eq!(e, USDParseError::DecimalWithInsufficientCents("$1.2".to_string()))
        }
        x => panic!("Unexpected result {:?}", x),
    }
}

#[test]
fn the_price_is_checked_before_the_date() {
    let rows = [btx_html("1.26", "nonsense")];
    match parse_all_rows(&page(&rows)) {
        Err(ScrapeError::CurrencyParseError(e)) => {
            assert_eq!(e, USDParseError::NoDollarSign("1.26".to_string()))
        }
        x => panic!("Unexpected result {:?}", x),
    }
}

#[test]
fn a_page_without_rows_is_an_empty_catalog() {
    assert_eq!(parse_all_rows(&page(&[])).unwrap(), ScrapedCatalysts::empty());
    assert_eq!(parse_all_rows("").unwrap(), ScrapedCatalysts::empty());
    assert_eq!(parse_all_rows("").unwrap().groups().len(), 0);
}

fn row_without_anchor(price: &str) -> String {
    format!(
        r#"<tr class="js-tr js-drug">
             <td><div class="price">{price}</div></td>
             <td><time class="catalyst-date">05/02/2019</time></td>
           </tr>"#
    )
}

#[test]
fn a_missing_field_fails_the_page() {
    let result = parse_all_rows(&page(&[row_without_anchor("$1.26")]));
    match result {
        Err(ScrapeError::ExpectedFieldNotFound(selector)) => {
            assert_eq!(selector, scraper::Selector::parse("td a[href]").unwrap())
        }
        x => panic!("Unexpected result {:?}", x),
    }
}

#[test]
fn a_dropped_row_never_fails_for_a_missing_field() {
    let rows = [row_without_anchor("$7.00"), eyen_html()];
    let predicates = ScrapePredicates::new().set_price_limit(USD::new("$6").unwrap());
    let catalysts = parse_rows(&page(&rows), predicates).unwrap();
    assert_eq!(catalysts, catalog_of(vec![(label("phase3"), eyen_row())]));
}

#[test]
fn a_row_without_price_cell_fails_with_the_price_selector() {
    let row = r#"<tr class="js-tr js-drug"><td><time class="catalyst-date">05/02/2019</time></td></tr>"#;
    match parse_all_rows(&page(&[row.to_string()])) {
        Err(ScrapeError::ExpectedFieldNotFound(selector)) => {
            assert_eq!(selector, scraper::Selector::parse("div[class=price]").unwrap())
        }
        x => panic!("Unexpected result {:?}", x),
    }
}

#[test]
fn an_empty_price_cell_is_a_missing_field() {
    let row = r#"<tr class="js-tr js-drug"><td><div class="price"></div><time class="catalyst-date">05/02/2019</time></td></tr>"#;
    let result = parse_all_rows(&page(&[row.to_string()]));
    assert!(matches!(result, Err(ScrapeError::ExpectedFieldNotFound(_))));
}

#[test]
fn cell_texts_are_trimmed() {
    let rows = [row_html(
        "\n   $1.26\t ",
        "https://www.biopharmcatalyst.com/company/BTX",
        "  BTX ",
        " 05/02/2019\n",
        " OpRegen ",
        "\u{a0}Dry age-related macular degeneration (AMD)\u{2003}",
        BTX_NOTE,
        "phase1.5",
        "Phase 1/2",
    )];
    assert_eq!(
        parse_all_rows(&page(&rows)).unwrap(),
        catalog_of(vec![(label("phase1.5"), btx_row())])
    );
}

#[test]
fn attribute_values_are_taken_as_they_stand() {
    let rows = [row_html(
        "$1.26",
        " https://www.biopharmcatalyst.com/company/BTX ",
        "BTX",
        "05/02/2019",
        "OpRegen",
        "Dry age-related macular degeneration (AMD)",
        BTX_NOTE,
        " phase1.5 ",
        "Phase 1/2",
    )];
    let catalysts = parse_all_rows(&page(&rows)).unwrap();
    let groups = catalysts.groups();
    assert_eq!(groups[0].label, label(" phase1.5 "));
    assert_eq!(groups[0].rows[0].url, " https://www.biopharmcatalyst.com/company/BTX ");
}

#[test]
fn the_price_ceiling_is_inclusive_and_the_date_ceiling_exclusive() {
    let predicates = ScrapePredicates::new()
        .set_price_limit(USD::new("$6").unwrap())
        .set_date_limit(date(2019, 5, 3));
    assert!(predicates.test_price(&USD::new("$6.00").unwrap()));
    assert!(predicates.test_price(&USD::new("$5.99").unwrap()));
    assert!(predicates.test_price(&USD::new("-$7").unwrap()));
    assert!(!predicates.test_price(&USD::new("$6.01").unwrap()));
    assert!(predicates.test_date(&date(2019, 5, 2)));
    assert!(predicates.test_date(&date(2018, 12, 31)));
    assert!(!predicates.test_date(&date(2019, 5, 3)));
    assert!(!predicates.test_date(&date(2019, 6, 1)));
}

#[test]
fn no_ceilings_accept_everything() {
    let predicates = ScrapePredicates::new();
    assert!(predicates.test_price(&USD { is_negative: false, cents: u64::MAX }));
    assert!(predicates.test_date(&date(9999, 12, 31)));
}

#[test]
fn setting_one_ceiling_keeps_the_other() {
    let predicates = ScrapePredicates::new()
        .set_date_limit(date(2019, 5, 3))
        .set_price_limit(USD::new("$6").unwrap());
    assert!(!predicates.test_date(&date(2019, 5, 3)));
    assert!(!predicates.test_price(&USD::new("$6.01").unwrap()));
}

#[test]
fn every_kept_row_has_passed_the_ceilings() {
    let predicates = ScrapePredicates::new()
        .set_price_limit(USD::new("$6").unwrap())
        .set_date_limit(date(2019, 5, 4));
    let catalysts = parse_rows(&multiple_rows_page(), predicates).unwrap();
    let check = ScrapePredicates::new()
        .set_price_limit(USD::new("$6").unwrap())
        .set_date_limit(date(2019, 5, 4));
    let mut seen = 0;
    for group in catalysts.groups() {
        for row in &group.rows {
            assert!(check.test_price(&row.price));
            assert!(check.test_date(&row.catalyst_date));
            assert_eq!(row.catalyst_date, group.date);
            seen += 1;
        }
    }
    assert_eq!(seen, 2);
}

#[test]
fn dates_order_by_year_then_month_then_day() {
    assert!(date(2019, 5, 2) < date(2019, 5, 3));
    assert!(date(2019, 5, 31) < date(2019, 6, 1));
    assert!(date(2019, 12, 31) < date(2020, 1, 1));
    assert!(date(-1, 12, 31) < date(0, 1, 1));
    assert!(!(date(2019, 5, 2) < date(2019, 5, 2)));
    assert!(date(2019, 5, 2) <= date(2019, 5, 2));
    assert!(date(2020, 1, 1) > date(2019, 12, 31));
}

#[test]
fn date_cells_are_month_day_year() {
    assert_eq!(CatalystDate::from_cell("05/02/2019").unwrap(), date(2019, 5, 2));
    assert_eq!(CatalystDate::from_cell("12/31/1999").unwrap(), date(1999, 12, 31));
    assert_eq!(CatalystDate::from_cell("02/29/2020").unwrap(), date(2020, 2, 29));
    assert!(CatalystDate::from_cell("02/30/2020").is_err());
    assert!(CatalystDate::from_cell("13/01/2020").is_err());
    assert!(CatalystDate::from_cell("2019-05-02").is_err());
    assert!(CatalystDate::from_cell("").is_err());
    assert!(CatalystDate::from_cell("05/02/2019 10:00").is_err());
}

#[test]
fn labels_order_as_their_texts() {
    assert!(label("phase1") < label("phase1.5"));
    assert!(label("phase1.5") < label("phase2"));
    assert!(label("phase2") < label("phase3"));
    assert!(label("approved") < label("phase1"));
    assert!(label("") < label("a"));
    assert!(label("Z") < label("a"));
    assert!(label("z") < label("\u{e9}"));
    assert!(label("\u{ffff}") < label("\u{10000}"));
    assert!(!(label("phase3") < label("phase3")));
    assert!(label("phase3") <= label("phase3"));
    assert_eq!(label("phase3").to_string(), "phase3");
}

#[test]
fn inserting_keeps_groups_sorted_and_appends_within_a_group() {
    let mut catalysts = ScrapedCatalysts::empty();
    catalysts.insert(label("phase3"), eyen_row());
    catalysts.insert(label("phase1.5"), btx_row());
    catalysts.insert(label("phase3"), gwph_row());
    catalysts.insert(label("phase2"), btx_row());
    catalysts.insert(label("phase3"), btx_row());
    let keys: Vec<(String, CatalystDate)> =
        catalysts.groups().iter().map(|group| (group.label.to_string(), group.date)).collect();
    assert_eq!(
        keys,
        vec![
            ("phase1.5".to_string(), date(2019, 5, 2)),
            ("phase2".to_string(), date(2019, 5, 2)),
            ("phase3".to_string(), date(2019, 5, 2)),
            ("phase3".to_string(), date(2019, 5, 3)),
        ]
    );
    assert_eq!(catalysts.groups()[3].rows, vec![eyen_row(), gwph_row()]);
    assert_eq!(catalysts.groups()[2].rows, vec![btx_row()]);
}

#[test]
fn failures_describe_themselves() {
    match parse_all_rows(&malformed_price_page()) {
        Err(e) => assert_eq!(e.to_string(), "No dollar sign 1.26"),
        x => panic!("Unexpected result {:?}", x),
    }
    match parse_all_rows(&malformed_date_page()) {
        Err(ScrapeError::DateParseFailure(e)) => {
            assert_eq!(ScrapeError::DateParseFailure(e).to_string(), format!("{}", e))
        }
        x => panic!("Unexpected result {:?}", x),
    }
    let selector = scraper::Selector::parse("td a[href]").unwrap();
    assert_eq!(
        ScrapeError::ExpectedFieldNotFound(selector.clone()).to_string(),
        format!("Didn't match css selector {:?}", selector)
    );
    assert_eq!(
        ScrapeError::InvalidSelector("td[".to_string()).to_string(),
        "Malformed CSS Selector \"td[\""
    );
    let missing = std::io::Error::new(std::io::ErrorKind::NotFound, "no such page");
    assert_eq!(ScrapeError::FileReadError(missing).to_string(), "no such page");
}

#[test]
fn money_and_date_failures_convert_into_scrape_failures() {
    let money = USD::new("1.01").err().unwrap();
    assert!(matches!(
        ScrapeError::from(money),
        ScrapeError::CurrencyParseError(USDParseError::NoDollarSign(_))
    ));
    let bad_date = CatalystDate::from_cell("nonsense").err().unwrap();
    match ScrapeError::from(bad_date) {
        ScrapeError::DateParseFailure(e) => assert_eq!(e, bad_date),
        x => panic!("Unexpected result {:?}", x),
    }
}

#[test]
fn a_page_that_could_not_be_read_fails_with_the_reason() {
    let missing = std::io::Error::new(std::io::ErrorKind::NotFound, "no such page");
    match parse_rows_read(Err(missing), ScrapePredicates::new()) {
        Err(ScrapeError::FileReadError(e)) => {
            assert_eq!(e.kind(), std::io::ErrorKind::NotFound);
            assert_eq!(e.to_string(), "no such page");
        }
        x => panic!("Unexpected result {:?}", x),
    }
    let denied = std::io::Error::new(std::io::ErrorKind::PermissionDenied, "not yours");
    let predicates = ScrapePredicates::new().set_price_limit(USD::new("$1").unwrap());
    match parse_rows_read(Err(denied), predicates) {
        Err(ScrapeError::FileReadError(e)) => {
            assert_eq!(e.kind(), std::io::ErrorKind::PermissionDenied)
        }
        x => panic!("Unexpected result {:?}", x),
    }
}

#[test]
fn a_page_that_was_read_gives_the_catalog_of_its_text() {
    let read = parse_rows_read(Ok(multiple_rows_page()), ScrapePredicates::new()).unwrap();
    assert_eq!(read, parse_rows(&multiple_rows_page(), ScrapePredicates::new()).unwrap());
    assert_eq!(read.groups().len(), 2);
    let predicates = ScrapePredicates::new().set_price_limit(USD::new("$6").unwrap());
    let read = parse_rows_read(Ok(multiple_rows_page()), predicates).unwrap();
    assert_eq!(
        read,
        catalog_of(vec![(label("phase1.5"), btx_row()), (label("phase3"), eyen_row())])
    );
    let failed = parse_rows_read(Ok(malformed_date_page()), ScrapePredicates::new());
    assert!(matches!(failed, Err(ScrapeError::DateParseFailure(_))));
}

#[test]
fn pages_of_ordinary_length_are_short_enough_for_the_parser() {
    assert_eq!(MAX_PAGE_BYTES, 715_827_882);
    assert!(is_parseable(""));
    assert!(is_parseable(&multiple_rows_page()));
    assert!(is_parseable(&"\u{10000}".repeat(100_000)));
}

#[test]
fn the_length_of_a_page_is_counted_in_bytes() {
    let limit = MAX_PAGE_BYTES;
    let blank = String::from_utf8(vec![0u8; limit + 1]).unwrap();
    assert!(!is_parseable(&blank));
    assert!(is_parseable(&blank[..limit]));
    assert!(is_parseable(&blank[1..]));
}
