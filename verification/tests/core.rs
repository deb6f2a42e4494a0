use canvas_calendar::bucket::DateItems;
use canvas_calendar::calendar::Calendar;
use canvas_calendar::date::Date;
use canvas_calendar::fetch::{classify_status, FetchError};
use canvas_calendar::item::{
    decode_submission, CalendarItem, CalendarItemInfo, Submission, SubmissionWire,
};
use canvas_calendar::nav::{key_action, Action, NavigationController};

fn date(year: i32, month: u8, day: u8) -> Date {
    Date::new(year, month, day)
}

fn item(course_id: usize, course_name: &str, d: Date, title: &str) -> CalendarItem {
    CalendarItem {
        course_id,
        course_name: course_name.to_string(),
        date: d,
        info: CalendarItemInfo {
            id: course_id,
            title: title.to_string(),
        },
        html_url: format!("/courses/{}", course_id),
        submissions: None,
    }
}

#[test]
fn grouping_one_bucket_per_distinct_date_in_order() {
    let d1 = date(2024, 1, 1);
    let d2 = date(2024, 1, 10);
    let items = vec![
        item(1, "CSCI 440 - 01 Operating Systems", d2, "hw4"),
        item(2, "MATH 310 - 02 Analysis", d1, "pset1"),
        item(3, "CSCI 440 - 01 Operating Systems", d2, "hw5"),
        item(4, "MATH 310 - 02 Analysis", d2, "pset2"),
    ];
    let cal = Calendar::from_items(&items);
    assert_eq!(cal.date_map.len(), 2);
    assert_eq!(cal.date_map[0].date, d1);
    assert_eq!(cal.date_map[1].date, d2);
    assert_eq!(cal.date_map[0].items.len(), 1);
    assert_eq!(cal.date_map[0].items[0].course_id, 2);
    // The three items of d2 keep their original relative order.
    assert_eq!(cal.date_map[1].items.len(), 3);
    assert_eq!(cal.date_map[1].items[0].course_id, 1);
    assert_eq!(cal.date_map[1].items[1].course_id, 3);
    assert_eq!(cal.date_map[1].items[2].course_id, 4);
    // No cursor is set before first display.
    assert_eq!(cal.date_map[0].selected, None);
    assert_eq!(cal.date_map[1].selected, None);
}

#[test]
fn grouping_empty_input_gives_empty_calendar() {
    let items: Vec<CalendarItem> = vec![];
    let cal = Calendar::from_items(&items);
    assert_eq!(cal.date_map.len(), 0);
}

#[test]
fn range_queries_return_only_stored_dates() {
    let d1 = date(2024, 1, 1);
    let d2 = date(2024, 1, 10);
    let items = vec![item(1, "A B", d1, "a"), item(2, "A B", d2, "b")];
    let cal = Calendar::from_items(&items);
    let stored = [d1, d2];
    for probe in [
        date(2023, 12, 31),
        d1,
        date(2024, 1, 5),
        d2,
        date(2024, 2, 1),
    ] {
        for r in [
            cal.first_date_at_or_after(probe),
            cal.next_key_after(probe),
            cal.first_date_before(probe),
            cal.prev_key_before(probe),
        ] {
            if let Some(k) = r {
                assert!(stored.contains(&k));
            }
        }
    }
}

#[test]
fn range_query_values() {
    let d1 = date(2024, 1, 1);
    let d2 = date(2024, 1, 10);
    let items = vec![item(1, "A B", d1, "a"), item(2, "A B", d2, "b")];
    let cal = Calendar::from_items(&items);
    assert_eq!(cal.first_date_at_or_after(d1), Some(d1));
    assert_eq!(cal.first_date_at_or_after(date(2024, 1, 2)), Some(d2));
    assert_eq!(cal.first_date_at_or_after(date(2024, 1, 11)), None);
    assert_eq!(cal.next_key_after(d1), Some(d2));
    assert_eq!(cal.next_key_after(d2), None);
    assert_eq!(cal.prev_key_before(d1), None);
    assert_eq!(cal.prev_key_before(d2), Some(d1));
    assert_eq!(cal.first_date_before(date(2024, 2, 1)), Some(d2));
    assert_eq!(cal.first_date_before(d1), None);
}

#[test]
fn bucket_lookup_never_inserts() {
    let d1 = date(2024, 1, 1);
    let items = vec![item(1, "A B", d1, "a")];
    let cal = Calendar::from_items(&items);
    assert!(cal.bucket(date(2024, 1, 2)).is_none());
    assert_eq!(cal.date_map.len(), 1);
    let b = cal.bucket(d1).expect("stored date must have a bucket");
    assert_eq!(b.date, d1);
    assert_eq!(b.items.len(), 1);
}

#[test]
fn select_next_clamps_at_last_item() {
    let d = date(2024, 3, 1);
    let mut b = DateItems {
        date: d,
        items: vec![item(1, "A B", d, "a"), item(2, "A B", d, "b"), item(3, "A B", d, "c")],
        selected: None,
    };
    b.select_next();
    assert_eq!(b.selected, Some(0));
    for _ in 0..10 {
        b.select_next();
        let i = b.selected.expect("cursor stays set");
        assert!(i < b.items.len());
    }
    assert_eq!(b.selected, Some(2));
}

#[test]
fn select_previous_clamps_at_first_item() {
    let d = date(2024, 3, 1);
    let mut b = DateItems {
        date: d,
        items: vec![item(1, "A B", d, "a"), item(2, "A B", d, "b")],
        selected: Some(1),
    };
    for _ in 0..10 {
        b.select_previous();
        let i = b.selected.expect("cursor stays set");
        assert!(i < b.items.len());
    }
    assert_eq!(b.selected, Some(0));
}

#[test]
fn selection_on_empty_bucket_is_a_no_op() {
    let mut b = DateItems::new(date(2024, 3, 1));
    b.select_next();
    assert_eq!(b.selected, None);
    b.select_previous();
    assert_eq!(b.selected, None);
    b.ensure_selection();
    assert_eq!(b.selected, None);
    assert!(b.selected_item().is_none());
}

#[test]
fn ensure_selection_sets_first_item_once() {
    let d = date(2024, 3, 1);
    let mut b = DateItems {
        date: d,
        items: vec![item(1, "A B", d, "a"), item(2, "A B", d, "b")],
        selected: None,
    };
    b.ensure_selection();
    assert_eq!(b.selected, Some(0));
    b.select_next();
    b.ensure_selection();
    assert_eq!(b.selected, Some(1));
    let it = b.selected_item().expect("selection points at an item");
    assert_eq!(it.course_id, 2);
}

#[test]
fn initial_date_resolves_to_next_upcoming() {
    let items = vec![
        item(1, "A B", date(2024, 1, 1), "a"),
        item(2, "A B", date(2024, 1, 10), "b"),
    ];
    let cal = Calendar::from_items(&items);
    let nav = NavigationController::new(cal, date(2024, 1, 5));
    assert_eq!(nav.current_date, date(2024, 1, 10));
}

#[test]
fn initial_date_falls_back_to_most_recent_past() {
    let items = vec![item(1, "A B", date(2023, 12, 1), "a")];
    let cal = Calendar::from_items(&items);
    let nav = NavigationController::new(cal, date(2024, 1, 5));
    assert_eq!(nav.current_date, date(2023, 12, 1));
}

#[test]
fn initial_date_is_today_when_no_items() {
    let items: Vec<CalendarItem> = vec![];
    let cal = Calendar::from_items(&items);
    let nav = NavigationController::new(cal, date(2024, 1, 5));
    assert_eq!(nav.current_date, date(2024, 1, 5));
}

#[test]
fn date_moves_stop_at_the_ends() {
    let d1 = date(2024, 1, 1);
    let d2 = date(2024, 1, 10);
    let items = vec![item(1, "A B", d1, "a"), item(2, "A B", d2, "b")];
    let cal = Calendar::from_items(&items);
    let mut nav = NavigationController::new(cal, d1);
    assert_eq!(nav.current_date, d1);
    // From the first populated date, moving back is a no-op.
    nav.move_to_previous_date();
    assert_eq!(nav.current_date, d1);
    nav.move_to_next_date();
    assert_eq!(nav.current_date, d2);
    // From the last populated date, moving forward is a no-op.
    nav.move_to_next_date();
    assert_eq!(nav.current_date, d2);
    nav.move_to_previous_date();
    assert_eq!(nav.current_date, d1);
}

#[test]
fn date_moves_skip_unpopulated_dates() {
    let d1 = date(2024, 1, 1);
    let d2 = date(2024, 2, 20);
    let items = vec![item(1, "A B", d1, "a"), item(2, "A B", d2, "b")];
    let cal = Calendar::from_items(&items);
    let mut nav = NavigationController::new(cal, d1);
    nav.move_to_next_date();
    assert_eq!(nav.current_date, d2);
}

#[test]
fn selection_moves_through_controller() {
    let d = date(2024, 1, 1);
    let items = vec![
        item(1, "A B", d, "a"),
        item(2, "A B", d, "b"),
        item(3, "A B", d, "c"),
    ];
    let cal = Calendar::from_items(&items);
    let mut nav = NavigationController::new(cal, d);
    nav.select_down();
    assert_eq!(nav.calendar.date_map[0].selected, Some(0));
    nav.select_down();
    assert_eq!(nav.calendar.date_map[0].selected, Some(1));
    nav.select_up();
    assert_eq!(nav.calendar.date_map[0].selected, Some(0));
    nav.select_up();
    assert_eq!(nav.calendar.date_map[0].selected, Some(0));
}

#[test]
fn selection_moves_without_bucket_are_no_ops() {
    let items: Vec<CalendarItem> = vec![];
    let cal = Calendar::from_items(&items);
    let mut nav = NavigationController::new(cal, date(2024, 1, 5));
    nav.select_down();
    nav.select_up();
    assert_eq!(nav.current_date, date(2024, 1, 5));
    assert_eq!(nav.calendar.date_map.len(), 0);
}

#[test]
fn current_selected_item_none_without_mutation_when_absent() {
    let d1 = date(2024, 1, 1);
    let items = vec![item(7, "A B", d1, "a")];
    let cal = Calendar::from_items(&items);
    // Point the cursor at a date that has no bucket.
    let mut nav = NavigationController {
        calendar: cal,
        current_date: date(2024, 1, 2),
    };
    let r = nav.current_selected_item();
    assert!(r.is_none());
    assert_eq!(nav.current_date, date(2024, 1, 2));
    assert_eq!(nav.calendar.date_map.len(), 1);
    assert_eq!(nav.calendar.date_map[0].selected, None);
    assert_eq!(nav.calendar.date_map[0].items.len(), 1);
}

#[test]
fn current_selected_item_sets_cursor_and_returns_item() {
    let d = date(2024, 1, 1);
    let items = vec![item(1, "A B", d, "first"), item(2, "A B", d, "second")];
    let cal = Calendar::from_items(&items);
    let mut nav = NavigationController::new(cal, d);
    let r = nav.current_selected_item().expect("bucket has items");
    assert_eq!(r.course_id, 1);
    assert_eq!(nav.calendar.date_map[0].selected, Some(0));
    nav.select_down();
    let r = nav.current_selected_item().expect("bucket has items");
    assert_eq!(r.course_id, 2);
}

#[test]
fn course_label_takes_first_two_tokens() {
    let it = item(1, "CSCI 440 - 01 Operating Systems", date(2024, 1, 1), "hw");
    assert_eq!(it.get_course_code(), "CSCI 440");
}

#[test]
fn course_label_single_token_is_empty() {
    let it = item(1, "Seminar", date(2024, 1, 1), "talk");
    assert_eq!(it.get_course_code(), "");
}

#[test]
fn course_label_exactly_two_tokens_keeps_both() {
    let it = item(1, "MATH 310", date(2024, 1, 1), "pset");
    assert_eq!(it.get_course_code(), "MATH 310");
}

#[test]
fn course_label_empty_name_is_empty() {
    let it = item(1, "", date(2024, 1, 1), "x");
    assert_eq!(it.get_course_code(), "");
}

#[test]
fn course_label_joins_tokens_by_one_space() {
    // A run of spaces between the tokens still yields a single-space join.
    let it = item(1, "CSCI   440 - 01", date(2024, 1, 1), "hw");
    assert_eq!(it.get_course_code(), "CSCI 440");
}

#[test]
fn course_label_tab_separates_tokens() {
    let it = item(1, "CSCI\t440\tOperating Systems", date(2024, 1, 1), "hw");
    assert_eq!(it.get_course_code(), "CSCI 440");
}

#[test]
fn course_label_ignores_surrounding_whitespace() {
    let it = item(1, "  MATH 310  ", date(2024, 1, 1), "pset");
    assert_eq!(it.get_course_code(), "MATH 310");
}

#[test]
fn course_label_single_token_with_leading_space_is_empty() {
    let it = item(1, " Seminar", date(2024, 1, 1), "talk");
    assert_eq!(it.get_course_code(), "");
}

#[test]
fn course_label_only_whitespace_is_empty() {
    let it = item(1, "   ", date(2024, 1, 1), "x");
    assert_eq!(it.get_course_code(), "");
}

#[test]
fn display_text_joins_label_and_title() {
    let it = item(1, "CSCI 440 - 01 Operating Systems", date(2024, 1, 1), "Homework 4");
    assert_eq!(it.display_text(), "CSCI 440 - Homework 4");
}

#[test]
fn completion_flag_reads_submission() {
    let mut it = item(1, "A B", date(2024, 1, 1), "x");
    assert!(!it.is_completed());
    it.submissions = Some(Submission { submitted: false });
    assert!(!it.is_completed());
    it.submissions = Some(Submission { submitted: true });
    assert!(it.is_completed());
}

#[test]
fn submission_wire_booleans_decode_to_none() {
    assert_eq!(decode_submission(&SubmissionWire::Flag(false)), None);
    assert_eq!(decode_submission(&SubmissionWire::Flag(true)), None);
}

#[test]
fn submission_wire_object_decodes_to_its_flag() {
    assert_eq!(
        decode_submission(&SubmissionWire::Record { submitted: true }),
        Some(Submission { submitted: true })
    );
    assert_eq!(
        decode_submission(&SubmissionWire::Record { submitted: false }),
        Some(Submission { submitted: false })
    );
}

#[test]
fn status_codes_classify_per_protocol() {
    assert_eq!(classify_status(200), Ok(()));
    assert_eq!(classify_status(401), Err(FetchError::InvalidToken));
    assert_eq!(classify_status(404), Err(FetchError::NotFound));
    assert_eq!(classify_status(500), Err(FetchError::UnexpectedStatus(500)));
    assert_eq!(classify_status(201), Err(FetchError::UnexpectedStatus(201)));
}

#[test]
fn key_bindings_map_to_actions() {
    assert_eq!(key_action('q'), Some(Action::Quit));
    assert_eq!(key_action('h'), Some(Action::PreviousDate));
    assert_eq!(key_action('l'), Some(Action::NextDate));
    assert_eq!(key_action('j'), Some(Action::SelectDown));
    assert_eq!(key_action('k'), Some(Action::SelectUp));
    assert_eq!(key_action('o'), Some(Action::OpenSelected));
    assert_eq!(key_action('x'), None);
}

#[test]
fn date_comparisons_are_lexicographic() {
    let a = date(2023, 12, 31);
    let b = date(2024, 1, 1);
    let c = date(2024, 1, 2);
    assert!(a.lt(&b));
    assert!(b.lt(&c));
    assert!(a.le(&a));
    assert!(!c.lt(&b));
    assert!(a.eq_date(&a));
    assert!(!a.eq_date(&b));
}
