use oatui::app::{App, Focus};
use oatui::model::{ApiSpec, Endpoint, HttpMethod, ResponseTable};

fn create_test_spec(endpoint_count: usize) -> ApiSpec {
    let endpoints: Vec<Endpoint> = (0..endpoint_count)
        .map(|i| Endpoint {
            method: HttpMethod::Get,
            path: format!("/test/{}", i),
            summary: None,
            description: None,
            operation_id: None,
            tags: vec![],
            parameters: vec![],
            request_body: None,
            responses: ResponseTable::new(),
        })
        .collect();

    ApiSpec {
        title: "Test API".to_string(),
        version: "1.0.0".to_string(),
        description: None,
        endpoints,
    }
}

fn create_endpoint_with_path(path: &str) -> Endpoint {
    Endpoint {
        method: HttpMethod::Get,
        path: path.to_string(),
        summary: None,
        description: None,
        operation_id: None,
        tags: vec![],
        parameters: vec![],
        request_body: None,
        responses: ResponseTable::new(),
    }
}

fn spec_with_paths(paths: &[&str]) -> ApiSpec {
    ApiSpec {
        title: "Test".to_string(),
        version: "1.0".to_string(),
        description: None,
        endpoints: paths.iter().map(|p| create_endpoint_with_path(p)).collect(),
    }
}

#[test]
fn test_new_app() {
    let spec = create_test_spec(3);
    let app = App::new(spec);
    assert_eq!(app.selected_index, 0);
    assert!(!app.should_quit);
    assert_eq!(app.focus, Focus::List);
    assert_eq!(app.detail_scroll, 0);
}

#[test]
fn test_select_next() {
    let spec = create_test_spec(3);
    let mut app = App::new(spec);

    app.select_next();
    assert_eq!(app.selected_index, 1);

    app.select_next();
    assert_eq!(app.selected_index, 2);

    app.select_next();
    assert_eq!(app.selected_index, 0);
}

#[test]
fn test_select_previous() {
    let spec = create_test_spec(3);
    let mut app = App::new(spec);

    app.select_previous();
    assert_eq!(app.selected_index, 2);

    app.select_previous();
    assert_eq!(app.selected_index, 1);
}

#[test]
fn test_select_with_empty_endpoints() {
    let spec = create_test_spec(0);
    let mut app = App::new(spec);

    app.select_next();
    assert_eq!(app.selected_index, 0);

    app.select_previous();
    assert_eq!(app.selected_index, 0);
}

#[test]
fn test_quit() {
    let spec = create_test_spec(1);
    let mut app = App::new(spec);

    assert!(!app.should_quit);
    app.quit();
    assert!(app.should_quit);
}

#[test]
fn test_focus_detail() {
    let spec = create_test_spec(1);
    let mut app = App::new(spec);

    assert_eq!(app.focus, Focus::List);
    app.focus_detail();
    assert_eq!(app.focus, Focus::Detail);
}

#[test]
fn test_focus_list() {
    let spec = create_test_spec(1);
    let mut app = App::new(spec);

    app.focus_detail();
    assert_eq!(app.focus, Focus::Detail);
    app.focus_list();
    assert_eq!(app.focus, Focus::List);
}

#[test]
fn test_scroll_down() {
    let spec = create_test_spec(1);
    let mut app = App::new(spec);

    assert_eq!(app.detail_scroll, 0);
    app.scroll_down();
    assert_eq!(app.detail_scroll, 1);
    app.scroll_down();
    assert_eq!(app.detail_scroll, 2);
}

#[test]
fn test_scroll_up() {
    let spec = create_test_spec(1);
    let mut app = App::new(spec);

    app.detail_scroll = 5;
    app.scroll_up();
    assert_eq!(app.detail_scroll, 4);
    app.scroll_up();
    assert_eq!(app.detail_scroll, 3);
}

#[test]
fn test_scroll_up_at_zero() {
    let spec = create_test_spec(1);
    let mut app = App::new(spec);

    assert_eq!(app.detail_scroll, 0);
    app.scroll_up();
    assert_eq!(app.detail_scroll, 0);
}

#[test]
fn test_select_resets_scroll() {
    let spec = create_test_spec(3);
    let mut app = App::new(spec);

    app.detail_scroll = 10;
    app.select_next();
    assert_eq!(app.detail_scroll, 0);

    app.detail_scroll = 10;
    app.select_previous();
    assert_eq!(app.detail_scroll, 0);
}

#[test]
fn test_new_app_initializes_filtered_indices() {
    let spec = create_test_spec(3);
    let app = App::new(spec);
    assert_eq!(app.filtered_indices, vec![0, 1, 2]);
    assert!(!app.search_mode);
    assert!(app.search_query.is_empty());
}

#[test]
fn test_search_mode_toggle() {
    let spec = create_test_spec(3);
    let mut app = App::new(spec);

    assert!(!app.search_mode);
    app.enter_search_mode();
    assert!(app.search_mode);
    app.confirm_search();
    assert!(!app.search_mode);
}

#[test]
fn test_search_cancel_clears_query() {
    let spec = create_test_spec(3);
    let mut app = App::new(spec);

    app.enter_search_mode();
    app.search_push_char('t');
    app.search_push_char('e');
    app.cancel_search();

    assert!(!app.search_mode);
    assert!(app.search_query.is_empty());
    assert_eq!(app.filtered_indices.len(), 3);
}

#[test]
fn test_search_filters_endpoints() {
    let spec = ApiSpec {
        title: "Test".to_string(),
        version: "1.0".to_string(),
        description: None,
        endpoints: vec![
            create_endpoint_with_path("/users"),
            create_endpoint_with_path("/users/{id}"),
            create_endpoint_with_path("/posts"),
        ],
    };
    let mut app = App::new(spec);

    app.search_push_char('u');
    app.search_push_char('s');
    app.search_push_char('e');
    app.search_push_char('r');

    assert_eq!(app.filtered_indices.len(), 2);
    assert_eq!(app.filtered_indices, vec![0, 1]);
}

#[test]
fn test_search_case_insensitive() {
    let spec = ApiSpec {
        title: "Test".to_string(),
        version: "1.0".to_string(),
        description: None,
        endpoints: vec![
            create_endpoint_with_path("/Users"),
            create_endpoint_with_path("/ADMIN"),
        ],
    };
    let mut app = App::new(spec);

    app.search_push_char('u');
    app.search_push_char('s');

    assert_eq!(app.filtered_indices.len(), 1);
    assert_eq!(app.filtered_indices, vec![0]);
}

#[test]
fn test_search_resets_selection_when_out_of_bounds() {
    let spec = ApiSpec {
        title: "Test".to_string(),
        version: "1.0".to_string(),
        description: None,
        endpoints: vec![
            create_endpoint_with_path("/a"),
            create_endpoint_with_path("/b"),
            create_endpoint_with_path("/c"),
        ],
    };
    let mut app = App::new(spec);

    app.selected_index = 2;
    app.search_push_char('a');

    assert_eq!(app.filtered_indices.len(), 1);
    assert_eq!(app.selected_index, 0);
}

#[test]
fn test_selected_endpoint_returns_correct_endpoint() {
    let spec = ApiSpec {
        title: "Test".to_string(),
        version: "1.0".to_string(),
        description: None,
        endpoints: vec![
            create_endpoint_with_path("/aaa"),
            create_endpoint_with_path("/bbb"),
            create_endpoint_with_path("/ccc"),
        ],
    };
    let mut app = App::new(spec);

    app.search_push_char('b');

    let selected = app.selected_endpoint().unwrap();
    assert_eq!(selected.path, "/bbb");
}

#[test]
fn test_navigation_wraps_in_filtered_list() {
    let spec = ApiSpec {
        title: "Test".to_string(),
        version: "1.0".to_string(),
        description: None,
        endpoints: vec![
            create_endpoint_with_path("/a"),
            create_endpoint_with_path("/b"),
            create_endpoint_with_path("/ab"),
        ],
    };
    let mut app = App::new(spec);

    app.search_push_char('a');

    assert_eq!(app.filtered_indices.len(), 2);
    assert_eq!(app.filtered_indices, vec![0, 2]);
    app.select_next();
    assert_eq!(app.selected_index, 1);
    app.select_next();
    assert_eq!(app.selected_index, 0);
}

#[test]
fn test_backspace_in_search() {
    let spec = create_test_spec(3);
    let mut app = App::new(spec);

    app.search_push_char('a');
    app.search_push_char('b');
    assert_eq!(app.search_query, "ab");

    app.search_pop_char();
    assert_eq!(app.search_query, "a");
}

#[test]
fn test_clear_search_shows_all() {
    let spec = ApiSpec {
        title: "Test".to_string(),
        version: "1.0".to_string(),
        description: None,
        endpoints: vec![
            create_endpoint_with_path("/a"),
            create_endpoint_with_path("/b"),
        ],
    };
    let mut app = App::new(spec);

    app.search_push_char('a');
    assert_eq!(app.filtered_indices.len(), 1);

    app.clear_search();
    assert_eq!(app.filtered_indices.len(), 2);
    assert!(app.search_query.is_empty());
}

#[test]
fn empty_query_lists_every_endpoint_in_order() {
    let mut app = App::new(spec_with_paths(&["/b", "/a", "/c", "/a"]));
    app.update_filtered_indices();
    assert_eq!(app.filtered_indices, vec![0, 1, 2, 3]);
}

#[test]
fn filtering_twice_changes_nothing() {
    let mut app = App::new(spec_with_paths(&["/users", "/posts", "/Users/{id}"]));
    app.search_push_char('U');
    let once = app.filtered_indices.clone();
    let selected = app.selected_index;
    app.update_filtered_indices();
    assert_eq!(app.filtered_indices, once);
    assert_eq!(app.filtered_indices, vec![0, 2]);
    assert_eq!(app.selected_index, selected);
}

#[test]
fn selection_returns_after_as_many_steps_as_entries() {
    let mut app = App::new(create_test_spec(5));
    for _ in 0..5 {
        app.select_next();
    }
    assert_eq!(app.selected_index, 0);
    app.select_previous();
    assert_eq!(app.selected_index, 4);
}

#[test]
fn scroll_up_never_goes_below_zero() {
    let mut app = App::new(create_test_spec(1));
    for _ in 0..10 {
        app.scroll_up();
        assert_eq!(app.detail_scroll, 0);
    }
}

#[test]
fn scroll_down_saturates() {
    let mut app = App::new(create_test_spec(1));
    app.detail_scroll = u16::MAX;
    app.scroll_down();
    assert_eq!(app.detail_scroll, u16::MAX);
}

#[test]
fn selection_is_clamped_to_the_last_match() {
    let mut app = App::new(spec_with_paths(&["/ax", "/ay", "/b", "/c"]));
    app.selected_index = 3;
    app.search_push_char('a');
    assert_eq!(app.filtered_indices, vec![0, 1]);
    assert_eq!(app.selected_index, 1);
    app.search_push_char('z');
    assert!(app.filtered_indices.is_empty());
    assert_eq!(app.selected_index, 0);
    assert!(app.selected_endpoint().is_none());
    app.select_next();
    assert_eq!(app.selected_index, 0);
}

#[test]
fn popping_an_empty_query_keeps_it_empty() {
    let mut app = App::new(create_test_spec(2));
    app.search_pop_char();
    assert!(app.search_query.is_empty());
    assert_eq!(app.filtered_indices, vec![0, 1]);
}

#[test]
fn enter_search_mode_moves_focus_to_list() {
    let mut app = App::new(create_test_spec(2));
    app.focus_detail();
    app.enter_search_mode();
    assert!(app.search_mode);
    assert_eq!(app.focus, Focus::List);
}

#[test]
fn clear_search_selects_the_first_entry() {
    let mut app = App::new(spec_with_paths(&["/a", "/ab", "/b"]));
    app.search_push_char('a');
    app.select_next();
    assert_eq!(app.selected_index, 1);
    app.clear_search();
    assert_eq!(app.selected_index, 0);
    assert_eq!(app.filtered_indices, vec![0, 1, 2]);
}

#[test]
fn confirm_search_keeps_the_filter() {
    let mut app = App::new(spec_with_paths(&["/a", "/ab", "/b"]));
    app.enter_search_mode();
    app.search_push_char('b');
    app.confirm_search();
    assert!(!app.search_mode);
    assert_eq!(app.search_query, "b");
    assert_eq!(app.filtered_indices, vec![1, 2]);
}

#[test]
fn next_counts_modulo_the_number_of_entries() {
    let mut app = App::new(create_test_spec(3));
    app.selected_index = 7;
    app.select_next();
    assert_eq!(app.selected_index, 2);
    app.selected_index = usize::MAX;
    app.select_next();
    assert_eq!(app.selected_index, ((usize::MAX % 3) + 1) % 3);
    app.selected_index = 7;
    app.select_previous();
    assert_eq!(app.selected_index, 6);
}

#[test]
fn search_matches_letters_outside_ascii_whatever_their_case() {
    let mut app = App::new(spec_with_paths(&["/caf\u{c9}", "/cafe", "/CAF\u{e9}s"]));
    app.search_push_char('\u{e9}');
    assert_eq!(app.filtered_indices, vec![0, 2]);
    app.search_pop_char();
    app.search_push_char('F');
    app.search_push_char('\u{c9}');
    assert_eq!(app.filtered_indices, vec![0, 2]);
}
