//! Dispatch of intents to session transitions. While the query is being
//! edited a different table applies than while browsing.

use crate::app::{App, AppView, Focus};
use crate::event::Event;
use vstd::prelude::*;

verus! {

/// The transition an intent causes while browsing. `Back` leaves the detail
/// pane if the focus is there, and otherwise clears a query that is in
/// effect.
pub open spec fn browsing_step(v: AppView, event: Event) -> AppView {
    match event {
        Event::Quit => v.quit(),
        Event::Search => v.enter_search_mode(),
        Event::Enter => v.focus_detail(),
        Event::Back => if v.focus == Focus::Detail {
            v.focus_list()
        } else if v.search_query.len() > 0 {
            v.clear_search()
        } else {
            v
        },
        Event::NavigateDown => if v.focus == Focus::List {
            v.select_next()
        } else {
            v.scroll_down()
        },
        Event::NavigateUp => if v.focus == Focus::List {
            v.select_previous()
        } else {
            v.scroll_up()
        },
        Event::Char(_) => v,
        Event::Backspace => v,
        Event::Idle => v,
    }
}

/// The transition an intent causes while the query is being edited.
pub open spec fn searching_step(v: AppView, event: Event) -> AppView {
    match event {
        Event::Back => v.cancel_search(),
        Event::Enter => v.confirm_search(),
        Event::Char(c) => v.search_push_char(c),
        Event::Backspace => v.search_pop_char(),
        Event::NavigateDown => v.select_next(),
        Event::NavigateUp => v.select_previous(),
        Event::Quit => v,
        Event::Search => v,
        Event::Idle => v,
    }
}

/// The transition an intent causes.
pub open spec fn step(v: AppView, event: Event) -> AppView {
    if v.search_mode {
        searching_step(v, event)
    } else {
        browsing_step(v, event)
    }
}

/// Applies one intent to the session.
pub fn handle_event(app: &mut App, event: Event)
    ensures
        final(app)@ == step(old(app)@, event),
        final(app).spec == old(app).spec,
        old(app)@.wf() ==> final(app)@.wf(),
{
    if app.search_mode {
        handle_search_mode_event(app, event);
        return ;
    }
    match event {
        Event::Quit => app.quit(),
        Event::Search => app.enter_search_mode(),
        Event::Enter => app.focus_detail(),
        Event::Back => {
            if app.focus == Focus::Detail {
                app.focus_list()
            } else if !app.search_query.as_str().is_empty() {
                app.clear_search()
            }
        },
        Event::NavigateDown => {
            if app.focus == Focus::List {
                app.select_next()
            } else {
                app.scroll_down()
            }
        },
        Event::NavigateUp => {
            if app.focus == Focus::List {
                app.select_previous()
            } else {
                app.scroll_up()
            }
        },
        Event::Char(_) => {},
        Event::Backspace => {},
        Event::Idle => {},
    }
}

/// Applies one intent to the session by the table for editing the query.
pub fn handle_search_mode_event(app: &mut App, event: Event)
    ensures
        final(app)@ == searching_step(old(app)@, event),
        final(app).spec == old(app).spec,
        old(app)@.wf() ==> final(app)@.wf(),
{
    match event {
        Event::Back => app.cancel_search(),
        Event::Enter => app.confirm_search(),
        Event::Char(c) => app.search_push_char(c),
        Event::Backspace => app.search_pop_char(),
        Event::NavigateDown => app.select_next(),
        Event::NavigateUp => app.select_previous(),
        Event::Quit => {},
        Event::Search => {},
        Event::Idle => {},
    }
}

} // verus!
