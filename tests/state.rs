use questionnaire::content::{Choice, Criteria};
use questionnaire::rating::Rating;
use questionnaire::state::{App, Event, Snapshot};

fn criterion(title: &str, n_choices: usize) -> Criteria {
    let mut choices = Vec::new();
    for k in 0..n_choices {
        choices.push(Choice::new(format!("choice {}", k), format!("why {}", k)));
    }
    Criteria::new(title.to_string(), choices)
}

fn three_criteria() -> Vec<Criteria> {
    vec![criterion("first", 2), criterion("second", 1), criterion("third", 1)]
}

#[test]
fn scenario_click_next_previous() {
    let mut app = App::with_criterias(three_criteria());
    app.answers = vec![
        vec![Rating::Neutral, Rating::Neutral],
        vec![Rating::Neutral],
        vec![Rating::Neutral],
    ];
    app.normalize();
    assert_eq!(app.selected_criteria, 0);
    app.handle(Event::ClickChoice(0));
    assert_eq!(app.answers[0][0], Rating::Up);
    assert_eq!(app.answers[0][1], Rating::Neutral);
    app.handle(Event::Next);
    assert_eq!(app.selected_criteria, 1);
    app.handle(Event::Previous);
    assert_eq!(app.selected_criteria, 1);
}

#[test]
fn rating_cycles_through_three_states() {
    assert_eq!(Rating::Up.cycled(), Rating::Down);
    assert_eq!(Rating::Down.cycled(), Rating::Neutral);
    assert_eq!(Rating::Neutral.cycled(), Rating::Up);
    assert_eq!(Rating::default(), Rating::Neutral);
    let mut r = Rating::Up;
    for _ in 0..3 {
        r = r.cycled();
    }
    assert_eq!(r, Rating::Up);
}

#[test]
fn click_cycles_a_choice() {
    let mut app = App::with_criterias(three_criteria());
    app.normalize();
    app.answers[0] = vec![Rating::Neutral, Rating::Neutral];
    let mut seen = Vec::new();
    for _ in 0..4 {
        app.click_choice(1);
        seen.push(app.answers[0][1]);
    }
    assert_eq!(seen, vec![Rating::Up, Rating::Down, Rating::Neutral, Rating::Up]);
    assert_eq!(app.answers[0][0], Rating::Neutral);
}

#[test]
fn click_outside_choices_changes_nothing() {
    let mut app = App::with_criterias(three_criteria());
    app.answers = vec![
        vec![Rating::Neutral, Rating::Neutral],
        vec![Rating::Neutral],
        vec![Rating::Neutral],
    ];
    app.click_choice(2);
    assert_eq!(app.answers[0], vec![Rating::Neutral, Rating::Neutral]);
    assert_eq!(app.rating_at(2), None);
    assert_eq!(app.rating_at(1), Some(Rating::Neutral));
}

#[test]
fn normalize_resets_out_of_range_selection() {
    let mut app = App::with_criterias(three_criteria());
    app.selected_criteria = 3;
    app.normalize();
    assert_eq!(app.selected_criteria, 0);
    app.selected_criteria = 2;
    app.normalize();
    assert_eq!(app.selected_criteria, 2);
}

#[test]
fn normalize_replaces_answers_of_wrong_length() {
    let mut app = App::with_criterias(three_criteria());
    app.selected_criteria = 1;
    app.answers = vec![vec![Rating::Up]];
    app.normalize();
    assert_eq!(app.answers.len(), 3);
    // the fresh rows hold one rating each; the selected one fits its single choice
    assert_eq!(app.answers, vec![vec![Rating::Neutral]; 3]);
}

#[test]
fn normalize_resets_selected_row_to_criteria_count() {
    let mut app = App::with_criterias(three_criteria());
    app.normalize();
    // criterion 0 has two choices but a fresh row holds one rating, so the row
    // is reset to as many ratings as there are criteria
    assert_eq!(app.answers[0], vec![Rating::Neutral; 3]);
    assert_eq!(app.answers[1], vec![Rating::Neutral]);
    assert_eq!(app.answers[2], vec![Rating::Neutral]);
    let before: Vec<Vec<Rating>> = app.answers.clone();
    app.normalize();
    assert_eq!(app.answers, before);
}

#[test]
fn normalize_keeps_answers_of_right_shape() {
    let mut app = App::with_criterias(three_criteria());
    app.answers = vec![vec![Rating::Up, Rating::Down], vec![Rating::Down], vec![Rating::Up]];
    app.normalize();
    assert_eq!(
        app.answers,
        vec![vec![Rating::Up, Rating::Down], vec![Rating::Down], vec![Rating::Up]]
    );
}

#[test]
fn normalize_on_empty_content() {
    let mut app = App::with_criterias(Vec::new());
    app.selected_criteria = 5;
    app.answers = vec![vec![Rating::Up]];
    app.normalize();
    assert_eq!(app.selected_criteria, 0);
    assert!(app.answers.is_empty());
    assert_eq!(app.progress(), None);
    app.next();
    assert_eq!(app.selected_criteria, 0);
}

#[test]
fn next_stops_at_last_criterion() {
    let mut app = App::with_criterias(three_criteria());
    app.next();
    app.next();
    assert_eq!(app.selected_criteria, 2);
    app.next();
    assert_eq!(app.selected_criteria, 2);
    assert_eq!(app.progress(), Some((2, 2)));
}

#[test]
fn previous_never_goes_below_one() {
    let mut app = App::with_criterias(three_criteria());
    app.selected_criteria = 2;
    app.previous();
    assert_eq!(app.selected_criteria, 1);
    app.previous();
    assert_eq!(app.selected_criteria, 1);
    app.selected_criteria = 0;
    app.previous();
    assert_eq!(app.selected_criteria, 0);
}

#[test]
fn snapshot_round_trip() {
    let mut app = App::with_criterias(three_criteria());
    app.selected_criteria = 1;
    app.answers = vec![vec![Rating::Up, Rating::Down], vec![Rating::Down], vec![Rating::Neutral]];
    let snap: Snapshot = app.snapshot();
    assert_eq!(snap.selected_criteria, 1);
    let restored = App::restore(three_criteria(), snap);
    assert_eq!(restored.selected_criteria, app.selected_criteria);
    assert_eq!(restored.answers, app.answers);
    assert_eq!(restored.criterias.len(), 3);
}

#[test]
fn content_keeps_choice_counts() {
    let app = App::with_criterias(three_criteria());
    let counts: Vec<usize> = app.criterias.iter().map(|c| c.choices.len()).collect();
    assert_eq!(counts, vec![2, 1, 1]);
    assert_eq!(app.criterias[0].title, "first");
    assert_eq!(app.criterias[0].choices[1].title, "choice 1");
    assert_eq!(app.criterias[0].choices[1].explanation, "why 1");
    assert_eq!(app.selected_criteria, 0);
    assert!(app.answers.is_empty());
}
