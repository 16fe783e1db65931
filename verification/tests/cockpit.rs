use drowned_god::chat::ChatMessage;
use drowned_god::cockpit::{App, Arrival, Event, Key, MAX_TURNS};
use drowned_god::telemetry::Telemetry;

fn alive() -> Telemetry {
    let mut t = Telemetry::default();
    t.llama_alive = true;
    t.llama_model = "qwen3-8b".to_string();
    t
}

fn press(app: &mut App, k: Key, t: &Telemetry) -> drowned_god::cockpit::Step {
    app.step(&Event::Press(k), t)
}

fn type_text(app: &mut App, s: &str, t: &Telemetry) {
    for c in s.chars() {
        press(app, Key::Char(c), t);
    }
}

fn roles(app: &App) -> Vec<String> {
    app.history.iter().map(|m: &ChatMessage| m.role.clone()).collect()
}

#[test]
fn boots_with_two_lines() {
    let app = App::boot();
    assert_eq!(app.chat, vec!["[boot] Drowned God cockpit online."]);
    assert_eq!(app.tool_log, vec!["[boot] telemetry streaming."]);
    assert_eq!(app.tick, 0);
    assert!(!app.pending && !app.quit && app.history.is_empty());
}

#[test]
fn enter_sends_the_input() {
    let t = alive();
    let mut app = App::boot();
    type_text(&mut app, "hello", &t);
    let step = press(&mut app, Key::Enter, &t);
    let request = step.request.unwrap();
    assert_eq!(request.model, "qwen3-8b");
    assert_eq!(request.max_tokens, 1024);
    assert_eq!(f32::from_bits(request.temperature.bits), 0.7);
    assert_eq!(request.messages.len(), 1);
    assert_eq!(request.messages[0].role, "user");
    assert_eq!(request.messages[0].content, "hello");
    assert!(!step.done);
    assert!(app.pending);
    assert_eq!(app.input, "");
    assert_eq!(app.chat[1..], ["> hello", "< …"]);
    assert_eq!(app.tick, 6);
}

#[test]
fn reply_replaces_the_placeholder() {
    let t = alive();
    let mut app = App::boot();
    type_text(&mut app, "hi", &t);
    press(&mut app, Key::Enter, &t);
    app.drain(&Arrival::Waiting);
    assert!(app.pending);
    app.drain(&Arrival::Reply(" \n\u{a0}well met \u{3000}\n".to_string()));
    assert!(!app.pending);
    assert_eq!(app.chat[1..], ["> hi", "< well met"]);
    assert_eq!(roles(&app), ["user", "assistant"]);
    assert_eq!(app.history[1].content, "well met");
}

#[test]
fn failure_takes_the_turn_back() {
    let t = alive();
    let mut app = App::boot();
    type_text(&mut app, "hi", &t);
    press(&mut app, Key::Enter, &t);
    type_text(&mut app, "more", &t);
    app.drain(&Arrival::Failed("POST failed".to_string()));
    assert!(!app.pending);
    assert!(app.history.is_empty());
    assert_eq!(app.chat[1..], ["> hi", "[err] POST failed"]);
    assert_eq!(app.input, "more");
    press(&mut app, Key::Enter, &t);
    app.drain(&Arrival::Dropped);
    assert_eq!(app.chat.last().unwrap(), "[err] chat task dropped without reply");
    assert!(app.history.is_empty());
}

#[test]
fn arrivals_without_a_request_change_nothing() {
    let mut app = App::boot();
    app.drain(&Arrival::Reply("x".to_string()));
    app.drain(&Arrival::Dropped);
    assert_eq!(app.chat.len(), 1);
    assert!(app.history.is_empty());
}

#[test]
fn enter_is_ignored_while_waiting() {
    let t = alive();
    let mut app = App::boot();
    type_text(&mut app, "a", &t);
    press(&mut app, Key::Enter, &t);
    type_text(&mut app, "b", &t);
    let n = app.chat.len();
    assert!(press(&mut app, Key::Enter, &t).request.is_none());
    assert_eq!(app.chat.len(), n);
    assert_eq!(app.input, "b");
    assert!(press(&mut app, Key::Enter, &Telemetry::default()).request.is_none());
    assert_eq!(app.chat.len(), n);
}

#[test]
fn enter_without_a_server_reports() {
    let t = Telemetry::default();
    let mut app = App::boot();
    assert!(press(&mut app, Key::Enter, &t).request.is_none());
    assert_eq!(app.chat.last().unwrap(), "[err] llama-server unreachable");
}

#[test]
fn enter_without_input_does_nothing() {
    let t = alive();
    let mut app = App::boot();
    assert!(press(&mut app, Key::Enter, &t).request.is_none());
    assert_eq!(app.chat.len(), 1);
}

#[test]
fn conversation_keeps_the_newest_pairs() {
    let t = alive();
    let mut app = App::boot();
    for i in 0..30 {
        type_text(&mut app, &format!("ask {i}").replace('q', ""), &t);
        press(&mut app, Key::Enter, &t);
        assert!(app.history.len() <= 2 * MAX_TURNS + 1);
        app.drain(&Arrival::Reply(format!("answer {i}")));
        assert!(app.history.len() <= 2 * MAX_TURNS);
    }
    assert_eq!(app.history.len(), 48);
    assert_eq!(app.history[0].role, "user");
    assert_eq!(app.history[0].content, "ask 6");
    assert_eq!(app.history[47].content, "answer 29");
    for (i, r) in roles(&app).iter().enumerate() {
        assert_eq!(r, if i % 2 == 0 { "user" } else { "assistant" });
    }
    assert_eq!(app.chat.len(), 61);
}

#[test]
fn selection_runs_over_the_known_models() {
    let mut t = alive();
    t.flm_models = vec!["a".to_string(), "b".to_string()];
    let mut app = App::boot();
    for _ in 0..5 {
        press(&mut app, Key::Down, &t);
    }
    assert_eq!(app.selected_model, 2);
    t.llama_alive = false;
    press(&mut app, Key::Down, &t);
    assert_eq!(app.selected_model, 2);
    for _ in 0..5 {
        press(&mut app, Key::Up, &t);
    }
    assert_eq!(app.selected_model, 0);
    press(&mut app, Key::Down, &Telemetry::default());
    assert_eq!(app.selected_model, 0);
}

#[test]
fn backspace_takes_back_typing() {
    let t = alive();
    let mut app = App::boot();
    type_text(&mut app, "aé", &t);
    press(&mut app, Key::Backspace, &t);
    assert_eq!(app.input, "a");
    press(&mut app, Key::Backspace, &t);
    press(&mut app, Key::Backspace, &t);
    assert_eq!(app.input, "");
}

#[test]
fn quits_on_escape_and_on_q() {
    let t = alive();
    let mut app = App::boot();
    assert!(press(&mut app, Key::Esc, &t).done);
    let mut app = App::boot();
    assert!(press(&mut app, Key::Char('q'), &t).done);
    assert_eq!(app.input, "");
    let mut app = App::boot();
    assert!(!press(&mut app, Key::Char('Q'), &t).done);
    assert_eq!(app.input, "Q");
    assert!(!press(&mut app, Key::Other, &t).done);
}

#[test]
fn only_presses_count() {
    let t = alive();
    let mut app = App::boot();
    let step = app.step(&Event::OtherKey, &t);
    assert!(!step.done && step.request.is_none());
    assert_eq!(app.tick, 0);
    app.step(&Event::Idle, &t);
    assert_eq!(app.tick, 1);
    app.tick = u64::MAX;
    app.step(&Event::Idle, &t);
    assert_eq!(app.tick, 0);
}

#[test]
fn transcript_keeps_its_lines() {
    let t = alive();
    let mut app = App::boot();
    type_text(&mut app, "one", &t);
    press(&mut app, Key::Enter, &t);
    let before = app.chat.clone();
    type_text(&mut app, "two", &t);
    press(&mut app, Key::Enter, &t);
    app.drain(&Arrival::Waiting);
    assert_eq!(app.chat, before);
    app.drain(&Arrival::Reply("fine".to_string()));
    assert_eq!(app.chat[..2], before[..2]);
    assert_eq!(app.chat[2], "< fine");
    press(&mut app, Key::Enter, &Telemetry::default());
    assert_eq!(app.chat[3], "[err] llama-server unreachable");
}
