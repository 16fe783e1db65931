use drowned_god::clock::{clock, Moment};
use drowned_god::cockpit::App;
use drowned_god::layout::{places, Area};
use drowned_god::palette::{
    s_accent, s_idle, s_live, s_pane_border, s_text, s_text_dim, s_title, s_warn, Style, ABYSS,
};
use drowned_god::screen::{
    corner_phase, draw_chat, draw_gauges, draw_models, gauge, percentage, sonar_pulse, ui, Corners, Dials, Line,
    Widget,
};
use drowned_god::telemetry::Telemetry;

const FULL: Area = Area { x: 0, y: 0, width: 120, height: 40 };

fn noon() -> Moment {
    Moment { year: 2024, month: 2, day: 29, hour: 12, minute: 5, second: 9 }
}

fn corners() -> Corners {
    let art = |s: &str| vec![s.to_string()];
    Corners { w: 8, h: 3, tl: art("TL"), tr: art("TR"), bl: art("BL"), br: art("BR") }
}

fn dials() -> Dials {
    Dials {
        tg_pct: 37,
        tg_text: "18.5".to_string(),
        pp_pct: 61,
        pp_text: "305".to_string(),
        accept_pct: 86,
        cpu_pct: 100,
    }
}

fn text(l: &Line) -> String {
    l.spans.iter().map(|s| s.text.as_str()).collect()
}

fn parts(w: &Widget) -> (Area, Vec<String>) {
    match w {
        Widget::Text { area, lines } => (*area, lines.iter().map(text).collect()),
        Widget::Panel { area, lines, .. } => (*area, lines.iter().map(text).collect()),
        Widget::List { area, items, .. } => (*area, items.iter().map(text).collect()),
        Widget::Frame { area, .. } => (*area, Vec::new()),
        Widget::Gauge { area, label, .. } => (*area, vec![label.clone()]),
    }
}

fn telemetry() -> Telemetry {
    let mut t = Telemetry::default();
    t.llama_alive = true;
    t.llama_model = "qwen3-8b".to_string();
    t.llama_n_ctx = 40960;
    t.flm_alive = true;
    t.flm_models = vec!["flm-a".to_string(), "flm-b".to_string()];
    t.mem_used_mb = 10 * 1024;
    t.mem_total_mb = 16 * 1024;
    t.vram_used_mb = 1024;
    t.vram_total_mb = 0;
    t
}

fn style(fg: (u8, u8, u8), bold: bool) -> Style {
    let (r, g, b) = fg;
    Style { fg: u32::from_be_bytes([0, r, g, b]), bg: ABYSS, bold }
}

#[test]
fn palette_has_its_colours() {
    assert_eq!(ABYSS, u32::from_be_bytes([0, 4, 8, 14]));
    assert_eq!(s_pane_border(), style((20, 40, 56), false));
    assert_eq!(s_title(), style((220, 220, 200), true));
    assert_eq!(s_text(), style((80, 255, 140), false));
    assert_eq!(s_text_dim(), style((40, 140, 80), false));
    assert_eq!(s_live(), style((80, 220, 240), true));
    assert_eq!(s_warn(), style((255, 180, 60), true));
    assert_eq!(s_idle(), style((180, 90, 40), false));
    assert_eq!(s_accent(), style((60, 0, 90), false));
}

#[test]
fn clock_writes_moments() {
    assert_eq!(clock(&noon()).unwrap(), "2024-02-29 12:05:09");
    let mut m = noon();
    m.year = 2023;
    assert!(clock(&m).is_none());
    m.day = 28;
    m.hour = 24;
    assert!(clock(&m).is_none());
    m.hour = 0;
    m.year = 12345;
    assert_eq!(clock(&m).unwrap(), "+12345-02-28 00:05:09");
    m.year = -4;
    m.day = 29;
    assert_eq!(clock(&m).unwrap(), "-0004-02-29 00:05:09");
    m.year = 33;
    m.day = 1;
    assert_eq!(clock(&m).unwrap(), "0033-02-01 00:05:09");
    m.year = 1900;
    m.day = 29;
    assert!(clock(&m).is_none());
    for (year, month, day) in [(262142, 12, 31), (-262143, 1, 1), (2000, 2, 29)] {
        assert!(clock(&Moment { year, month, day, hour: 23, minute: 59, second: 59 }).is_some());
    }
    for (year, month, day) in [(262143, 1, 1), (-262144, 12, 31), (2024, 4, 31), (2024, 13, 1)] {
        assert!(clock(&Moment { year, month, day, hour: 0, minute: 0, second: 0 }).is_none());
    }
}

#[test]
fn panes_divide_the_terminal() {
    let p = places(FULL, 8, 3);
    let area = |x, y, width, height| Area { x, y, width, height };
    assert_eq!(p.header, area(0, 0, 120, 4));
    assert_eq!(p.body, area(0, 4, 120, 32));
    assert_eq!(p.footer, area(0, 36, 120, 4));
    assert_eq!(p.header_left, area(0, 0, 8, 4));
    assert_eq!(p.header_mid, area(8, 0, 104, 4));
    assert_eq!(p.header_right, area(112, 0, 8, 4));
    assert_eq!(p.left, area(0, 4, 20, 32));
    assert_eq!(p.centre, area(20, 4, 72, 32));
    assert_eq!(p.right, area(92, 4, 28, 32));
    assert_eq!(p.chat, area(20, 4, 72, 29));
    assert_eq!(p.input, area(20, 33, 72, 3));
    assert_eq!(p.gauges, area(92, 4, 28, 14));
    assert_eq!(p.memory, area(92, 18, 28, 18));
    assert_eq!(p.tg, area(93, 5, 26, 2));
    assert_eq!(p.accept, area(93, 9, 26, 2));
    assert_eq!(p.cpu, area(93, 15, 26, 2));
    assert_eq!(p.models, area(0, 4, 20, 14));
    assert_eq!(p.tool_log, area(0, 18, 20, 18));
    assert_eq!(p.pp, area(93, 7, 26, 2));
    assert_eq!(p.mem, area(93, 11, 26, 2));
    assert_eq!(p.vram, area(93, 13, 26, 2));
    assert_eq!(p.footer_left, area(0, 36, 8, 4));
    assert_eq!(p.footer_mid, area(8, 36, 104, 4));
    assert_eq!(p.footer_right, area(112, 36, 8, 4));
}

#[test]
fn panes_have_their_sizes_on_the_smallest_roomy_terminal() {
    let p = places(Area { x: 65447, y: 65508, width: 88, height: 27 }, 34, 3);
    let area = |x, y, width, height| Area { x, y, width, height };
    assert_eq!(p.header, area(65447, 65508, 88, 4));
    assert_eq!(p.body, area(65447, 65512, 88, 19));
    assert_eq!(p.footer, area(65447, 65531, 88, 4));
    assert_eq!(p.header_mid, area(65481, 65508, 20, 4));
    assert_eq!(p.centre, area(65467, 65512, 40, 19));
    assert_eq!((p.models.height, p.tool_log.height), (9, 10));
    assert_eq!((p.chat.height, p.input.height), (16, 3));
    assert_eq!((p.gauges.height, p.memory.height), (14, 5));
    assert_eq!(p.cpu, area(65508, 65523, 26, 2));
}

#[test]
fn strips_keep_their_height_on_a_narrow_terminal() {
    let p = places(Area { x: 0, y: 0, width: 30, height: 18 }, 8, 3);
    assert_eq!((p.header.y, p.header.height), (0, 4));
    assert_eq!((p.body.y, p.body.height), (4, 10));
    assert_eq!((p.footer.y, p.footer.height), (14, 4));
}

#[test]
fn panes_stay_inside_small_terminals() {
    for (width, height) in [(0, 0), (1, 1), (30, 9), (60, 12), (87, 26), (200, 8)] {
        let p = places(Area { x: 5, y: 7, width, height }, 8, 3);
        for part in [p.header, p.body, p.footer] {
            assert!(7 <= part.y && part.y + part.height <= 7 + height);
        }
        for (part, whole) in [
            (p.header_left, p.header),
            (p.header_mid, p.header),
            (p.footer_right, p.footer),
            (p.left, p.body),
            (p.centre, p.body),
            (p.right, p.body),
        ] {
            assert!(whole.x <= part.x && part.x + part.width <= whole.x + whole.width);
            assert_eq!((part.y, part.height), (whole.y, whole.height));
        }
        for (part, whole) in [
            (p.models, p.left),
            (p.tool_log, p.left),
            (p.chat, p.centre),
            (p.input, p.centre),
            (p.gauges, p.right),
            (p.memory, p.right),
        ] {
            assert!(whole.y <= part.y && part.y + part.height <= whole.y + whole.height);
            assert_eq!((part.x, part.width), (whole.x, whole.width));
        }
    }
}

#[test]
fn screen_holds_all_panes() {
    let app = App::boot();
    let widgets = ui(FULL, &corners(), &app, &telemetry(), &dials(), &noon());
    let shown: Vec<Vec<String>> = widgets.iter().map(|w| parts(w).1).collect();
    assert_eq!(shown.len(), 18);
    assert_eq!(shown[0], ["TL"]);
    assert_eq!(shown[1][0], "D R O W N E D   G O D · cockpit · rig: raz-gpd4 · 2024-02-29 12:05:09");
    assert_eq!(shown[1][1], "target: qwen3-8b   draft: Qwen3-1.7B-Q4_K_M   NPU: 2 models");
    assert_eq!(shown[1][2], "mode: agent-brick   ctx: 40960");
    assert_eq!(shown[1][3], "─".repeat(104));
    assert_eq!(shown[2], ["TR"]);
    assert_eq!(shown[3], ["● qwen3-8b", "∘ NPU/flm-a", "∘ NPU/flm-b"]);
    assert_eq!(shown[4], ["[boot] telemetry streaming."]);
    assert_eq!(shown[5], ["[boot] Drowned God cockpit online."]);
    assert_eq!(shown[6], ["> _"]);
    assert!(shown[7].is_empty());
    assert_eq!(shown[8], ["TG  t/s 18.5"]);
    assert_eq!(shown[14], ["(TODO: wire CIN/INDEX.md", "       + memory/ folder)"]);
    assert_eq!(shown[15], ["BL"]);
    assert_eq!(shown[16][1], " [↑↓] model   [enter] send   [esc/q] quit  ");
    assert_eq!(shown[16][2], " sonar: ◉      ");
    assert_eq!(shown[16][3], "·".repeat(104));
    assert_eq!(shown[17], ["BR"]);
}

#[test]
fn header_shows_servers_that_are_down() {
    let app = App::boot();
    let t = Telemetry::default();
    let widgets = ui(FULL, &corners(), &app, &t, &dials(), &noon());
    let Widget::Text { lines, .. } = &widgets[1] else { panic!("no header") };
    assert_eq!(text(&lines[1]), "target: (offline)   draft: Qwen3-1.7B-Q4_K_M   NPU: offline");
    assert_eq!(lines[1].spans[5].style, s_idle());
    assert_eq!(lines[1].spans[1].style, s_live());
}

#[test]
fn chat_shows_its_newest_lines_in_their_styles() {
    let mut app = App::boot();
    for i in 0..40 {
        app.chat.push(format!("line {i}"));
    }
    app.chat.push("> mine".to_string());
    app.input = "typ".to_string();
    let p = places(FULL, 8, 3);
    let w = draw_chat(&p, &app);
    let Widget::Panel { lines, wrap, .. } = &w[0] else { panic!("no chat") };
    assert!(*wrap);
    assert_eq!(lines.len(), 29);
    assert_eq!(text(&lines[0]), "line 12");
    assert_eq!(lines[0].spans[0].style, s_text());
    assert_eq!(text(&lines[28]), "> mine");
    assert_eq!(lines[28].spans[0].style, s_live());
    assert_eq!(parts(&w[1]).1, ["> typ_"]);
    let fresh = draw_chat(&p, &App::boot());
    let Widget::Panel { lines, .. } = &fresh[0] else { panic!("no chat") };
    assert_eq!(lines[0].spans[0].style, s_text_dim());
}

#[test]
fn list_matches_selection() {
    let p = places(FULL, 8, 3);
    let mut t = telemetry();
    let Widget::List { items, .. } = draw_models(&p, &t) else { panic!("no list") };
    assert_eq!(items.len(), 3);
    t.llama_alive = false;
    let Widget::List { items, .. } = draw_models(&p, &t) else { panic!("no list") };
    assert_eq!(items.len(), 2);
}

fn bar(w: &Widget) -> (Style, u16, String) {
    match w {
        Widget::Gauge { style, percent, label, .. } => (*style, *percent, label.clone()),
        _ => panic!("no gauge"),
    }
}

#[test]
fn gauges_show_their_readings() {
    let p = places(FULL, 8, 3);
    let w = draw_gauges(&p, &telemetry(), &dials());
    assert_eq!(w.len(), 7);
    assert_eq!(bar(&w[1]), (s_text(), 37, "TG  t/s 18.5".to_string()));
    assert_eq!(bar(&w[2]), (s_live(), 61, "PP  t/s 305".to_string()));
    assert_eq!(bar(&w[3]), (s_warn(), 86, "ACCEPT 86%".to_string()));
    assert_eq!(bar(&w[4]), (s_live(), 62, "MEM    10/16G".to_string()));
    assert_eq!(bar(&w[5]), (s_text(), 0, "VRAM   1/0G".to_string()));
    assert_eq!(bar(&w[6]), (s_warn(), 100, "CPU    100%".to_string()));
}

#[test]
fn gauges_are_never_more_than_full() {
    let w = gauge(FULL, "X", 250, "v");
    assert_eq!(bar(&w), (s_warn(), 100, "X v".to_string()));
    assert_eq!(bar(&gauge(FULL, "X", 60, "v")).0, s_text());
    assert_eq!(bar(&gauge(FULL, "X", 85, "v")).0, s_live());
}

#[test]
fn shares_are_whole_percents() {
    assert_eq!(percentage(1, 3), 33);
    assert_eq!(percentage(5, 0), 0);
    assert_eq!(percentage(7, 7), 100);
    assert_eq!(percentage(656, 1), 64);
}

#[test]
fn sonar_moves_and_repeats() {
    let pictures: Vec<&str> = (0..8).map(|i| sonar_pulse(4 * i)).collect();
    for (n, picture) in pictures.iter().take(7).enumerate() {
        assert_eq!(*picture, format!("{}◉{}", "·".repeat(n), " ".repeat(6 - n)));
    }
    assert_eq!(pictures[7], "·······");
    assert_eq!(sonar_pulse(3), pictures[0]);
    for t in 0..64 {
        assert_eq!(sonar_pulse(t), sonar_pulse(t + 32));
        assert_eq!(sonar_pulse(t).chars().count(), 7);
    }
    assert_eq!(sonar_pulse(u64::MAX), sonar_pulse(31));
}

#[test]
fn corners_turn() {
    let phases: Vec<usize> = (0..10).map(corner_phase).collect();
    assert_eq!(phases, [0, 0, 1, 1, 2, 2, 3, 3, 0, 0]);
}

#[test]
fn small_terminals_have_no_room_for_rules() {
    let tiny = Area { x: 0, y: 0, width: 10, height: 4 };
    let widgets = ui(tiny, &corners(), &App::boot(), &telemetry(), &dials(), &noon());
    let Widget::Text { lines, .. } = &widgets[1] else { panic!("no header") };
    assert_eq!(text(&lines[3]), "");
    let p = places(Area { x: 65535, y: 65535, width: 0, height: 0 }, 8, 3);
    assert_eq!(p.header.width, 0);
}
