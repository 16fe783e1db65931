use drowned_god::chat::{conclude, judge, refusal, ChatMessage, Outcome};
use drowned_god::http::{completions_url, is_success, metrics_url, models_url};
use drowned_god::single::Single;
use drowned_god::telemetry::{
    mebibytes, read_flm, read_llama, read_llama_metrics, read_rocm_vram, read_vram_table,
    record_gen, scan_metrics, FlmStatus, LlamaStatus, MetricsReply, ModelEntry, ModelMeta,
    ModelsReply, Sample, Telemetry,
};

fn single(x: f32) -> Single {
    Single { bits: x.to_bits() }
}

fn message(content: &str) -> ChatMessage {
    ChatMessage { role: "assistant".to_string(), content: content.to_string() }
}

#[test]
fn addresses_drop_trailing_slashes() {
    assert_eq!(models_url("http://rig:8080"), "http://rig:8080/v1/models");
    assert_eq!(models_url("http://rig:8080///"), "http://rig:8080/v1/models");
    assert_eq!(metrics_url("http://rig/"), "http://rig/metrics");
    assert_eq!(completions_url("http://rig"), "http://rig/v1/chat/completions");
    assert_eq!(metrics_url("//"), "/metrics");
}

#[test]
fn success_is_two_hundred_something() {
    assert!(is_success(200) && is_success(204) && is_success(299));
    assert!(!is_success(199) && !is_success(300) && !is_success(404));
    assert!(!is_success(0) && !is_success(1000));
}

fn answer(status: u16, body: &str, choices: Option<Vec<ChatMessage>>) -> Outcome {
    Outcome::Answered { status, body: body.to_string(), choices }
}

#[test]
fn first_choice_is_the_reply() {
    let both = Some(vec![message("one"), message("two")]);
    assert_eq!(judge(204, "x", &both), Ok("one".to_string()));
    assert_eq!(conclude(&answer(200, "", both)), Ok("one".to_string()));
}

#[test]
fn each_failure_has_its_report() {
    assert_eq!(conclude(&Outcome::PostFailed), Err("POST failed".to_string()));
    assert_eq!(conclude(&answer(200, "x", None)), Err("response not valid JSON".to_string()));
    let none = answer(200, "x", Some(Vec::new()));
    assert_eq!(conclude(&none), Err("response had no choices".to_string()));
}

#[test]
fn refusals_carry_status_and_body() {
    let want = "server returned 404 Not Found: no such model".to_string();
    assert_eq!(conclude(&answer(404, "no such model", None)), Err(want));
    let want = "server returned 599 <unknown status code>: ".to_string();
    assert_eq!(conclude(&answer(599, "", None)), Err(want));
}

#[test]
fn status_comes_before_the_body() {
    let words = Some(vec![message("words")]);
    assert_eq!(judge(300, "b", &words), Err("server returned 300 Multiple Choices: b".to_string()));
    assert_eq!(judge(199, "", &words).is_err(), true);
    assert_eq!(judge(299, "", &words), Ok("words".to_string()));
}

#[test]
fn refusals_are_cut_at_three_hundred_characters() {
    let body = "é".repeat(400);
    let want = format!("server returned 500 Oops: {}", "é".repeat(300));
    assert_eq!(refusal("500 Oops", &body), want);
    let body = "é".repeat(300);
    assert_eq!(refusal("500 Oops", &body), want);
}

fn entry(id: &str, n: Option<u32>) -> ModelEntry {
    ModelEntry { id: id.to_string(), meta: n.map(|n_ctx_train| ModelMeta { n_ctx_train }) }
}

fn listed(status: u16, v: Vec<ModelEntry>) -> ModelsReply {
    ModelsReply::Answered { status, models: Some(v) }
}

#[test]
fn llama_runs_its_first_model() {
    let s = read_llama(&listed(200, vec![entry("qwen", Some(32768)), entry("b", None)]));
    assert!(s.alive);
    assert_eq!((s.model.as_str(), s.n_ctx), ("qwen", 32768));
    let s = read_llama(&listed(200, vec![entry("qwen", None)]));
    assert_eq!((s.model.as_str(), s.n_ctx), ("qwen", 0));
}

#[test]
fn llama_without_a_list_is_unknown() {
    for reply in [
        listed(200, Vec::new()),
        ModelsReply::Answered { status: 200, models: None },
    ] {
        let s = read_llama(&reply);
        assert!(s.alive);
        assert_eq!((s.model.as_str(), s.n_ctx), ("(unknown)", 0));
    }
}

#[test]
fn llama_that_does_not_succeed_is_down() {
    for reply in [ModelsReply::Unreachable, listed(503, vec![entry("x", Some(1))])] {
        let s = read_llama(&reply);
        assert!(!s.alive);
        assert_eq!((s.model.as_str(), s.n_ctx), ("", 0));
    }
}

#[test]
fn flm_lists_all_models() {
    let s = read_flm(&listed(200, vec![entry("a", None), entry("b", Some(1))]));
    assert!(s.alive);
    assert_eq!(s.models, ["a", "b"]);
    let s = read_flm(&ModelsReply::Answered { status: 200, models: None });
    assert!(s.alive && s.models.is_empty());
    let s = read_flm(&listed(500, vec![entry("a", None)]));
    assert!(!s.alive && s.models.is_empty());
    assert!(!read_flm(&ModelsReply::Unreachable).alive);
}

const REPORT: &str = "# HELP llamacpp:predicted_tokens_seconds rate\n\
    llamacpp:predicted_tokens_seconds 17.5\r\n\
    \n  llamacpp:prompt_tokens_seconds\t 210.25  \n\
    llamacpp:n_decode_total 9\n\
    llamacpp:predicted_tokens_seconds{slot=\"1\"} 18.5";

#[test]
fn metrics_are_found() {
    let r = scan_metrics(REPORT);
    assert_eq!(r.tg.as_deref(), Some("18.5"));
    assert_eq!(r.pp.as_deref(), Some("210.25"));
    let r = scan_metrics("# llamacpp:prompt_tokens_seconds 3\n\n");
    assert!(r.tg.is_none() && r.pp.is_none());
    let r = scan_metrics("llamacpp:prompt_tokens_seconds");
    assert_eq!(r.pp.as_deref(), Some("llamacpp:prompt_tokens_seconds"));
}

#[test]
fn metrics_need_success() {
    let r = read_llama_metrics(&MetricsReply::Answered { status: 200, body: REPORT.to_string() });
    assert_eq!(r.tg.as_deref(), Some("18.5"));
    let r = read_llama_metrics(&MetricsReply::Answered { status: 501, body: REPORT.to_string() });
    assert!(r.tg.is_none() && r.pp.is_none());
    assert!(read_llama_metrics(&MetricsReply::Unreachable).tg.is_none());
}

const TABLE: &str = "device,VRAM Total Memory (B),VRAM Total Used Memory (B)\n\
    card0,17179869184,1234567890";

#[test]
fn vram_table_is_read() {
    assert_eq!(read_vram_table(TABLE), (1177, 16384));
    assert_eq!(read_vram_table("card0,17179869184,1234567890"), (0, 0));
    assert_eq!(read_vram_table(""), (0, 0));
    assert_eq!(read_vram_table("h\nnote\n\ncard0, +2097152 ,1048576\r\ncard1,0,0\n"), (1, 2));
    assert_eq!(read_vram_table("h\ncard0,x,-1\ncard1,1048576,1048576\n"), (0, 0));
    assert_eq!(read_vram_table("h\nc,18446744073709551615,18446744073709551616"), (0, (1 << 44) - 1));
}

#[test]
fn vram_output_is_decoded() {
    assert_eq!(read_rocm_vram(TABLE.as_bytes()), (1177, 16384));
    assert_eq!(read_rocm_vram(b"\xff\xfe\ncard0,1048576,2097152\xff\n"), (0, 1));
    assert_eq!(read_rocm_vram(b"\xff,\xfe\ncard\xff,1048576,2097152\n"), (2, 1));
}

fn sample(tg: f32, pp: f32) -> Sample {
    Sample {
        mem_used: 5 * 1048576 + 7,
        mem_total: 32 << 30,
        swap_used: 1 << 20,
        swap_total: 2 << 20,
        cpu_pct: single(12.5),
        llama: LlamaStatus { alive: true, model: "m".to_string(), n_ctx: 4096 },
        tg_tps: single(tg),
        pp_tps: single(pp),
        flm: FlmStatus { alive: true, models: vec!["n".to_string()] },
        vram_used_mb: 3,
        vram_total_mb: 4,
    }
}

#[test]
fn samples_are_absorbed() {
    let mut t = Telemetry::default();
    t.absorb(sample(18.5, 200.0));
    assert!(t.llama_alive && t.flm_alive);
    assert_eq!(t.llama_model, "m");
    assert_eq!(t.llama_n_ctx, 4096);
    assert_eq!(t.flm_models, ["n"]);
    assert_eq!((t.mem_used_mb, t.mem_total_mb), (5, 32768));
    assert_eq!((t.swap_used_mb, t.swap_total_mb), (1, 2));
    assert_eq!((t.vram_used_mb, t.vram_total_mb), (3, 4));
    assert_eq!(t.cpu_pct, single(12.5));
    assert_eq!(mebibytes(u64::MAX), (1 << 44) - 1);
}

#[test]
fn rates_stay_until_a_new_one_comes() {
    let mut t = Telemetry::default();
    t.absorb(sample(18.5, 200.0));
    t.absorb(sample(0.0, -1.0));
    assert_eq!(t.last_tg_tps, single(18.5));
    assert_eq!(t.last_pp_tps, single(200.0));
    t.absorb(sample(f32::NAN, 1.5));
    assert_eq!(t.last_tg_tps, single(18.5));
    assert_eq!(t.last_pp_tps, single(1.5));
    let mut down = sample(99.0, 99.0);
    down.llama.alive = false;
    t.absorb(down);
    assert!(!t.llama_alive);
    assert_eq!(t.last_tg_tps, single(18.5));
    assert_eq!(t.last_pp_tps, single(1.5));
}

#[test]
fn positive_agrees_with_floats() {
    for x in [
        0.0,
        -0.0,
        1.0,
        -1.0,
        f32::MIN_POSITIVE,
        f32::from_bits(1),
        f32::from_bits(0x8000_0001),
        f32::MAX,
        f32::INFINITY,
        f32::NEG_INFINITY,
        f32::NAN,
        -f32::NAN,
    ] {
        assert_eq!(single(x).is_positive(), x > 0.0);
    }
}

#[test]
fn generations_are_recorded() {
    let mut t = Telemetry::default();
    record_gen(&mut t, single(20.0), single(300.0), single(0.75));
    record_gen(&mut t, single(0.0), single(1.0), single(0.0));
    assert_eq!(t.last_tg_tps, single(0.0));
    assert_eq!(t.last_pp_tps, single(1.0));
    assert_eq!(t.last_accept_rate, single(0.75));
}
