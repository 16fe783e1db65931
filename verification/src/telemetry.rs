//! Live telemetry: what the polled servers and tools say, and the readings that
//! the cockpit shows.

use crate::http::is_success;
use crate::single::Single;
use crate::text::{
    begins, chars_of, decimal, final_word, is_digit, is_white, last_word, law_begins,
    law_decimal_is_digits, law_last_word, law_line_with_ending, law_line_without_ending,
    law_lines_follow_lines, law_number_is_read_back, law_split_at_first, law_split_keeps_whole,
    law_trim_leaves_the_core, lines, lines_of, number, parse_number, pieces, split, split_on,
    starts_with, string_of, trim, trimmed,
};
use vstd::prelude::*;

verus! {

/// The readings that the cockpit shows.
#[derive(Debug, Clone)]
pub struct Telemetry {
    pub llama_alive: bool,
    pub llama_model: String,
    pub llama_n_ctx: u32,
    pub flm_alive: bool,
    pub flm_models: Vec<String>,
    pub mem_used_mb: u64,
    pub mem_total_mb: u64,
    pub swap_used_mb: u64,
    pub swap_total_mb: u64,
    pub cpu_pct: Single,
    pub vram_used_mb: u64,
    pub vram_total_mb: u64,
    /// The most recent generation rate, in tokens per second.
    pub last_tg_tps: Single,
    /// The most recent rate of prompt evaluation, in tokens per second.
    pub last_pp_tps: Single,
    pub last_accept_rate: Single,
}

impl Default for Telemetry {
    /// Readings before the first poll.
    fn default() -> (r: Telemetry)
        ensures
            !r.llama_alive,
            r.llama_model@ == Seq::<char>::empty(),
            r.llama_n_ctx == 0,
            !r.flm_alive,
            r.flm_models@ == Seq::<String>::empty(),
            r.mem_used_mb == 0,
            r.mem_total_mb == 0,
            r.swap_used_mb == 0,
            r.swap_total_mb == 0,
            r.cpu_pct.bits == 0,
            r.vram_used_mb == 0,
            r.vram_total_mb == 0,
            r.last_tg_tps.bits == 0,
            r.last_pp_tps.bits == 0,
            r.last_accept_rate.bits == 0,
            r.wf(),
    {
        Telemetry {
            llama_alive: false,
            llama_model: String::new(),
            llama_n_ctx: 0,
            flm_alive: false,
            flm_models: Vec::new(),
            mem_used_mb: 0,
            mem_total_mb: 0,
            swap_used_mb: 0,
            swap_total_mb: 0,
            cpu_pct: Single::zero(),
            vram_used_mb: 0,
            vram_total_mb: 0,
            last_tg_tps: Single::zero(),
            last_pp_tps: Single::zero(),
            last_accept_rate: Single::zero(),
        }
    }
}

impl Telemetry {
    /// The amounts in use are small enough to be shown as percentages.
    pub open spec fn wf(self) -> bool {
        self.mem_used_mb * 100 <= u64::MAX && self.vram_used_mb * 100 <= u64::MAX
    }

    /// The number of models that are known: those of the NPU server, and that of
    /// the model server where it is alive.
    pub open spec fn model_count(self) -> nat {
        self.flm_models@.len() + if self.llama_alive {
            1nat
        } else {
            0nat
        }
    }

    /// Takes over what one poll found. A rate that is not positive, or that of a model
    /// server that is down, says nothing new: the last one stays.
    pub fn absorb(&mut self, s: Sample)
        ensures
            final(self).llama_alive == s.llama.alive,
            final(self).llama_model == s.llama.model,
            final(self).llama_n_ctx == s.llama.n_ctx,
            final(self).flm_alive == s.flm.alive,
            final(self).flm_models == s.flm.models,
            final(self).mem_used_mb == s.mem_used / MIB,
            final(self).mem_total_mb == s.mem_total / MIB,
            final(self).swap_used_mb == s.swap_used / MIB,
            final(self).swap_total_mb == s.swap_total / MIB,
            final(self).cpu_pct == s.cpu_pct,
            final(self).vram_used_mb == s.vram_used_mb,
            final(self).vram_total_mb == s.vram_total_mb,
            final(self).last_tg_tps == s.rate_after(old(self).last_tg_tps, s.tg_tps),
            final(self).last_pp_tps == s.rate_after(old(self).last_pp_tps, s.pp_tps),
            final(self).last_accept_rate == old(self).last_accept_rate,
            !s.llama.alive ==> final(self).last_tg_tps == old(self).last_tg_tps,
            !s.llama.alive ==> final(self).last_pp_tps == old(self).last_pp_tps,
            s.vram_used_mb * 100 <= u64::MAX ==> final(self).wf(),
            final(self).mem_used_mb * 1_048_576 <= s.mem_used < (final(self).mem_used_mb + 1)
                * 1_048_576,
            final(self).mem_total_mb * 1_048_576 <= s.mem_total < (final(self).mem_total_mb + 1)
                * 1_048_576,
            final(self).swap_used_mb * 1_048_576 <= s.swap_used < (final(self).swap_used_mb + 1)
                * 1_048_576,
            final(self).swap_total_mb * 1_048_576 <= s.swap_total < (final(self).swap_total_mb
                + 1) * 1_048_576,
    {
        self.llama_alive = s.llama.alive;
        self.llama_model = s.llama.model;
        self.llama_n_ctx = s.llama.n_ctx;
        self.flm_alive = s.flm.alive;
        self.flm_models = s.flm.models;
        self.mem_used_mb = mebibytes(s.mem_used);
        self.mem_total_mb = mebibytes(s.mem_total);
        self.swap_used_mb = mebibytes(s.swap_used);
        self.swap_total_mb = mebibytes(s.swap_total);
        self.cpu_pct = s.cpu_pct;
        self.vram_used_mb = s.vram_used_mb;
        self.vram_total_mb = s.vram_total_mb;
        if s.llama.alive && s.tg_tps.is_positive() {
            self.last_tg_tps = s.tg_tps;
        }
        if s.llama.alive && s.pp_tps.is_positive() {
            self.last_pp_tps = s.pp_tps;
        }
    }
}

/// The bytes of a mebibyte.
pub const MIB: u64 = 1_048_576;

/// `next` where it is positive, else `last`.
pub open spec fn newer(last: Single, next: Single) -> Single {
    if next.positive() {
        next
    } else {
        last
    }
}

/// The whole mebibytes in a number of bytes.
pub fn mebibytes(bytes: u64) -> (r: u64)
    ensures
        r == bytes / MIB,
        r * 100 <= u64::MAX,
        r * 1_048_576 <= bytes < (r + 1) * 1_048_576,
{
    bytes / 1024 / 1024
}

/// Notes the rates of one generation, and its acceptance rate where that is
/// positive.
pub fn record_gen(state: &mut Telemetry, tps: Single, pp: Single, accept: Single)
    ensures
        *final(state) == (Telemetry {
            last_tg_tps: tps,
            last_pp_tps: pp,
            last_accept_rate: newer(old(state).last_accept_rate, accept),
            ..*old(state)
        }),
{
    state.last_tg_tps = tps;
    state.last_pp_tps = pp;
    if accept.is_positive() {
        state.last_accept_rate = accept;
    }
}

/// What one poll found; memory in bytes, video memory in mebibytes.
pub struct Sample {
    pub mem_used: u64,
    pub mem_total: u64,
    pub swap_used: u64,
    pub swap_total: u64,
    pub cpu_pct: Single,
    pub llama: LlamaStatus,
    pub tg_tps: Single,
    pub pp_tps: Single,
    pub flm: FlmStatus,
    pub vram_used_mb: u64,
    pub vram_total_mb: u64,
}

impl Sample {
    /// The rate to show after `last`, where the poll found `next`.
    pub open spec fn rate_after(self, last: Single, next: Single) -> Single {
        if self.llama.alive {
            newer(last, next)
        } else {
            last
        }
    }
}

/// What a server says of one of its models.
#[derive(Debug)]
pub struct ModelEntry {
    pub id: String,
    pub meta: Option<ModelMeta>,
}

/// Details of a model.
#[derive(Debug, Clone, Copy)]
pub struct ModelMeta {
    pub n_ctx_train: u32,
}

/// A server's reply to the question which models it has.
pub enum ModelsReply {
    /// No answer came.
    Unreachable,
    /// An answer with this status came; `models` is `None` where its body is no
    /// list of models.
    Answered { status: u16, models: Option<Vec<ModelEntry>> },
}

/// The model server, as last seen.
pub struct LlamaStatus {
    pub alive: bool,
    pub model: String,
    pub n_ctx: u32,
}

/// The NPU server, as last seen.
pub struct FlmStatus {
    pub alive: bool,
    pub models: Vec<String>,
}

impl ModelsReply {
    /// Whether the server answered with success.
    pub open spec fn alive(self) -> bool {
        self matches ModelsReply::Answered { status, .. } && 200 <= status <= 299
    }

    /// The models that a server lists; none where it does not answer with a list.
    pub open spec fn listed(self) -> Seq<ModelEntry> {
        match self {
            ModelsReply::Answered { models: Some(v), .. } if self.alive() => v@,
            _ => Seq::<ModelEntry>::empty(),
        }
    }
}

/// The context length that a model was trained for; 0 where it is not known.
pub open spec fn context_length(m: ModelEntry) -> u32 {
    match m.meta {
        Some(x) => x.n_ctx_train,
        None => 0,
    }
}

/// Reads the state of the model server off its reply. Its model is the first that
/// it lists; a server that is alive and lists none runs a model without a name.
pub fn read_llama(reply: &ModelsReply) -> (r: LlamaStatus)
    ensures
        r.alive == reply.alive(),
        !reply.alive() ==> r.model@ == Seq::<char>::empty() && r.n_ctx == 0,
        reply.alive() && reply.listed().len() == 0 ==> r.model@ == "(unknown)"@ && r.n_ctx == 0,
        reply.listed().len() > 0 ==> r.model@ == reply.listed()[0].id@ && r.n_ctx == context_length(
            reply.listed()[0],
        ),
{
    match reply {
        ModelsReply::Answered { status, models } => {
            if is_success(*status) {
                if let Some(v) = models {
                    if v.len() > 0 {
                        let n_ctx: u32 = match v[0].meta {
                            Some(x) => x.n_ctx_train,
                            None => 0,
                        };
                        return LlamaStatus { alive: true, model: v[0].id.clone(), n_ctx };
                    }
                }
                return LlamaStatus { alive: true, model: "(unknown)".to_string(), n_ctx: 0 };
            }
        },
        ModelsReply::Unreachable => {},
    }
    LlamaStatus { alive: false, model: String::new(), n_ctx: 0 }
}

/// Reads the state of the NPU server off its reply: the names of all its models.
pub fn read_flm(reply: &ModelsReply) -> (r: FlmStatus)
    ensures
        r.alive == reply.alive(),
        r.models@.len() == reply.listed().len(),
        forall|i: int|
            0 <= i < r.models@.len() ==> (#[trigger] r.models@[i])@ == reply.listed()[i].id@,
{
    let mut names: Vec<String> = Vec::new();
    match reply {
        ModelsReply::Answered { status, models } => {
            if is_success(*status) {
                if let Some(v) = models {
                    let mut i: usize = 0;
                    while i < v.len()
                        invariant
                            i <= v.len(),
                            names@.len() == i,
                            forall|j: int| 0 <= j < i ==> (#[trigger] names@[j])@ == v@[j].id@,
                        decreases v.len() - i,
                    {
                        names.push(v[i].id.clone());
                        i += 1;
                    }
                }
                return FlmStatus { alive: true, models: names };
            }
        },
        ModelsReply::Unreachable => {},
    }
    FlmStatus { alive: false, models: names }
}

/// The text of the value that a report gives last for a metric: the last word of
/// the last line that begins with the metric's name.
pub open spec fn latest(ls: Seq<Seq<char>>, name: Seq<char>) -> Option<Seq<char>>
    decreases ls.len(),
{
    if ls.len() == 0 {
        None
    } else if begins(trimmed(ls.last()), name) {
        Some(last_word(trimmed(ls.last())))
    } else {
        latest(ls.drop_last(), name)
    }
}

/// The values of the two rates in a metrics report, as texts; `None` for a rate
/// that the report does not give.
pub struct RateTexts {
    pub tg: Option<String>,
    pub pp: Option<String>,
}

/// The text that an optional string holds.
pub open spec fn text_of(s: Option<String>) -> Option<Seq<char>> {
    match s {
        Some(x) => Some(x@),
        None => None,
    }
}

/// A line tells of at most one of the two rates, and a comment or an empty line of
/// neither.
proof fn lemma_metric_names(line: Seq<char>)
    ensures
        begins(line, "llamacpp:predicted_tokens_seconds"@) ==> line.len() > 0 && line[0] == 'l'
            && !begins(line, "llamacpp:prompt_tokens_seconds"@),
        begins(line, "llamacpp:prompt_tokens_seconds"@) ==> line.len() > 0 && line[0] == 'l',
{
    reveal_strlit("llamacpp:predicted_tokens_seconds");
    reveal_strlit("llamacpp:prompt_tokens_seconds");
    let tg = "llamacpp:predicted_tokens_seconds"@;
    let pp = "llamacpp:prompt_tokens_seconds"@;
    if begins(line, tg) {
        assert(line.take(tg.len() as int)[0] == tg[0]);
        assert(line.take(tg.len() as int)[11] == tg[11]);
    }
    if begins(line, pp) {
        assert(line.take(pp.len() as int)[0] == pp[0]);
        assert(line.take(pp.len() as int)[11] == pp[11]);
    }
}

/// Finds the rates of generation and of prompt evaluation in a metrics report in
/// the Prometheus text format. Empty lines and comments are passed over.
pub fn scan_metrics(body: &str) -> (r: RateTexts)
    ensures
        text_of(r.tg) == latest(lines_of(body@), "llamacpp:predicted_tokens_seconds"@),
        text_of(r.pp) == latest(lines_of(body@), "llamacpp:prompt_tokens_seconds"@),
{
    let ls: Vec<Vec<char>> = lines(&chars_of(body));
    let ghost all = lines_of(body@);
    let mut tg: Option<String> = None;
    let mut pp: Option<String> = None;
    let mut i: usize = 0;
    while i < ls.len()
        invariant
            i <= ls.len(),
            all == pieces(ls@),
            text_of(tg) == latest(all.take(i as int), "llamacpp:predicted_tokens_seconds"@),
            text_of(pp) == latest(all.take(i as int), "llamacpp:prompt_tokens_seconds"@),
        decreases ls.len() - i,
    {
        let line: Vec<char> = trim(&ls[i]);
        assert(line@ == trimmed(all[i as int]));
        assert(all.take(i as int + 1).drop_last() =~= all.take(i as int));
        proof {
            lemma_metric_names(line@);
        }
        if line.len() > 0 && line[0] != '#' {
            let value: Vec<char> = final_word(&line);
            if starts_with(&line, "llamacpp:predicted_tokens_seconds") {
                tg = Some(string_of(value.as_slice()));
            } else if starts_with(&line, "llamacpp:prompt_tokens_seconds") {
                pp = Some(string_of(value.as_slice()));
            }
        }
        i += 1;
    }
    assert(all.take(all.len() as int) =~= all);
    RateTexts { tg, pp }
}

/// A server's reply to the question for its metrics.
pub enum MetricsReply {
    /// No answer came.
    Unreachable,
    /// An answer with this status and body came.
    Answered { status: u16, body: String },
}

impl MetricsReply {
    /// The value that the reply gives last for a metric, as a text; none where the
    /// server did not answer with success.
    pub open spec fn value(self, name: Seq<char>) -> Option<Seq<char>> {
        match self {
            MetricsReply::Answered { status, body } => if 200 <= status <= 299 {
                latest(lines_of(body@), name)
            } else {
                None
            },
            MetricsReply::Unreachable => None,
        }
    }
}

/// Reads the rates of generation and of prompt evaluation off a server's reply.
pub fn read_llama_metrics(reply: &MetricsReply) -> (r: RateTexts)
    ensures
        text_of(r.tg) == reply.value("llamacpp:predicted_tokens_seconds"@),
        text_of(r.pp) == reply.value("llamacpp:prompt_tokens_seconds"@),
{
    match reply {
        MetricsReply::Answered { status, body } => {
            if is_success(*status) {
                return scan_metrics(body.as_str());
            }
        },
        MetricsReply::Unreachable => {},
    }
    RateTexts { tg: None, pp: None }
}

/// Empty lines and comments in a metrics report tell of neither rate.
pub proof fn law_comments_do_not_count(ls: Seq<Seq<char>>, line: Seq<char>)
    requires
        trimmed(line).len() == 0 || trimmed(line)[0] == '#',
    ensures
        latest(ls.push(line), "llamacpp:predicted_tokens_seconds"@) == latest(
            ls,
            "llamacpp:predicted_tokens_seconds"@,
        ),
        latest(ls.push(line), "llamacpp:prompt_tokens_seconds"@) == latest(
            ls,
            "llamacpp:prompt_tokens_seconds"@,
        ),
{
    lemma_metric_names(trimmed(line));
    assert(ls.push(line).drop_last() =~= ls);
}

/// Once a rate has been seen, the rate that is shown stays positive; it changes only
/// where a model server that is alive gives a positive one.
pub proof fn law_rate_stays_positive(s: Sample, last: Single, next: Single)
    ensures
        last.positive() ==> s.rate_after(last, next).positive(),
        s.llama.alive && next.positive() ==> s.rate_after(last, next) == next,
        !(s.llama.alive && next.positive()) ==> s.rate_after(last, next) == last,
{
}

/// The columns of the first line that has at least three.
pub open spec fn first_row(ls: Seq<Seq<char>>) -> Option<Seq<Seq<char>>>
    decreases ls.len(),
{
    if ls.len() == 0 {
        None
    } else if split_on(ls[0], ',').len() >= 3 {
        Some(split_on(ls[0], ','))
    } else {
        first_row(ls.drop_first())
    }
}

/// The number in a column; 0 where there is none.
pub open spec fn amount(column: Seq<char>) -> u64 {
    match number(trimmed(column)) {
        Some(n) => n,
        None => 0,
    }
}

/// The video memory that a table shows, in mebibytes: used, then total. Behind the
/// heading, the first row with at least three columns counts; its second column is
/// the total and its third what is used, both in bytes.
pub open spec fn vram_of(table: Seq<char>) -> (u64, u64) {
    let ls = lines_of(table);
    let rows = if ls.len() == 0 {
        ls
    } else {
        ls.drop_first()
    };
    match first_row(rows) {
        Some(row) => (amount(row[2]) / MIB, amount(row[1]) / MIB),
        None => (0, 0),
    }
}

/// Reads the number in a column.
fn read_amount(column: &Vec<char>) -> (r: u64)
    ensures
        r == amount(column@),
{
    match parse_number(&trim(column)) {
        Some(n) => n,
        None => 0,
    }
}

/// Reads the video memory, used and total, off the table that `rocm-smi` prints:
/// a heading, then `card0,17179869184,1234567890`, say.
pub fn read_vram_table(table: &str) -> (r: (u64, u64))
    ensures
        r == vram_of(table@),
        r.0 * 100 <= u64::MAX,
{
    let ls: Vec<Vec<char>> = lines(&chars_of(table));
    let ghost all = lines_of(table@);
    let ghost rows = if all.len() == 0 {
        all
    } else {
        all.drop_first()
    };
    let mut i: usize = 1;
    assert(all.len() > 0 ==> all.skip(1) =~= rows);
    while i < ls.len()
        invariant
            1 <= i,
            all == pieces(ls@),
            i <= ls.len() || ls.len() == 0,
            rows == (if all.len() == 0 {
                all
            } else {
                all.drop_first()
            }),
            ls.len() > 0 ==> first_row(rows) == first_row(all.skip(i as int)),
            vram_of(table@) == (match first_row(rows) {
                Some(row) => (amount(row[2]) / MIB, amount(row[1]) / MIB),
                None => (0, 0),
            }),
        decreases ls.len() - i,
    {
        let cols: Vec<Vec<char>> = split(&ls[i], ',');
        assert(all.skip(i as int)[0] == ls@[i as int]@);
        if cols.len() >= 3 {
            let total: u64 = read_amount(&cols[1]);
            let used: u64 = read_amount(&cols[2]);
            assert(pieces(cols@)[1] == cols@[1]@ && pieces(cols@)[2] == cols@[2]@);
            return (mebibytes(used), mebibytes(total));
        }
        assert(all.skip(i as int).drop_first() =~= all.skip(i as int + 1));
        i += 1;
    }
    (0, 0)
}

/// The text that a sequence of bytes decodes to, with a replacement character for
/// what is not UTF-8.
pub uninterp spec fn lossy_text(bytes: Seq<u8>) -> Seq<char>;

/// Calls `String::from_utf8_lossy`. Bytes that are UTF-8 decode to the text that
/// they encode; where replacement characters go in other bytes is left unsaid.
#[verifier::external_body]
fn decode_lossy(bytes: &[u8]) -> (r: String)
    ensures
        r@ == lossy_text(bytes@),
        vstd::utf8::valid_utf8(bytes@) ==> r@ == vstd::utf8::decode_utf8(bytes@),
{
    String::from_utf8_lossy(bytes).into_owned()
}

/// Reads the video memory, used and total in mebibytes, off what `rocm-smi` wrote.
pub fn read_rocm_vram(stdout: &[u8]) -> (r: (u64, u64))
    ensures
        r == vram_of(lossy_text(stdout@)),
        vstd::utf8::valid_utf8(stdout@) ==> r == vram_of(vstd::utf8::decode_utf8(stdout@)),
        r.0 * 100 <= u64::MAX,
{
    read_vram_table(decode_lossy(stdout).as_str())
}

/// A metric's line counts wherever it stands in a report: the value is the last word
/// of the last line that begins with the name, however many lines come before it or
/// behind it, and there is none only where no line begins with the name.
pub proof fn law_last_metric_line_counts(ls: Seq<Seq<char>>, name: Seq<char>, k: int)
    ensures
        0 <= k < ls.len() && begins(trimmed(ls[k]), name) && (forall|j: int|
            k < j < ls.len() ==> !begins(trimmed(#[trigger] ls[j]), name)) ==> latest(ls, name)
            == Some(last_word(trimmed(ls[k]))),
        (forall|j: int| 0 <= j < ls.len() ==> !begins(trimmed(#[trigger] ls[j]), name))
            <==> latest(ls, name) is None,
    decreases ls.len(),
{
    if ls.len() > 0 {
        let front = ls.drop_last();
        law_last_metric_line_counts(front, name, k);
        if latest(front, name) is Some {
            let j = choose|j: int|
                0 <= j < front.len() && begins(trimmed(#[trigger] front[j]), name);
            assert(ls[j] == front[j]);
        }
        assert(ls.last() == ls[ls.len() - 1]);
        if 0 <= k < ls.len() - 1 && begins(trimmed(ls[k]), name) && (forall|j: int|
            k < j < ls.len() ==> !begins(trimmed(#[trigger] ls[j]), name)) {
            assert(front[k] == ls[k]);
            assert forall|j: int| k < j < front.len() implies !begins(
                trimmed(#[trigger] front[j]),
                name,
            ) by {
                assert(front[j] == ls[j]);
            }
        }
        if latest(ls, name) is None {
            assert forall|j: int| 0 <= j < ls.len() implies !begins(
                trimmed(#[trigger] ls[j]),
                name,
            ) by {
                if j < front.len() {
                    assert(front[j] == ls[j]);
                }
            }
        }
    }
}

/// A line behind others gives the value where it begins with the name, and otherwise
/// leaves the value to the others.
pub proof fn law_metric_line_behind_others(
    ls: Seq<Seq<char>>,
    name: Seq<char>,
    line: Seq<char>,
)
    ensures
        begins(trimmed(line), name) ==> latest(ls.push(line), name) == Some(
            last_word(trimmed(line)),
        ),
        !begins(trimmed(line), name) ==> latest(ls.push(line), name) == latest(ls, name),
{
    assert(ls.push(line).drop_last() =~= ls);
}

/// A value that stands behind the name of its metric, and white space, on a line of
/// its own is found in a report, whatever stands before that line, and whatever
/// follows that has no line for the metric.
pub proof fn law_report_gives_value(
    before: Seq<char>,
    name: Seq<char>,
    labels: Seq<char>,
    gap: char,
    value: Seq<char>,
    after: Seq<char>,
)
    requires
        name.len() > 0,
        !is_white(name[0]),
        is_white(gap),
        value.len() > 0,
        forall|i: int| 0 <= i < value.len() ==> !is_white(#[trigger] value[i]),
        !(name + labels).push(gap).contains('\n'),
        forall|j: int|
            0 <= j < lines_of(after).len() ==> !begins(
                trimmed(#[trigger] lines_of(after)[j]),
                name,
            ),
    ensures
        latest(
            lines_of(
                before + seq!['\n'] + ((name + labels).push(gap) + value + seq!['\n'] + after),
            ),
            name,
        ) == Some(value),
        latest(lines_of((name + labels).push(gap) + value + seq!['\n'] + after), name) == Some(
            value,
        ),
{
    let head = (name + labels).push(gap);
    let line = head + value;
    assert(!line.contains('\n')) by {
        if line.contains('\n') {
            let i = choose|i: int| 0 <= i < line.len() && line[i] == '\n';
            if i < head.len() {
                assert(head[i] == '\n');
            } else {
                assert(value[i - head.len()] == '\n');
                assert(is_white('\n'));
            }
        }
    }
    assert(line.last() == value.last());
    assert(is_white('\r'));
    law_line_with_ending(line, after);
    let tail = lines_of(after);
    let own = lines_of(line + seq!['\n'] + after);
    assert(own == seq![line] + tail);
    let none = Seq::<char>::empty();
    assert(line[0] == name[0]);
    law_trim_leaves_the_core(none, line, none);
    assert(none + line + none =~= line);
    law_begins(name, labels.push(gap) + value, line);
    assert(name + (labels.push(gap) + value) =~= line);
    law_last_word(name + labels, gap, value);
    assert forall|j: int| 0 < j < own.len() implies !begins(trimmed(#[trigger] own[j]), name) by {
        assert(own[j] == tail[j - 1]);
    }
    assert(own[0] == line);
    law_last_metric_line_counts(own, name, 0);
    let first = lines_of(before + seq!['\n']);
    law_lines_follow_lines(before, line + seq!['\n'] + after);
    let all = first + own;
    let k = first.len() as int;
    assert(all[k] == line);
    assert forall|j: int| k < j < all.len() implies !begins(trimmed(#[trigger] all[j]), name) by {
        assert(all[j] == own[j - k]);
    }
    law_last_metric_line_counts(all, name, k);
}

/// A metrics report counts exactly where the server answered with success.
pub proof fn law_metrics_need_success(status: u16, body: String, name: Seq<char>)
    ensures
        200 <= status < 300 ==> (MetricsReply::Answered { status, body }).value(name) == latest(
            lines_of(body@),
            name,
        ),
        status < 200 || status >= 300 ==> (MetricsReply::Answered { status, body }).value(
            name,
        ) is None,
        MetricsReply::Unreachable.value(name) is None,
        text_of(Some(body)) == Some(body@),
        text_of(None) is None,
{
}

/// A server is alive exactly where it answered with success, and only then lists the
/// models of its answer.
pub proof fn law_models_need_success(status: u16, models: Option<Vec<ModelEntry>>)
    ensures
        !ModelsReply::Unreachable.alive(),
        ModelsReply::Unreachable.listed().len() == 0,
        (ModelsReply::Answered { status, models }).alive() <==> status >= 200 && status < 300,
        status >= 200 && status < 300 && models is Some ==> (ModelsReply::Answered {
            status,
            models,
        }).listed() == models->0@,
        status < 200 || status >= 300 || models is None ==> (ModelsReply::Answered {
            status,
            models,
        }).listed().len() == 0,
{
}

/// A model's context length is the one it was trained for, where that is told.
pub proof fn law_context_length(m: ModelEntry)
    ensures
        m.meta is Some ==> context_length(m) == (m.meta->0).n_ctx_train,
        m.meta is None ==> context_length(m) == 0,
{
}

/// A reading is taken exactly where it is positive; otherwise the one before it stays.
pub proof fn law_newer_reading(last: Single, next: Single)
    ensures
        next.bits > 0 && next.bits <= 0x7f80_0000 ==> newer(last, next) == next,
        next.bits == 0 || next.bits > 0x7f80_0000 ==> newer(last, next) == last,
{
}

/// All models count: those of the NPU server, and one more while the model server is
/// alive.
pub proof fn law_model_count(t: Telemetry)
    ensures
        t.llama_alive ==> t.model_count() == t.flm_models@.len() + 1,
        !t.llama_alive ==> t.model_count() == t.flm_models@.len(),
{
}

/// The readings are in order exactly where a hundredfold of each amount in use fits
/// 64 bits.
pub proof fn law_readings_in_order(t: Telemetry)
    ensures
        t.wf() <==> t.mem_used_mb * 100 < 0x1_0000_0000_0000_0000 && t.vram_used_mb * 100
            < 0x1_0000_0000_0000_0000,
{
}

/// The first row with three columns counts, behind the heading and any rows with
/// fewer; its third column, in whole mebibytes, is what is used, and its second the
/// total. A column that is no number counts as nothing, as does a table without rows.
pub proof fn law_vram_by_rows(table: Seq<char>, k: int)
    ensures
        1 <= k < lines_of(table).len() && (forall|j: int|
            1 <= j < k ==> split_on(#[trigger] lines_of(table)[j], ',').len() < 3) && split_on(
            lines_of(table)[k],
            ',',
        ).len() >= 3 ==> {
            let row = split_on(lines_of(table)[k], ',');
            let (used, total) = vram_of(table);
            &&& number(trimmed(row[2])) matches Some(n) ==> used * 1_048_576 <= n < (used + 1)
                * 1_048_576
            &&& number(trimmed(row[2])) is None ==> used == 0
            &&& number(trimmed(row[1])) matches Some(n) ==> total * 1_048_576 <= n < (total + 1)
                * 1_048_576
            &&& number(trimmed(row[1])) is None ==> total == 0
        },
        (forall|j: int|
            1 <= j < lines_of(table).len() ==> split_on(
                #[trigger] lines_of(table)[j],
                ',',
            ).len() < 3) ==> vram_of(table) == (0u64, 0u64),
{
    let ls = lines_of(table);
    if ls.len() > 0 {
        let rows = ls.drop_first();
        assert forall|j: int| 0 <= j < rows.len() implies #[trigger] rows[j] == ls[j + 1] by {}
        lemma_first_row(rows, k - 1);
    }
}

/// Which row the first one with three columns is.
proof fn lemma_first_row(rows: Seq<Seq<char>>, k: int)
    ensures
        0 <= k < rows.len() && (forall|j: int|
            0 <= j < k ==> split_on(#[trigger] rows[j], ',').len() < 3) && split_on(
            rows[k],
            ',',
        ).len() >= 3 ==> first_row(rows) == Some(split_on(rows[k], ',')),
        (forall|j: int| 0 <= j < rows.len() ==> split_on(#[trigger] rows[j], ',').len() < 3)
            ==> first_row(rows) is None,
    decreases rows.len(),
{
    if rows.len() > 0 {
        let rest = rows.drop_first();
        assert forall|j: int| 0 <= j < rest.len() implies #[trigger] rest[j] == rows[j + 1] by {}
        lemma_first_row(rest, k - 1);
    }
}

/// What a table says in a row of a name, the total and the bytes in use is read, over
/// the whole range of 64 bits, whatever the heading, and whatever follows the row.
pub proof fn law_vram_is_read(
    heading: Seq<char>,
    name: Seq<char>,
    total: u64,
    used: u64,
    rest: Seq<char>,
)
    requires
        !heading.contains('\n'),
        !name.contains('\n'),
        !name.contains(','),
        rest.len() == 0 || rest[0] == '\n',
    ensures
        ({
            let row = name + seq![','] + decimal(total as nat) + seq![','] + decimal(used as nat);
            let (u, t) = vram_of(heading + seq!['\n'] + row + rest);
            &&& u * 1_048_576 <= used < (u + 1) * 1_048_576
            &&& t * 1_048_576 <= total < (t + 1) * 1_048_576
        }),
{
    let none = Seq::<char>::empty();
    let t = decimal(total as nat);
    let u = decimal(used as nat);
    let row = name + seq![','] + t + seq![','] + u;
    let table = heading + seq!['\n'] + row + rest;
    lemma_plain_column(total as nat);
    lemma_plain_column(used as nat);
    law_number_is_read_back(none, total as nat);
    law_number_is_read_back(none, used as nat);
    assert(none + t =~= t && none + u =~= u);
    law_split_at_first(name, ',', t + seq![','] + u);
    law_split_at_first(t, ',', u);
    law_split_keeps_whole(u, ',');
    assert(row =~= name + seq![','] + (t + seq![','] + u));
    assert(split_on(row, ',') =~= seq![name, t, u]);
    assert(!row.contains('\n')) by {
        if row.contains('\n') {
            let i = choose|i: int| 0 <= i < row.len() && row[i] == '\n';
            let n = name.len() as int;
            let m = n + 1 + t.len();
            if i < n {
                assert(name[i] == '\n');
            } else if n < i < m {
                assert(t[i - n - 1] == '\n');
            } else if i > m {
                assert(u[i - m - 1] == '\n');
            }
        }
    }
    assert(row.last() == u.last());
    assert(table =~= heading + seq!['\n'] + (row + rest));
    let tail = if rest.len() == 0 {
        none
    } else {
        rest.drop_first()
    };
    if rest.len() == 0 {
        law_line_without_ending(row);
        assert(row + rest =~= row);
        assert(lines_of(row + rest) =~= seq![row]);
    } else {
        law_line_with_ending(row, tail);
        assert(row + rest =~= row + seq!['\n'] + tail);
    }
    let mine = lines_of(row + rest);
    assert(mine[0] == row);
    law_lines_follow_lines(heading, row + rest);
    lemma_one_line(heading);
    assert(lines_of(table)[1] == row);
    law_vram_by_rows(table, 1);
}

/// A heading with its ending is one line.
proof fn lemma_one_line(heading: Seq<char>)
    requires
        !heading.contains('\n'),
    ensures
        lines_of(heading + seq!['\n']).len() == 1,
{
    let none = Seq::<char>::empty();
    law_line_without_ending(none);
    law_split_at_first(heading, '\n', none);
    law_split_keeps_whole(none, '\n');
    assert(heading + seq!['\n'] + none =~= heading + seq!['\n']);
}

/// The digits of a number are neither white nor separators.
proof fn lemma_plain_column(n: nat)
    ensures
        decimal(n).len() > 0,
        decimal(n).last() != '\r',
        !decimal(n).contains(','),
        !decimal(n).contains('\n'),
        trimmed(decimal(n)) == decimal(n),
{
    let none = Seq::<char>::empty();
    let s = decimal(n);
    law_decimal_is_digits(n);
    assert(is_digit(s[0]) && is_digit(s.last()));
    law_trim_leaves_the_core(none, s, none);
    assert(none + s + none =~= s);
    if s.contains(',') {
        let i = choose|i: int| 0 <= i < s.len() && s[i] == ',';
        assert(is_digit(s[i]));
    }
    if s.contains('\n') {
        let i = choose|i: int| 0 <= i < s.len() && s[i] == '\n';
        assert(is_digit(s[i]));
    }
}

/// The reading of the video memory in use follows the bytes in use: a mebibyte more is
/// one more, and no use of the total is made for it.
pub proof fn law_vram_grows_with_use(
    heading: Seq<char>,
    name: Seq<char>,
    total: u64,
    other: u64,
    used: u64,
)
    requires
        !heading.contains('\n'),
        !name.contains('\n'),
        !name.contains(','),
        used + 1_048_576 <= u64::MAX,
    ensures
        ({
            let head = heading + seq!['\n'] + name + seq![','];
            let a = vram_of(head + decimal(total as nat) + seq![','] + decimal(used as nat));
            let b = vram_of(
                head + decimal(other as nat) + seq![','] + decimal((used + 1_048_576) as nat),
            );
            b.0 == a.0 + 1
        }),
{
    let none = Seq::<char>::empty();
    let more = (used + 1_048_576) as u64;
    law_vram_is_read(heading, name, total, used, none);
    law_vram_is_read(heading, name, other, more, none);
    let head = heading + seq!['\n'] + name + seq![','];
    let t = decimal(total as nat);
    let o = decimal(other as nat);
    let u = decimal(used as nat);
    let m = decimal(more as nat);
    assert(heading + seq!['\n'] + (name + seq![','] + t + seq![','] + u) + none =~= head + t
        + seq![','] + u);
    assert(heading + seq!['\n'] + (name + seq![','] + o + seq![','] + m) + none =~= head + o
        + seq![','] + m);
}

} // verus!
