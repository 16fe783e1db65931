//! The cockpit's state, and how replies and key presses change it.

use crate::chat::{request, turns, ChatMessage, ChatRequest, Turn, MAX_TOKENS};
use crate::telemetry::Telemetry;
use crate::text::{
    chars_of, is_white, join, law_trim_leaves_the_core, same, string_of, texts, trim, trimmed,
};
use vstd::prelude::*;

verus! {

/// The number of user and assistant pairs that a conversation keeps.
pub const MAX_TURNS: usize = 24;

/// The cockpit's state.
pub struct App {
    pub tick: u64,
    /// The transcript pane, line by line.
    pub chat: Vec<String>,
    pub tool_log: Vec<String>,
    pub selected_model: usize,
    pub input: String,
    pub quit: bool,
    /// The conversation as the model server sees it.
    pub history: Vec<ChatMessage>,
    /// Whether a request is under way. Nothing new is sent meanwhile.
    pub pending: bool,
}

/// What the cockpit's state says.
#[verifier::ext_equal]
pub struct Cockpit {
    pub tick: u64,
    pub chat: Seq<Seq<char>>,
    pub tool_log: Seq<Seq<char>>,
    pub selected_model: nat,
    pub input: Seq<char>,
    pub quit: bool,
    pub history: Seq<Turn>,
    pub pending: bool,
}

impl View for App {
    type V = Cockpit;

    open spec fn view(&self) -> Cockpit {
        Cockpit {
            tick: self.tick,
            chat: texts(self.chat@),
            tool_log: texts(self.tool_log@),
            selected_model: self.selected_model as nat,
            input: self.input@,
            quit: self.quit,
            history: turns(self.history@),
            pending: self.pending,
        }
    }
}

/// What has become of a request.
pub enum Arrival {
    /// The assistant replied.
    Reply(String),
    /// The exchange failed, for this reason.
    Failed(String),
    /// Nothing has come yet.
    Waiting,
    /// The exchange ended without a word.
    Dropped,
}

/// A key, as far as the cockpit tells keys apart.
pub enum Key {
    Char(char),
    Esc,
    Up,
    Down,
    Backspace,
    Enter,
    Other,
}

/// What the terminal brought in one round.
pub enum Event {
    /// A key went down.
    Press(Key),
    /// A key was repeated or released.
    OtherKey,
    /// Nothing, or something other than a key.
    Idle,
}

/// The line that stands in the transcript while a reply is awaited.
pub open spec fn placeholder() -> Seq<char> {
    "< …"@
}

/// The last `n` elements of a sequence.
pub open spec fn newest<A>(s: Seq<A>, n: nat) -> Seq<A> {
    if s.len() <= n {
        s
    } else {
        s.skip(s.len() - n)
    }
}

/// `n` less one, but not less than zero.
pub open spec fn less_one(n: nat) -> nat {
    if n == 0 {
        0
    } else {
        (n - 1) as nat
    }
}

impl Cockpit {
    /// The transcript without a placeholder at its end.
    pub open spec fn settled_chat(self) -> Seq<Seq<char>> {
        if self.chat.len() > 0 && self.chat.last() == placeholder() {
            self.chat.drop_last()
        } else {
            self.chat
        }
    }

    /// The conversation without a user's turn at its end.
    pub open spec fn answered_history(self) -> Seq<Turn> {
        if self.history.len() > 0 && self.history.last().role == "user"@ {
            self.history.drop_last()
        } else {
            self.history
        }
    }

    /// The state once the assistant has said `words`.
    pub open spec fn replied(self, words: Seq<char>) -> Cockpit {
        Cockpit {
            chat: self.settled_chat().push("< "@ + trimmed(words)),
            history: newest(
                self.history.push(Turn { role: "assistant"@, content: trimmed(words) }),
                (MAX_TURNS * 2) as nat,
            ),
            pending: false,
            ..self
        }
    }

    /// The state once an exchange has failed, with `report` in the transcript.
    pub open spec fn failed(self, report: Seq<char>) -> Cockpit {
        Cockpit {
            chat: self.settled_chat().push(report),
            history: self.answered_history(),
            pending: false,
            ..self
        }
    }

    /// The state once `a` has been taken note of.
    pub open spec fn drained(self, a: Arrival) -> Cockpit {
        if !self.pending {
            self
        } else {
            match a {
                Arrival::Reply(words) => self.replied(words@),
                Arrival::Failed(reason) => self.failed("[err] "@ + reason@),
                Arrival::Waiting => self,
                Arrival::Dropped => self.failed("[err] chat task dropped without reply"@),
            }
        }
    }

    /// Whether the enter key sends the input, with the model server alive or not.
    pub open spec fn ready(self, alive: bool) -> bool {
        self.input.len() > 0 && !self.pending && alive
    }

    /// Whether a round sends the input.
    pub open spec fn sends(self, e: Event, alive: bool) -> bool {
        e == Event::Press(Key::Enter) && self.ready(alive)
    }

    /// The state once the input has been sent.
    pub open spec fn sent(self) -> Cockpit {
        Cockpit {
            chat: self.chat.push("> "@ + self.input).push(placeholder()),
            history: self.history.push(Turn { role: "user"@, content: self.input }),
            input: Seq::<char>::empty(),
            pending: true,
            ..self
        }
    }

    /// The state once the enter key has been pressed.
    pub open spec fn entered(self, alive: bool) -> Cockpit {
        if self.ready(alive) {
            self.sent()
        } else if !self.pending && !alive {
            Cockpit { chat: self.chat.push("[err] llama-server unreachable"@), ..self }
        } else {
            self
        }
    }

    /// The state once `k` has been pressed, with `models` models known.
    pub open spec fn pressed(self, k: Key, alive: bool, models: nat) -> Cockpit {
        match k {
            Key::Esc => Cockpit { quit: true, ..self },
            Key::Char(c) => if c == 'q' {
                Cockpit { quit: true, ..self }
            } else {
                Cockpit { input: self.input.push(c), ..self }
            },
            Key::Up => Cockpit { selected_model: less_one(self.selected_model), ..self },
            Key::Down => if self.selected_model < less_one(models) {
                Cockpit { selected_model: self.selected_model + 1, ..self }
            } else {
                self
            },
            Key::Backspace => if self.input.len() > 0 {
                Cockpit { input: self.input.drop_last(), ..self }
            } else {
                self
            },
            Key::Enter => self.entered(alive),
            Key::Other => self,
        }
    }

    /// The state one tick later.
    pub open spec fn ticked(self) -> Cockpit {
        Cockpit {
            tick: if self.tick == u64::MAX {
                0
            } else {
                (self.tick + 1) as u64
            },
            ..self
        }
    }

    /// The state after one round.
    pub open spec fn stepped(self, e: Event, alive: bool, models: nat) -> Cockpit {
        match e {
            Event::Press(k) => self.pressed(k, alive, models).ticked(),
            Event::OtherKey => self,
            Event::Idle => self.ticked(),
        }
    }
}

impl App {
    /// Takes the placeholder off the end of the transcript, if it is there, and
    /// writes `line`.
    fn settle(&mut self, line: String)
        ensures
            final(self)@ == (Cockpit { chat: old(self)@.settled_chat().push(line@), ..old(self)@ }),
    {
        let ghost before = self@;
        let n: usize = self.chat.len();
        if n > 0 && same(self.chat[n - 1].as_str(), "< …") {
            let ghost lines = self.chat@;
            let _ = self.chat.pop();
            assert(texts(self.chat@) =~= texts(lines).drop_last());
        }
        assert(texts(self.chat@) == before.settled_chat());
        let ghost lines = self.chat@;
        self.chat.push(line);
        assert(texts(self.chat@) =~= texts(lines).push(line@));
    }

    /// Ends a failed exchange: reports it, and takes the user's turn back so that
    /// it can be tried again.
    fn fail(&mut self, report: String)
        ensures
            final(self)@ == old(self)@.failed(report@),
    {
        let ghost before = self@;
        self.settle(report);
        let n: usize = self.history.len();
        if n > 0 && same(self.history[n - 1].role.as_str(), "user") {
            let ghost hist = self.history@;
            let _ = self.history.pop();
            assert(turns(self.history@) =~= turns(hist).drop_last());
        }
        assert(turns(self.history@) =~= before.answered_history());
        self.pending = false;
    }

    /// Ends an exchange with the assistant's words, and lets the oldest turns go
    /// where the conversation has grown too long.
    fn accept(&mut self, words: &String)
        ensures
            final(self)@ == old(self)@.replied(words@),
    {
        let text: String = string_of(trim(&chars_of(words.as_str())).as_slice());
        self.settle(join("< ", text.as_str()));
        let ghost hist = self.history@;
        self.history.push(ChatMessage { role: "assistant".to_string(), content: text });
        assert(turns(self.history@) =~= turns(hist).push(
            Turn { role: "assistant"@, content: trimmed(words@) },
        ));
        let ghost grown = self.history@;
        if self.history.len() > MAX_TURNS * 2 {
            let surplus: usize = self.history.len() - MAX_TURNS * 2;
            self.history = self.history.split_off(surplus);
            assert(turns(self.history@) =~= turns(grown).skip(surplus as int));
        }
        self.pending = false;
    }

    /// Takes note of what has become of the request that is under way, if one is.
    pub fn drain(&mut self, a: &Arrival)
        ensures
            final(self)@ == old(self)@.drained(*a),
    {
        if self.pending {
            match a {
                Arrival::Reply(words) => self.accept(words),
                Arrival::Failed(reason) => self.fail(join("[err] ", reason.as_str())),
                Arrival::Waiting => {},
                Arrival::Dropped => self.fail("[err] chat task dropped without reply".to_string()),
            }
        }
    }

    /// Writes a line into the transcript.
    fn say(&mut self, line: String)
        ensures
            final(self)@ == (Cockpit { chat: old(self)@.chat.push(line@), ..old(self)@ }),
    {
        let ghost lines = self.chat@;
        self.chat.push(line);
        assert(texts(self.chat@) =~= texts(lines).push(line@));
    }

    /// Moves the input into the transcript and the conversation.
    fn send(&mut self)
        ensures
            final(self)@ == old(self)@.sent(),
    {
        let mut msg: String = String::new();
        core::mem::swap(&mut msg, &mut self.input);
        self.say(join("> ", msg.as_str()));
        let ghost hist = self.history@;
        let ghost words = msg@;
        self.history.push(ChatMessage { role: "user".to_string(), content: msg });
        assert(turns(self.history@) =~= turns(hist).push(Turn { role: "user"@, content: words }));
        self.say("< …".to_string());
        self.pending = true;
    }

    /// Acts on a key press; tells whether the input was sent.
    fn press(&mut self, k: &Key, t: &Telemetry) -> (r: bool)
        ensures
            final(self)@ == old(self)@.pressed(*k, t.llama_alive, t.model_count()),
            r == (*k is Enter && old(self)@.ready(t.llama_alive)),
    {
        match k {
            Key::Esc => {
                self.quit = true;
            },
            Key::Char(c) => {
                if *c == 'q' {
                    self.quit = true;
                } else {
                    self.input.push(*c);
                }
            },
            Key::Up => {
                if self.selected_model > 0 {
                    self.selected_model -= 1;
                }
            },
            Key::Down => {
                let last: usize = if t.llama_alive {
                    t.flm_models.len()
                } else {
                    t.flm_models.len().saturating_sub(1)
                };
                if self.selected_model < last {
                    self.selected_model += 1;
                }
            },
            Key::Backspace => {
                let _ = self.input.pop();
            },
            Key::Enter => {
                if !self.input.as_str().is_empty() && !self.pending && t.llama_alive {
                    self.send();
                    return true;
                }
                if !self.pending && !t.llama_alive {
                    self.say("[err] llama-server unreachable".to_string());
                }
            },
            Key::Other => {},
        }
        false
    }

    /// Plays one round of the cockpit's loop: acts on what the terminal brought,
    /// and counts the tick. A key that was only repeated or released ends the round
    /// at once.
    pub fn step(&mut self, e: &Event, t: &Telemetry) -> (r: Step)
        ensures
            final(self)@ == old(self)@.stepped(*e, t.llama_alive, t.model_count()),
            r.request is Some <==> old(self)@.sends(*e, t.llama_alive),
            r.request matches Some(q) ==> q.model@ == t.llama_model@,
            r.request matches Some(q) ==> turns(q.messages@) == final(self)@.history,
            r.request matches Some(q) ==> q.temperature.bits == 0x3f33_3333,
            r.request matches Some(q) ==> q.max_tokens == MAX_TOKENS,
            r.request matches Some(q) ==> q.max_tokens == 1024,
            r.done == (*e !is OtherKey && final(self)@.quit),
    {
        let mut outgoing: Option<ChatRequest> = None;
        match e {
            Event::Press(k) => {
                if self.press(k, t) {
                    outgoing = Some(request(&t.llama_model, &self.history));
                }
            },
            Event::OtherKey => {
                return Step { request: None, done: false };
            },
            Event::Idle => {},
        }
        self.tick = self.tick.wrapping_add(1);
        Step { request: outgoing, done: self.quit }
    }

    /// The cockpit as it starts.
    pub fn boot() -> (r: App)
        ensures
            r@ == booted(),
    {
        let mut app: App = App::default();
        app.chat.push("[boot] Drowned God cockpit online.".to_string());
        app.tool_log.push("[boot] telemetry streaming.".to_string());
        assert(texts(app.chat@) =~= seq!["[boot] Drowned God cockpit online."@]);
        assert(texts(app.tool_log@) =~= seq!["[boot] telemetry streaming."@]);
        app
    }
}

impl Default for App {
    /// A cockpit without any text.
    fn default() -> (r: App)
        ensures
            r@ == blank(),
    {
        let app: App = App {
            tick: 0,
            chat: Vec::new(),
            tool_log: Vec::new(),
            selected_model: 0,
            input: String::new(),
            quit: false,
            history: Vec::new(),
            pending: false,
        };
        assert(app@ =~= blank());
        app
    }
}

/// What a round leads to.
pub struct Step {
    /// The request to be sent, if the round made one.
    pub request: Option<ChatRequest>,
    /// Whether the cockpit is to close.
    pub done: bool,
}

/// The state of a cockpit without any text.
pub open spec fn blank() -> Cockpit {
    Cockpit {
        tick: 0,
        chat: Seq::<Seq<char>>::empty(),
        tool_log: Seq::<Seq<char>>::empty(),
        selected_model: 0,
        input: Seq::<char>::empty(),
        quit: false,
        history: Seq::<Turn>::empty(),
        pending: false,
    }
}

/// The state in which the cockpit starts.
pub open spec fn booted() -> Cockpit {
    Cockpit {
        chat: seq!["[boot] Drowned God cockpit online."@],
        tool_log: seq!["[boot] telemetry streaming."@],
        ..blank()
    }
}

impl Cockpit {
    /// The state is in order: the conversation consists of user and assistant turns
    /// by turns, the user first; it holds at most 24 pairs, and one more turn of the
    /// user exactly while a request is under way; and then the transcript ends in
    /// the placeholder.
    pub open spec fn in_order(self) -> bool {
        &&& self.history.len() <= 2 * MAX_TURNS + 1
        &&& (self.history.len() % 2 == 1) == self.pending
        &&& forall|i: int|
            0 <= i < self.history.len() ==> (#[trigger] self.history[i]).role == (if i % 2 == 0 {
                "user"@
            } else {
                "assistant"@
            })
        &&& self.pending ==> self.chat.len() > 0 && self.chat.last() == placeholder()
    }
}

/// The cockpit starts in order.
pub proof fn law_boot_in_order()
    ensures
        booted().in_order(),
{
}

/// Whatever becomes of a request, the state stays in order.
pub proof fn law_drain_in_order(c: Cockpit, a: Arrival)
    requires
        c.in_order(),
    ensures
        c.drained(a).in_order(),
{
}

/// Whatever the terminal brings, the state stays in order.
pub proof fn law_step_in_order(c: Cockpit, e: Event, alive: bool, models: nat)
    requires
        c.in_order(),
    ensures
        c.stepped(e, alive, models).in_order(),
{
}

/// One thing that happens to a cockpit.
pub enum Move {
    Drain(Arrival),
    Round { event: Event, alive: bool, models: nat },
}

/// The state after a series of moves.
pub open spec fn played(c: Cockpit, moves: Seq<Move>) -> Cockpit
    decreases moves.len(),
{
    if moves.len() == 0 {
        c
    } else {
        let before = played(c, moves.drop_last());
        match moves.last() {
            Move::Drain(a) => before.drained(a),
            Move::Round { event, alive, models } => before.stepped(event, alive, models),
        }
    }
}

/// Every state that a cockpit comes to is in order.
pub proof fn law_always_in_order(moves: Seq<Move>)
    ensures
        played(booted(), moves).in_order(),
    decreases moves.len(),
{
    if moves.len() > 0 {
        law_always_in_order(moves.drop_last());
        let before = played(booted(), moves.drop_last());
        match moves.last() {
            Move::Drain(a) => law_drain_in_order(before, a),
            Move::Round { event, alive, models } => law_step_in_order(before, event, alive, models),
        }
    }
}

/// A failed exchange leaves the conversation as it was before the input was sent,
/// so that the input can be sent again; the transcript shows the input and the
/// report.
pub proof fn law_failure_undoes_send(c: Cockpit, report: Seq<char>)
    ensures
        c.sent().failed(report).history == c.history,
        !c.sent().failed(report).pending,
        c.sent().failed(report).chat == c.chat.push("> "@ + c.input).push(report),
{
    assert(c.sent().history.drop_last() =~= c.history);
    assert(c.sent().chat.drop_last() =~= c.chat.push("> "@ + c.input));
}

/// A reply takes the placeholder's place in the transcript, and adds the user's and
/// the assistant's turn to the conversation, of which the newest 24 pairs stay.
pub proof fn law_reply_completes_send(c: Cockpit, words: Seq<char>)
    ensures
        c.sent().replied(words).chat == c.chat.push("> "@ + c.input).push("< "@ + trimmed(words)),
        c.sent().replied(words).history == newest(
            c.history.push(Turn { role: "user"@, content: c.input }).push(
                Turn { role: "assistant"@, content: trimmed(words) },
            ),
            48,
        ),
        c.sent().replied(words).history.len() <= 48,
        c.sent().replied(words).history.last() == (Turn {
            role: "assistant"@,
            content: trimmed(words),
        }),
        !c.sent().replied(words).pending,
{
    assert(c.sent().chat.drop_last() =~= c.chat.push("> "@ + c.input));
}

/// While a request is under way, no round sends another one, and none touches the
/// transcript or the conversation.
pub proof fn law_one_request_at_a_time(c: Cockpit, e: Event, alive: bool, models: nat)
    requires
        c.pending,
    ensures
        !c.sends(e, alive),
        c.stepped(e, alive, models).chat == c.chat,
        c.stepped(e, alive, models).history == c.history,
        c.stepped(e, alive, models).pending,
{
}

/// A move that leaves a request under way: a round, or a look for a reply that has
/// not come yet.
pub open spec fn waits(m: Move) -> bool {
    match m {
        Move::Drain(a) => a is Waiting,
        Move::Round { .. } => true,
    }
}

/// However long a reply is awaited, and whatever keys are pressed meanwhile, the
/// transcript and the conversation stay as the request left them. So a failure then
/// leaves the conversation as it was before the input was sent, and a reply takes
/// the placeholder's place.
pub proof fn law_waiting_disturbs_nothing(c: Cockpit, moves: Seq<Move>)
    requires
        forall|i: int| 0 <= i < moves.len() ==> waits(#[trigger] moves[i]),
    ensures
        played(c.sent(), moves).chat == c.sent().chat,
        played(c.sent(), moves).history == c.sent().history,
        played(c.sent(), moves).pending,
        forall|report: Seq<char>|
            (#[trigger] played(c.sent(), moves).failed(report)).history == c.history,
        forall|words: Seq<char>|
            (#[trigger] played(c.sent(), moves).replied(words)).chat == c.sent().replied(
                words,
            ).chat,
    decreases moves.len(),
{
    if moves.len() > 0 {
        let before = moves.drop_last();
        assert forall|i: int| 0 <= i < before.len() implies waits(#[trigger] before[i]) by {
            assert(before[i] == moves[i]);
        }
        law_waiting_disturbs_nothing(c, before);
        assert(waits(moves.last()));
    }
    assert(c.sent().history.drop_last() =~= c.history);
}

/// The transcript keeps all its lines, except that the placeholder goes when its
/// exchange ends.
pub proof fn law_transcript_keeps_lines(
    c: Cockpit,
    a: Arrival,
    e: Event,
    alive: bool,
    models: nat,
)
    ensures
        c.chat.is_prefix_of(c.stepped(e, alive, models).chat),
        c.settled_chat().is_prefix_of(c.drained(a).chat),
{
}

/// A round sends exactly where it turns a cockpit without a request into one with a
/// request; the conversation then ends in the input.
pub proof fn law_send_starts_request(c: Cockpit, e: Event, alive: bool, models: nat)
    ensures
        c.sends(e, alive) <==> !c.pending && c.stepped(e, alive, models).pending,
        c.sends(e, alive) ==> c.stepped(e, alive, models).history.last() == (Turn {
            role: "user"@,
            content: c.input,
        }),
        c.sends(e, alive) ==> c.stepped(e, alive, models).input.len() == 0,
{
}

/// The selection moves by at most one place in a round, and never past the last
/// model that is known.
pub proof fn law_selection_is_bounded(c: Cockpit, e: Event, alive: bool, models: nat)
    ensures
        c.stepped(e, alive, models).selected_model <= c.selected_model + 1,
        c.selected_model <= c.stepped(e, alive, models).selected_model + 1,
        c.stepped(e, alive, models).selected_model > c.selected_model ==> c.stepped(
            e,
            alive,
            models,
        ).selected_model < models,
        c.selected_model < models ==> c.stepped(e, alive, models).selected_model < models,
{
}

/// The backspace key takes back what was typed last. Only `q` is not typed: it
/// closes the cockpit.
pub proof fn law_backspace_undoes_typing(c: Cockpit, x: char, alive: bool, models: nat)
    requires
        x != 'q',
    ensures
        c.pressed(Key::Char(x), alive, models).input == c.input.push(x),
        c.pressed(Key::Char(x), alive, models).pressed(Key::Backspace, alive, models) == c,
{
    assert(c.input.push(x).drop_last() =~= c.input);
}

/// A cockpit closes only where the escape key or `q` was pressed.
pub proof fn law_quit_is_asked_for(c: Cockpit, e: Event, alive: bool, models: nat)
    ensures
        c.stepped(e, alive, models).quit == (c.quit || e == Event::Press(Key::Esc) || e
            == Event::Press(Key::Char('q'))),
{
}

/// A key that is only repeated or released changes nothing.
pub proof fn law_only_presses_count(c: Cockpit, alive: bool, models: nat)
    ensures
        c.stepped(Event::OtherKey, alive, models) == c,
{
}

/// The state says all that the cockpit holds: each line of the transcript and of the
/// tool log, and each turn of the conversation, in their order.
pub proof fn law_view_is_whole(app: App)
    ensures
        app@.tick == app.tick,
        app@.selected_model == app.selected_model,
        app@.input == app.input@,
        app@.quit == app.quit,
        app@.pending == app.pending,
        app@.chat.len() == app.chat@.len(),
        forall|i: int| 0 <= i < app.chat@.len() ==> #[trigger] app@.chat[i] == app.chat@[i]@,
        app@.tool_log.len() == app.tool_log@.len(),
        forall|i: int|
            0 <= i < app.tool_log@.len() ==> #[trigger] app@.tool_log[i] == app.tool_log@[i]@,
        app@.history.len() == app.history@.len(),
        forall|i: int|
            0 <= i < app.history@.len() ==> (#[trigger] app@.history[i]).role
                == app.history@[i].role@ && app@.history[i].content == app.history@[i].content@,
{
}

/// A reply joins the conversation in every state in which one is awaited, whatever has
/// been typed meanwhile: the assistant's words, without the white space around them,
/// follow all turns so far, of which only those before the newest 48 go. They take the
/// placeholder's place in the transcript, and nothing else changes.
pub proof fn law_reply_joins_conversation(
    c: Cockpit,
    s: String,
    lead: Seq<char>,
    words: Seq<char>,
    trail: Seq<char>,
)
    requires
        c.pending,
        s@ == lead + words + trail,
        forall|i: int| 0 <= i < lead.len() ==> is_white(#[trigger] lead[i]),
        forall|i: int| 0 <= i < trail.len() ==> is_white(#[trigger] trail[i]),
        words.len() > 0 ==> !is_white(words[0]) && !is_white(words.last()),
    ensures
        ({
            let d = c.drained(Arrival::Reply(s));
            let grown = c.history + seq![Turn { role: "assistant"@, content: words }];
            let n = grown.len() as int;
            &&& n <= 48 ==> d.history == grown
            &&& n > 48 ==> d.history == grown.subrange(n - 48, n)
            &&& !d.pending
            &&& d.input == c.input
            &&& d.selected_model == c.selected_model
            &&& d.tick == c.tick
            &&& d.quit == c.quit
            &&& d.tool_log == c.tool_log
        }),
        forall|lines: Seq<Seq<char>>|
            c.chat == #[trigger] lines.push("< …"@) ==> c.drained(Arrival::Reply(s)).chat
                == lines.push("< "@ + words),
        c.chat.len() == 0 || c.chat.last() != "< …"@ ==> c.drained(Arrival::Reply(s)).chat
            == c.chat.push("< "@ + words),
{
    law_trim_leaves_the_core(lead, words, trail);
    let d = c.drained(Arrival::Reply(s));
    let grown = c.history + seq![Turn { role: "assistant"@, content: words }];
    let n = grown.len() as int;
    assert(c.history.push(Turn { role: "assistant"@, content: words }) =~= grown);
    if n > 48 {
        assert(grown.skip(n - 48) =~= grown.subrange(n - 48, n));
    }
    assert forall|lines: Seq<Seq<char>>| c.chat == #[trigger] lines.push("< …"@) implies d.chat
        == lines.push("< "@ + words) by {
        assert(c.chat.drop_last() =~= lines);
    }
}

/// A failure, and an exchange that ends without a word, are reported in the
/// placeholder's place, and take back the user's turn at the end of the conversation.
/// Nothing else changes, whatever has been typed meanwhile.
pub proof fn law_failure_is_reported(c: Cockpit, a: Arrival, report: Seq<char>)
    requires
        c.pending,
        (a matches Arrival::Failed(reason) && report == "[err] "@ + reason@) || (a is Dropped
            && report == "[err] chat task dropped without reply"@),
    ensures
        ({
            let d = c.drained(a);
            &&& !d.pending
            &&& d.input == c.input
            &&& d.selected_model == c.selected_model
            &&& d.tick == c.tick
            &&& d.quit == c.quit
            &&& d.tool_log == c.tool_log
        }),
        forall|lines: Seq<Seq<char>>|
            c.chat == #[trigger] lines.push("< …"@) ==> c.drained(a).chat == lines.push(report),
        c.chat.len() == 0 || c.chat.last() != "< …"@ ==> c.drained(a).chat == c.chat.push(report),
        forall|before: Seq<Turn>, own: Turn|
            c.history == #[trigger] before.push(own) && own.role == "user"@ ==> c.drained(
                a,
            ).history == before,
        c.history.len() == 0 || c.history.last().role != "user"@ ==> c.drained(a).history
            == c.history,
{
    let d = c.drained(a);
    assert forall|lines: Seq<Seq<char>>| c.chat == #[trigger] lines.push("< …"@) implies d.chat
        == lines.push(report) by {
        assert(c.chat.drop_last() =~= lines);
    }
    assert forall|before: Seq<Turn>, own: Turn|
        c.history == #[trigger] before.push(own) && own.role == "user"@ implies d.history
        == before by {
        assert(c.history.drop_last() =~= before);
    }
}

/// Where no request is under way, nothing arrives, and where nothing has come yet,
/// nothing changes.
pub proof fn law_nothing_arrives_unasked(c: Cockpit, a: Arrival)
    ensures
        !c.pending ==> c.drained(a) == c,
        c.drained(Arrival::Waiting) == c,
{
}

/// However long a reply is awaited, and whatever is typed meanwhile, it completes the
/// conversation with the turn that was sent and the assistant's: the newest 48 of all.
/// A failure leaves the conversation as it was before.
pub proof fn law_awaited_reply_completes_conversation(
    c: Cockpit,
    moves: Seq<Move>,
    s: String,
    lead: Seq<char>,
    words: Seq<char>,
    trail: Seq<char>,
)
    requires
        forall|i: int| 0 <= i < moves.len() ==> waits(#[trigger] moves[i]),
        s@ == lead + words + trail,
        forall|i: int| 0 <= i < lead.len() ==> is_white(#[trigger] lead[i]),
        forall|i: int| 0 <= i < trail.len() ==> is_white(#[trigger] trail[i]),
        words.len() > 0 ==> !is_white(words[0]) && !is_white(words.last()),
    ensures
        ({
            let d = played(c.sent(), moves).drained(Arrival::Reply(s));
            let grown = c.history + seq![
                Turn { role: "user"@, content: c.input },
                Turn { role: "assistant"@, content: words },
            ];
            let n = grown.len() as int;
            &&& n <= 48 ==> d.history == grown
            &&& n > 48 ==> d.history == grown.subrange(n - 48, n)
            &&& d.chat == c.chat + seq!["> "@ + c.input, "< "@ + words]
        }),
        played(c.sent(), moves).drained(Arrival::Failed(s)).history == c.history,
        played(c.sent(), moves).drained(Arrival::Dropped).history == c.history,
{
    law_waiting_disturbs_nothing(c, moves);
    let waiting = played(c.sent(), moves);
    law_reply_joins_conversation(waiting, s, lead, words, trail);
    assert(c.history.push(Turn { role: "user"@, content: c.input }) + seq![
        Turn { role: "assistant"@, content: words },
    ] =~= c.history + seq![
        Turn { role: "user"@, content: c.input },
        Turn { role: "assistant"@, content: words },
    ]);
    let lines = c.chat.push("> "@ + c.input);
    assert(waiting.chat == lines.push("< …"@));
    assert(lines.push("< "@ + words) =~= c.chat + seq!["> "@ + c.input, "< "@ + words]);
    assert(waiting.failed("[err] "@ + s@).history == c.history);
    assert(waiting.failed("[err] chat task dropped without reply"@).history == c.history);
}

/// The tick after `tick`, where the count starts anew behind the largest number.
proof fn lemma_next_tick(c: Cockpit)
    ensures
        c.ticked() == (Cockpit { tick: ((c.tick + 1) % 0x1_0000_0000_0000_0000) as u64, ..c }),
{
}

/// The enter key sends the input exactly where there is some, no request is under way,
/// and the model server is alive: the input moves to the end of the transcript, where
/// the placeholder follows it, and to the end of the conversation as the user's turn.
/// Elsewhere the key only reports a model server that is down, and that only where no
/// request is under way. No other key does either.
pub proof fn law_enter_sends(c: Cockpit, alive: bool, models: nat)
    ensures
        ({
            let d = c.stepped(Event::Press(Key::Enter), alive, models);
            let sends = c.input.len() > 0 && !c.pending && alive;
            &&& c.sends(Event::Press(Key::Enter), alive) == sends
            &&& sends ==> d.chat == c.chat + seq!["> "@ + c.input, "< …"@]
            &&& sends ==> d.history == c.history + seq![Turn { role: "user"@, content: c.input }]
            &&& sends ==> d.input.len() == 0
            &&& sends ==> d.pending
            &&& !sends ==> d.history == c.history && d.input == c.input && d.pending == c.pending
            &&& !alive && !c.pending ==> d.chat == c.chat + seq!["[err] llama-server unreachable"@]
            &&& !sends && (alive || c.pending) ==> d.chat == c.chat
            &&& d.tick == (c.tick + 1) % 0x1_0000_0000_0000_0000
            &&& d.selected_model == c.selected_model
            &&& d.quit == c.quit
            &&& d.tool_log == c.tool_log
        }),
        forall|e: Event|
            e != Event::Press(Key::Enter) ==> !c.sends(e, alive) && (#[trigger] c.stepped(
                e,
                alive,
                models,
            )).chat == c.chat && c.stepped(e, alive, models).history == c.history && c.stepped(
                e,
                alive,
                models,
            ).pending == c.pending && c.stepped(e, alive, models).tool_log == c.tool_log,
{
    assert(c.chat.push("> "@ + c.input).push("< …"@) =~= c.chat + seq![
        "> "@ + c.input,
        "< …"@,
    ]);
    assert(c.chat.push("[err] llama-server unreachable"@) =~= c.chat + seq![
        "[err] llama-server unreachable"@,
    ]);
}

/// Every character but `q` is typed at the end of the input, and the backspace key
/// takes the last one off, where there is one; both leave all but the tick alone.
pub proof fn law_typing_edits_input(c: Cockpit, x: char, alive: bool, models: nat)
    ensures
        x != 'q' ==> c.stepped(Event::Press(Key::Char(x)), alive, models) == (Cockpit {
            input: c.input + seq![x],
            tick: ((c.tick + 1) % 0x1_0000_0000_0000_0000) as u64,
            ..c
        }),
        c.input.len() > 0 ==> c.stepped(Event::Press(Key::Backspace), alive, models) == (Cockpit {
            input: c.input.take(c.input.len() - 1),
            tick: ((c.tick + 1) % 0x1_0000_0000_0000_0000) as u64,
            ..c
        }),
        c.input.len() == 0 ==> c.stepped(Event::Press(Key::Backspace), alive, models) == (Cockpit {
            tick: ((c.tick + 1) % 0x1_0000_0000_0000_0000) as u64,
            ..c
        }),
{
    lemma_next_tick(c);
    assert(c.input.push(x) =~= c.input + seq![x]);
    assert(c.input.len() > 0 ==> c.input.drop_last() =~= c.input.take(c.input.len() - 1));
}

/// The arrow keys move the selection by one place: up as far as the first model, down
/// as far as the last. They leave all else but the tick alone.
pub proof fn law_arrows_move_selection(c: Cockpit, alive: bool, models: nat)
    ensures
        c.stepped(Event::Press(Key::Up), alive, models) == (Cockpit {
            selected_model: if c.selected_model > 0 {
                (c.selected_model - 1) as nat
            } else {
                0
            },
            tick: ((c.tick + 1) % 0x1_0000_0000_0000_0000) as u64,
            ..c
        }),
        c.stepped(Event::Press(Key::Down), alive, models) == (Cockpit {
            selected_model: if c.selected_model + 1 < models {
                c.selected_model + 1
            } else {
                c.selected_model
            },
            tick: ((c.tick + 1) % 0x1_0000_0000_0000_0000) as u64,
            ..c
        }),
{
    lemma_next_tick(c);
}

/// The escape key and `q` close the cockpit, and do no more. Other keys, and a round
/// without a key, only count the tick.
pub proof fn law_other_rounds(c: Cockpit, alive: bool, models: nat)
    ensures
        ({
            let next = Cockpit {
                tick: ((c.tick + 1) % 0x1_0000_0000_0000_0000) as u64,
                ..c
            };
            let closed = Cockpit { quit: true, ..next };
            &&& c.stepped(Event::Press(Key::Esc), alive, models) == closed
            &&& c.stepped(Event::Press(Key::Char('q')), alive, models) == closed
            &&& c.stepped(Event::Press(Key::Other), alive, models) == next
            &&& c.stepped(Event::Idle, alive, models) == next
        }),
{
    lemma_next_tick(c);
}

/// The cockpit starts with a greeting in the transcript and one in the tool log, and
/// is otherwise blank.
pub proof fn law_boot_greets()
    ensures
        booted().chat == seq!["[boot] Drowned God cockpit online."@],
        booted().tool_log == seq!["[boot] telemetry streaming."@],
        booted().history.len() == 0,
        booted().input.len() == 0,
        booted().selected_model == 0,
        booted().tick == 0,
        !booted().quit,
        !booted().pending,
        blank().chat.len() == 0,
        blank().tool_log.len() == 0,
        blank().history.len() == 0,
        blank().input.len() == 0,
        blank().selected_model == 0,
        blank().tick == 0,
        !blank().quit,
        !blank().pending,
{
}

/// The newest elements are the last ones, in their order, and all where there are no
/// more.
pub proof fn law_newest_are_last<A>(older: Seq<A>, newer: Seq<A>)
    ensures
        newest(older + newer, newer.len()) == newer,
        forall|n: nat| n >= newer.len() ==> #[trigger] newest(newer, n) == newer,
{
    assert(newest(older + newer, newer.len()) =~= newer);
}

} // verus!
