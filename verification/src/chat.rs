//! One chat exchange with the model server: what is asked, where it is sent, and
//! what an answer amounts to.

use crate::http::{code_text, is_status, is_success, reason, status_text};
use crate::single::Single;
use crate::text::{chars_of, decimal, join, slice_copy, string_of};
use vstd::prelude::*;

verus! {

/// The number of tokens that a reply may have.
pub const MAX_TOKENS: u32 = 1024;

/// The number of characters of a refusal's body that are reported.
pub const SNIPPET: usize = 300;

/// One message of a conversation.
#[derive(Debug, Clone)]
pub struct ChatMessage {
    pub role: String,
    pub content: String,
}

/// What a message says, and in whose name.
#[verifier::ext_equal]
pub struct Turn {
    pub role: Seq<char>,
    pub content: Seq<char>,
}

impl View for ChatMessage {
    type V = Turn;

    open spec fn view(&self) -> Turn {
        Turn { role: self.role@, content: self.content@ }
    }
}

/// The turns of a conversation.
pub open spec fn turns(v: Seq<ChatMessage>) -> Seq<Turn> {
    v.map_values(|m: ChatMessage| m@)
}

/// Copies a conversation.
pub fn copy_messages(v: &Vec<ChatMessage>) -> (r: Vec<ChatMessage>)
    ensures
        turns(r@) == turns(v@),
{
    let mut r: Vec<ChatMessage> = Vec::new();
    let mut i: usize = 0;
    while i < v.len()
        invariant
            i <= v.len(),
            turns(r@) == turns(v@).take(i as int),
        decreases v.len() - i,
    {
        let ghost before = r@;
        let m: ChatMessage = ChatMessage {
            role: v[i].role.clone(),
            content: v[i].content.clone(),
        };
        r.push(m);
        assert(turns(r@) =~= turns(before).push(turns(v@)[i as int]));
        assert(turns(v@).take(i as int + 1) =~= turns(v@).take(i as int).push(turns(v@)[i as int]));
        i += 1;
    }
    assert(turns(v@).take(v@.len() as int) =~= turns(v@));
    r
}

/// A completion request: the conversation so far, for a model.
pub struct ChatRequest {
    pub model: String,
    pub messages: Vec<ChatMessage>,
    pub temperature: Single,
    pub max_tokens: u32,
}

/// Builds the request that continues `history` with `model`, at a temperature of
/// 0.7.
pub fn request(model: &String, history: &Vec<ChatMessage>) -> (r: ChatRequest)
    ensures
        r.model@ == model@,
        turns(r.messages@) == turns(history@),
        r.temperature.bits == 0x3f33_3333,
        r.max_tokens == MAX_TOKENS,
        r.max_tokens == 1024,
{
    ChatRequest {
        model: model.clone(),
        messages: copy_messages(history),
        temperature: Single { bits: 0x3f33_3333 },
        max_tokens: MAX_TOKENS,
    }
}

/// How an exchange with the server went.
pub enum Outcome {
    /// The request could not be sent, or no answer came.
    PostFailed,
    /// The server answered with this status and body; `choices` is `None` where the
    /// body is no list of completions.
    Answered { status: u16, body: String, choices: Option<Vec<ChatMessage>> },
}

/// The first `n` characters of `s`.
pub open spec fn first_chars(s: Seq<char>, n: nat) -> Seq<char> {
    if s.len() <= n {
        s
    } else {
        s.take(n as int)
    }
}

/// What is reported of a refusal with the given status text and body.
pub open spec fn refusal_text(status: Seq<char>, body: Seq<char>) -> Seq<char> {
    "server returned "@ + status + ": "@ + first_chars(body, SNIPPET as nat)
}

/// Words the report of a refusal.
pub fn refusal(status: &str, body: &str) -> (r: String)
    ensures
        r@ == refusal_text(status@, body@),
{
    let body: Vec<char> = chars_of(body);
    let n: usize = if body.len() <= SNIPPET {
        body.len()
    } else {
        SNIPPET
    };
    let snippet: Vec<char> = slice_copy(&body, 0, n);
    assert(snippet@ =~= first_chars(body@, SNIPPET as nat));
    let head: String = join(join("server returned ", status).as_str(), ": ");
    join(head.as_str(), string_of(snippet.as_slice()).as_str())
}

/// What a result says.
pub open spec fn said(r: Result<String, String>) -> Result<Seq<char>, Seq<char>> {
    match r {
        Ok(s) => Ok(s@),
        Err(e) => Err(e@),
    }
}

/// What an answer amounts to: an error unless its status tells of success, its body
/// is a list of completions, and the list is not empty; else the words of the first
/// completion.
pub open spec fn judged(
    status: u16,
    body: Seq<char>,
    choices: Option<Vec<ChatMessage>>,
) -> Result<Seq<char>, Seq<char>> {
    if !(200 <= status <= 299) {
        Err(refusal_text(status_text(status), body))
    } else {
        match choices {
            None => Err("response not valid JSON"@),
            Some(v) => if v@.len() == 0 {
                Err("response had no choices"@)
            } else {
                Ok(v@[0].content@)
            },
        }
    }
}

/// What an exchange amounts to.
pub open spec fn concluded(o: Outcome) -> Result<Seq<char>, Seq<char>> {
    match o {
        Outcome::PostFailed => Err("POST failed"@),
        Outcome::Answered { status, body, choices } => judged(status, body@, choices),
    }
}

/// Turns an answer into the assistant's words, those of the first completion, or into
/// a report of what is wrong with it.
pub fn judge(
    status: u16,
    body: &str,
    choices: &Option<Vec<ChatMessage>>,
) -> (r: Result<String, String>)
    requires
        is_status(status),
    ensures
        said(r) == judged(status, body@, *choices),
{
    if !is_success(status) {
        return Err(refusal(code_text(status).as_str(), body));
    }
    match choices {
        None => Err("response not valid JSON".to_string()),
        Some(v) => if v.len() == 0 {
            Err("response had no choices".to_string())
        } else {
            Ok(v[0].content.clone())
        },
    }
}

/// Turns the outcome of an exchange into the assistant's words, or into a report of
/// what went wrong.
pub fn conclude(o: &Outcome) -> (r: Result<String, String>)
    requires
        o matches Outcome::Answered { status, .. } ==> is_status(*status),
    ensures
        said(r) == concluded(*o),
{
    match o {
        Outcome::PostFailed => Err("POST failed".to_string()),
        Outcome::Answered { status, body, choices } => judge(*status, body.as_str(), choices),
    }
}

/// An exchange succeeds exactly where an answer came, its status tells of success,
/// and its body lists at least one completion; the words are then those of the first.
pub proof fn law_success_is_earned(o: Outcome)
    ensures
        concluded(o) is Ok <==> (o matches Outcome::Answered { status, choices, .. } && 200
            <= status <= 299 && (choices matches Some(v) && v@.len() > 0)),
        concluded(o) is Ok ==> concluded(o)->Ok_0 == o->choices->0@[0].content@,
{
}

/// The report of a refusal holds at most 300 characters of the body, whatever the
/// server sent.
pub proof fn law_refusal_is_short(status: Seq<char>, body: Seq<char>)
    ensures
        refusal_text(status, body).len() <= 18 + status.len() + SNIPPET,
        body.len() <= SNIPPET ==> first_chars(body, SNIPPET as nat) == body,
{
    reveal_strlit("server returned ");
    reveal_strlit(": ");
}

/// All messages of a conversation are there, in their order, each with its role and
/// its content.
pub proof fn law_turns_are_whole(v: Seq<ChatMessage>)
    ensures
        turns(v).len() == v.len(),
        forall|i: int|
            0 <= i < v.len() ==> (#[trigger] turns(v)[i]).role == v[i].role@ && turns(v)[i].content
                == v[i].content@,
{
}

/// A refusal is reported with its status and the first 300 characters of the body,
/// whatever list the body may hold besides.
pub proof fn law_refusal_is_reported(
    status: u16,
    head: Seq<char>,
    tail: Seq<char>,
    choices: Option<Vec<ChatMessage>>,
)
    requires
        status < 200 || status > 299,
        head.len() == 300 || (head.len() < 300 && tail.len() == 0),
    ensures
        judged(status, head + tail, choices) == Err::<Seq<char>, Seq<char>>(
            "server returned "@ + decimal(status as nat) + " "@ + reason(status) + ": "@ + head,
        ),
        forall|s: Seq<char>|
            #[trigger] refusal_text(s, head + tail) == "server returned "@ + s + ": "@ + head,
{
    assert(first_chars(head + tail, 300) =~= head);
    assert("server returned "@ + status_text(status) + ": "@ + head =~= "server returned "@
        + decimal(status as nat) + " "@ + reason(status) + ": "@ + head);
}

/// A successful answer gives the words of its first completion; without a list of
/// completions, or with an empty one, it is reported as such. So is a request that
/// went unanswered.
pub proof fn law_answer_is_judged(status: u16, body: String, choices: Option<Vec<ChatMessage>>)
    ensures
        200 <= status && status <= 299 && choices is None ==> judged(status, body@, choices)
            == Err::<Seq<char>, Seq<char>>("response not valid JSON"@),
        200 <= status && status <= 299 && (choices matches Some(v) && v@.len() == 0) ==> judged(
            status,
            body@,
            choices,
        ) == Err::<Seq<char>, Seq<char>>("response had no choices"@),
        200 <= status && status <= 299 && (choices matches Some(v) && v@.len() > 0) ==> judged(
            status,
            body@,
            choices,
        ) == Ok::<Seq<char>, Seq<char>>(choices->0@[0].content@),
        concluded(Outcome::Answered { status, body, choices }) == judged(status, body@, choices),
        concluded(Outcome::PostFailed) == Err::<Seq<char>, Seq<char>>("POST failed"@),
{
}

/// What is said is what the result holds.
pub proof fn law_result_is_said(s: String)
    ensures
        said(Ok(s)) == Ok::<Seq<char>, Seq<char>>(s@),
        said(Err(s)) == Err::<Seq<char>, Seq<char>>(s@),
{
}

} // verus!
