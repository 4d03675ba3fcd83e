//! The conversation with the model: messages, requests, streamed replies.

use vstd::prelude::*;
use vstd::string::*;

verus! {

/// Where the model is asked.
pub const API_URL: &'static str = "https://ollama.com/api/chat";

/// The model that is asked.
pub const MODEL: &'static str = "nemotron-3-super:cloud";

/// What the model is told before anything else.
pub const SYSTEM_PROMPT: &'static str = "You are an advanced, autonomous CLI developer assistant with real-time web access and local system access.
- If you need to run a local terminal command, output EXACTLY: [RUN: command_to_execute].
- If you need to search the web for recent info, output EXACTLY: [WEB_SEARCH: your search query].
Do not write anything else inside the brackets. After calling a tool, wait for the system output, analyze it, and present a formatted final response.

ПРАВИЛО ФОРМАТИРОВАНИЯ: Если ты предлагаешь пользователю выбрать дальнейшие варианты действий, продолжить обсуждение или выбрать из альтернатив, ты ОБЯЗАН выводить эти варианты исключительно в виде пронумерованного списка (например: 1. ..., 2. ..., 3. ...), где каждый пункт начинается с новой строки. Не пиши варианты выбора сплошным текстом.

ПРАВИЛО АВТОНОМНОГО ИССЛЕДОВАНИЯ: Когда пользователь просит дать рекомендации, оценить состояние проекта, предложить улучшения или проанализировать код, Вы ОБЯЗАНЫ сначала собрать минимальный контекст о проекте: 1. Список файлов и каталогов верхнего уровня (ls -la). 2. Файл манифеста/конфигурации (Cargo.toml, package.json, pyproject.toml и т.п.) – посмотрите зависимости. 3. Структуру исходного каталога (find src -type f -name \"*.rs\" | head -20 или аналог для другого языка). 4. При наличии – короткое описание из README. Только после этого делайте выводы и давайте рекомендации, оформляя их в виде пронумерованного списка (как требуется в правиле форматирования).";

/// The role of the instructions that open a conversation.
pub const ROLE_SYSTEM: &'static str = "system";

/// The role of the user's words.
pub const ROLE_USER: &'static str = "user";

/// The role of the model's words.
pub const ROLE_ASSISTANT: &'static str = "assistant";

/// The role of what a command has returned.
pub const ROLE_TOOL: &'static str = "tool";

/// One message of a conversation.
#[derive(Debug)]
pub struct Message {
    pub role: String,
    pub content: String,
}

/// A message as a mathematical value.
pub struct MessageView {
    pub role: Seq<char>,
    pub content: Seq<char>,
}

impl View for Message {
    type V = MessageView;

    open spec fn view(&self) -> MessageView {
        MessageView { role: self.role@, content: self.content@ }
    }
}

impl Clone for Message {
    fn clone(&self) -> (r: Self)
        ensures
            r@ == self@,
    {
        Message { role: self.role.clone(), content: self.content.clone() }
    }
}

impl Message {
    /// A message of `role`.
    pub fn new(role: &str, content: String) -> (r: Self)
        ensures
            r@ == message(role@, content@),
    {
        Message { role: role.to_owned(), content }
    }
}

pub open spec fn message(role: Seq<char>, content: Seq<char>) -> MessageView {
    MessageView { role, content }
}

/// The messages of a conversation, in order.
pub open spec fn messages(history: Seq<Message>) -> Seq<MessageView> {
    history.map_values(|m: Message| m@)
}

/// A conversation that holds nothing but the instructions to the model.
pub fn new_history() -> (r: Vec<Message>)
    ensures
        messages(r@) == seq![message(ROLE_SYSTEM@, SYSTEM_PROMPT@)],
{
    let mut history: Vec<Message> = Vec::new();
    history.push(Message::new(ROLE_SYSTEM, SYSTEM_PROMPT.to_owned()));
    proof {
        assert(messages(history@) =~= seq![message(ROLE_SYSTEM@, SYSTEM_PROMPT@)]);
    }
    history
}

/// A request to continue a conversation.
#[derive(Debug)]
pub struct ChatRequest {
    pub model: String,
    pub messages: Vec<Message>,
    pub stream: bool,
}

/// The request that hands the whole conversation to the model and asks for a
/// streamed reply.
pub fn chat_request(history: &Vec<Message>) -> (r: ChatRequest)
    ensures
        r.model@ == MODEL@,
        messages(r.messages@) == messages(history@),
        r.stream,
{
    let mut copy: Vec<Message> = Vec::new();
    let mut i: usize = 0;
    while i < history.len()
        invariant
            i <= history.len(),
            messages(copy@) == messages(history@).take(i as int),
        decreases history.len() - i,
    {
        let ghost before = messages(copy@);
        copy.push(history[i].clone());
        proof {
            assert(messages(copy@) =~= before.push(history@[i as int]@));
            assert(before.push(history@[i as int]@) =~= messages(history@).take(i + 1));
        }
        i = i + 1;
    }
    proof {
        assert(messages(history@).take(i as int) =~= messages(history@));
    }
    ChatRequest { model: MODEL.to_owned(), messages: copy, stream: true }
}

/// One record of a streamed reply.
#[derive(Debug)]
pub struct StreamChunk {
    pub message: Option<Message>,
    pub done: Option<bool>,
}

/// A record of a streamed reply as a mathematical value.
pub struct ChunkView {
    pub message: Option<MessageView>,
    pub done: Option<bool>,
}

impl View for StreamChunk {
    type V = ChunkView;

    open spec fn view(&self) -> ChunkView {
        ChunkView {
            message: match self.message {
                Some(m) => Some(m@),
                None => None,
            },
            done: self.done,
        }
    }
}

/// The value of the header that authorizes requests.
pub fn bearer(token: &str) -> (r: String)
    ensures
        r@ == "Bearer "@ + token@,
{
    "Bearer ".to_owned().concat(token)
}

/// Every message stands in its conversation, in order, with its role and its
/// words.
pub proof fn messages_are_whole(history: Seq<Message>, role: Seq<char>, content: Seq<char>)
    ensures
        messages(history).len() == history.len(),
        forall|i: int|
            0 <= i < history.len() ==> (#[trigger] messages(history)[i]).role == history[i].role@
                && messages(history)[i].content == history[i].content@,
        message(role, content).role == role,
        message(role, content).content == content,
{
}

} // verus!
