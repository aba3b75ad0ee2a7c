//! The test-only fake completion provider: its client and model handles, and
//! what it reads of a chat history to match a scripted response (the latest
//! user or system text, and whether the last user turn carried a tool result).
use vstd::prelude::*;

use crate::text::{concat, concat3};

verus! {

/// One item of a user (or system) message.
#[derive(Debug, Clone)]
pub enum UserContent {
    Text(String),
    Image,
    ToolResult,
}

/// One message of a chat history.
#[derive(Debug, Clone)]
pub enum Message {
    User { content: Vec<UserContent> },
    Assistant,
    System { content: Vec<UserContent> },
}

/// The texts of a message's items, in order.
pub open spec fn texts_of(content: Seq<UserContent>) -> Seq<Seq<char>>
    decreases content.len(),
{
    if content.len() == 0 {
        Seq::empty()
    } else {
        let rest = texts_of(content.drop_last());
        match content.last() {
            UserContent::Text(t) => rest.push(t@),
            _ => rest,
        }
    }
}

/// Pieces joined with newlines (`[..].join("\n")`).
pub open spec fn join_lines(pieces: Seq<Seq<char>>) -> Seq<char>
    decreases pieces.len(),
{
    if pieces.len() == 0 {
        Seq::empty()
    } else if pieces.len() == 1 {
        pieces[0]
    } else {
        join_lines(pieces.drop_last()) + "\n"@ + pieces.last()
    }
}

/// The text of a message: its text items joined with newlines.
pub open spec fn content_text(content: Seq<UserContent>) -> Seq<char> {
    join_lines(texts_of(content))
}

/// The text of the latest user or system message, if any.
pub open spec fn latest_text(history: Seq<Message>) -> Option<Seq<char>>
    decreases history.len(),
{
    if history.len() == 0 {
        None
    } else {
        match history.last() {
            Message::User { content } => Some(content_text(content@)),
            Message::System { content } => Some(content_text(content@)),
            Message::Assistant => latest_text(history.drop_last()),
        }
    }
}

/// Whether the last user message carries a tool result (false without one).
pub open spec fn last_user_has_tool_result(history: Seq<Message>) -> bool
    decreases history.len(),
{
    if history.len() == 0 {
        false
    } else {
        match history.last() {
            Message::User { content } => exists|i: int|
                0 <= i < content@.len() && (#[trigger] content@[i]) is ToolResult,
            _ => last_user_has_tool_result(history.drop_last()),
        }
    }
}

/// The text items of a message joined with newlines.
pub fn user_content_text(content: &Vec<UserContent>) -> (r: String)
    ensures
        r@ == content_text(content@),
{
    let mut out = String::new();
    let mut seen: usize = 0;
    let mut i: usize = 0;
    while i < content.len()
        invariant
            i <= content.len(),
            seen <= i,
            seen == texts_of(content@.subrange(0, i as int)).len(),
            out@ == join_lines(texts_of(content@.subrange(0, i as int))),
        decreases content.len() - i,
    {
        let ghost pre = content@.subrange(0, i as int);
        assert(content@.subrange(0, i + 1).drop_last() =~= pre);
        match &content[i] {
            UserContent::Text(t) => {
                if seen == 0 {
                    out = t.clone();
                } else {
                    out = concat3(out.as_str(), "\n", t.as_str());
                }
                proof {
                    assert(texts_of(content@.subrange(0, i + 1)) == texts_of(pre).push(t@));
                    assert(texts_of(pre).push(t@).drop_last() =~= texts_of(pre));
                }
                seen += 1;
            },
            _ => {},
        }
        i += 1;
    }
    assert(content@.subrange(0, content.len() as int) =~= content@);
    out
}

/// The text of the latest user or system message (`None` without one).
pub fn latest_user_text(history: &Vec<Message>) -> (r: Option<String>)
    ensures
        r matches Some(t) ==> latest_text(history@) == Some(t@),
        r is None ==> latest_text(history@) is None,
{
    let mut i: usize = history.len();
    assert(history@.subrange(0, i as int) =~= history@);
    while i > 0
        invariant
            i <= history.len(),
            latest_text(history@) == latest_text(history@.subrange(0, i as int)),
        decreases i,
    {
        assert(history@.subrange(0, i as int).drop_last() =~= history@.subrange(0, i - 1));
        match &history[i - 1] {
            Message::User { content } => {
                return Some(user_content_text(content));
            },
            Message::System { content } => {
                return Some(user_content_text(content));
            },
            Message::Assistant => {},
        }
        i -= 1;
    }
    None
}

fn has_tool_result(content: &Vec<UserContent>) -> (r: bool)
    ensures
        r == exists|i: int| 0 <= i < content@.len() && (#[trigger] content@[i]) is ToolResult,
{
    let mut k: usize = 0;
    while k < content.len()
        invariant
            k <= content.len(),
            forall|j: int| 0 <= j < k ==> !((#[trigger] content@[j]) is ToolResult),
        decreases content.len() - k,
    {
        if let UserContent::ToolResult = &content[k] {
            assert(content@[k as int] is ToolResult);
            return true;
        }
        k += 1;
    }
    false
}

/// Whether the last user message carries a tool result.
pub fn last_user_is_tool_result(history: &Vec<Message>) -> (r: bool)
    ensures
        r == last_user_has_tool_result(history@),
{
    let mut i: usize = history.len();
    assert(history@.subrange(0, i as int) =~= history@);
    while i > 0
        invariant
            i <= history.len(),
            last_user_has_tool_result(history@) == last_user_has_tool_result(
                history@.subrange(0, i as int),
            ),
        decreases i,
    {
        assert(history@.subrange(0, i as int).drop_last() =~= history@.subrange(0, i - 1));
        match &history[i - 1] {
            Message::User { content } => {
                return has_tool_result(content);
            },
            _ => {},
        }
        i -= 1;
    }
    false
}

/// Handle on a loaded fixture; remembers which once-only responses have
/// been consumed.
#[derive(Debug, Clone)]
pub struct Client {
    consumed: Vec<usize>,
}

/// The fake model bound to one model id.
#[derive(Debug, Clone)]
pub struct CompletionModel {
    consumed: Vec<usize>,
    model: String,
}

/// Raw response metadata of the fake provider.
#[derive(Debug, Clone)]
pub struct FakeRawResponse {
    pub model: String,
    pub matched_response_index: Option<usize>,
}

impl Client {
    /// A client whose once-only responses are all still available.
    pub fn new() -> (r: Self)
        ensures
            r.consumed_view() == Seq::<usize>::empty(),
    {
        Client { consumed: Vec::new() }
    }

    /// The indices of the once-only responses already consumed.
    pub closed spec fn consumed_view(&self) -> Seq<usize> {
        self.consumed@
    }

    /// The fake model for `model`, starting from a copy of this client's
    /// consumed responses. The copy is not shared: a response the model
    /// consumes later is not seen by the client or by its other models.
    pub fn completion_model(&self, model: &str) -> (r: CompletionModel)
        ensures
            r.name_view() == model@,
            r.consumed_view() == self.consumed_view(),
    {
        CompletionModel { consumed: self.consumed.clone(), model: String::from_str(model) }
    }
}

impl CompletionModel {
    /// The model id the fake provider was constructed for.
    pub closed spec fn name_view(&self) -> Seq<char> {
        self.model@
    }

    /// The indices of the once-only responses already consumed.
    pub closed spec fn consumed_view(&self) -> Seq<usize> {
        self.consumed@
    }

    /// The model id this fake provider was constructed for.
    pub fn model_name(&self) -> (r: &str)
        ensures
            r@ == self.name_view(),
    {
        self.model.as_str()
    }

    /// The raw response metadata for the response matched at `index`.
    pub fn raw_response(&self, index: Option<usize>) -> (r: FakeRawResponse)
        ensures
            r.model@ == self.name_view(),
            r.matched_response_index == index,
    {
        FakeRawResponse { model: self.model.clone(), matched_response_index: index }
    }
}

} // verus!
