//! Turning stored history and new user input into the ordered messages that
//! the completion service reads.
use vstd::prelude::*;
use crate::records::ChatHistory;

verus! {

/// Who speaks in a message.
#[derive(PartialEq, Eq, Structural, Clone, Copy, Debug)]
pub enum Role {
    User,
    Assistant,
}

/// One part of a message: text, or an image given as a URL or inline data.
pub enum ContentPart {
    Text(String),
    Image(String),
}

pub enum ContentPartView {
    Text(Seq<char>),
    Image(Seq<char>),
}

impl View for ContentPart {
    type V = ContentPartView;

    open spec fn view(&self) -> ContentPartView {
        match self {
            ContentPart::Text(s) => ContentPartView::Text(s@),
            ContentPart::Image(s) => ContentPartView::Image(s@),
        }
    }
}

/// One role-tagged message of a request.
pub struct ContextMessage {
    pub role: Role,
    pub parts: Vec<ContentPart>,
}

pub struct MessageView {
    pub role: Role,
    pub parts: Seq<ContentPartView>,
}

impl View for ContextMessage {
    type V = MessageView;

    open spec fn view(&self) -> MessageView {
        MessageView { role: self.role, parts: parts_view(self.parts@) }
    }
}

pub open spec fn parts_view(ps: Seq<ContentPart>) -> Seq<ContentPartView> {
    ps.map_values(|p: ContentPart| p@)
}

/// One image part per image, in order.
pub open spec fn image_parts(images: Seq<Seq<char>>) -> Seq<ContentPartView> {
    images.map_values(|im: Seq<char>| ContentPartView::Image(im))
}

pub open spec fn messages_view(ms: Seq<ContextMessage>) -> Seq<MessageView> {
    ms.map_values(|m: ContextMessage| m@)
}

pub open spec fn strings_view(v: Seq<String>) -> Seq<Seq<char>> {
    v.map_values(|s: String| s@)
}

pub open spec fn images_view(images: Option<Vec<String>>) -> Seq<Seq<char>> {
    match images {
        Some(v) => strings_view(v@),
        None => seq![],
    }
}

/// A message of one text part.
pub open spec fn text_message(role: Role, text: Seq<char>) -> MessageView {
    MessageView { role, parts: seq![ContentPartView::Text(text)] }
}

/// Each stored exchange as a user message (its question) followed by an
/// assistant message (its answer), in the order of the history.
pub open spec fn history_messages(history: Seq<ChatHistory>) -> Seq<MessageView> {
    Seq::new(
        2 * history.len(),
        |i: int|
            if i % 2 == 0 {
                text_message(Role::User, history[i / 2].question@)
            } else {
                text_message(Role::Assistant, history[i / 2].answer@)
            },
    )
}

/// The new user message: its text part, then one image part per image.
pub open spec fn user_message(text: Seq<char>, images: Seq<Seq<char>>) -> MessageView {
    MessageView {
        role: Role::User,
        parts: seq![ContentPartView::Text(text)] + image_parts(images),
    }
}

/// The whole request context: the history, then the new user message.
pub open spec fn context_messages(
    history: Seq<ChatHistory>,
    text: Seq<char>,
    images: Seq<Seq<char>>,
) -> Seq<MessageView> {
    history_messages(history).push(user_message(text, images))
}

fn text_part_message(role: Role, text: &String) -> (r: ContextMessage)
    ensures
        r@ == text_message(role, text@),
{
    let parts = vec![ContentPart::Text(text.clone())];
    let r = ContextMessage { role, parts };
    assert(parts_view(r.parts@) =~= seq![ContentPartView::Text(text@)]);
    r
}

/// The messages that replay a stored history, question before answer.
pub fn build_messages_from_history(history: &Vec<ChatHistory>) -> (r: Vec<ContextMessage>)
    requires
        2 * history@.len() <= usize::MAX,
    ensures
        messages_view(r@) == history_messages(history@),
{
    let mut messages: Vec<ContextMessage> = Vec::new();
    let mut i: usize = 0;
    while i < history.len()
        invariant
            i <= history@.len(),
            2 * history@.len() <= usize::MAX,
            messages_view(messages@) =~= history_messages(history@.take(i as int)),
        decreases history@.len() - i,
    {
        let entry = &history[i];
        let ghost before = messages_view(messages@);
        assert(before.len() == 2 * i);
        assert(messages@.len() == 2 * i);
        messages.push(text_part_message(Role::User, &entry.question));
        messages.push(text_part_message(Role::Assistant, &entry.answer));
        assert(history@.take(i + 1).take(i as int) =~= history@.take(i as int));
        let ghost hs = history_messages(history@.take(i + 1));
        let ghost now = messages_view(messages@);
        assert(messages@.len() == 2 * i + 2);
        assert(now.len() == hs.len());
        assert forall|k: int| 0 <= k < hs.len() implies now[k] == hs[k] by {
            if k < 2 * i {
                assert(k / 2 < i);
                assert(now[k] == before[k]);
            } else if k == 2 * i {
                assert(k / 2 == i);
            } else {
                assert(k / 2 == i);
            }
        }
        assert(now =~= hs);
        i = i + 1;
    }
    assert(history@.take(history@.len() as int) =~= history@);
    messages
}

/// The new user message: the text first, then each image in the order given.
pub fn build_user_message(message: &str, base64_images: Option<Vec<String>>) -> (r: ContextMessage)
    ensures
        r@ == user_message(message@, images_view(base64_images)),
{
    let ghost ims = images_view(base64_images);
    let mut parts: Vec<ContentPart> = Vec::new();
    parts.push(ContentPart::Text(message.to_owned()));
    match base64_images {
        Some(images) => {
            let mut i: usize = 0;
            while i < images.len()
                invariant
                    i <= images@.len(),
                    ims == strings_view(images@),
                    parts_view(parts@) =~= seq![ContentPartView::Text(message@)]
                        + image_parts(ims.take(i as int)),
                decreases images@.len() - i,
            {
                let ghost before = parts@;
                parts.push(ContentPart::Image(images[i].clone()));
                assert(ims.take(i + 1) =~= ims.take(i as int).push(images@[i as int]@));
                assert(image_parts(ims.take(i + 1))
                    =~= image_parts(ims.take(i as int)).push(
                    ContentPartView::Image(images@[i as int]@),
                ));
                assert(parts_view(parts@) =~= parts_view(before).push(ContentPartView::Image(images@[i as int]@)));
                i = i + 1;
            }
            assert(ims.take(images@.len() as int) =~= ims);
            assert(parts_view(parts@) =~= seq![ContentPartView::Text(message@)] + image_parts(ims));
        },
        None => {
            assert(image_parts(ims) =~= seq![]);
            assert(parts_view(parts@) =~= seq![ContentPartView::Text(message@)] + image_parts(ims));
        },
    }
    let r = ContextMessage { role: Role::User, parts };
    r
}

/// The full request context for a session: the stored history replayed in
/// order, then the new user message.
pub fn build_context(
    history: &Vec<ChatHistory>,
    message: &str,
    base64_images: Option<Vec<String>>,
) -> (r: Vec<ContextMessage>)
    requires
        2 * history@.len() < usize::MAX,
    ensures
        messages_view(r@) == context_messages(history@, message@, images_view(base64_images)),
{
    let mut messages = build_messages_from_history(history);
    let user = build_user_message(message, base64_images);
    messages.push(user);
    assert(messages_view(messages@) =~= context_messages(
        history@,
        message@,
        images_view(base64_images),
    ));
    messages
}

/// A replayed history has two messages per stored exchange, user and
/// assistant alternating, the user first.
pub proof fn lemma_history_alternates(history: Seq<ChatHistory>)
    ensures
        ({
            let ms = history_messages(history);
            &&& ms.len() == 2 * history.len()
            &&& forall|i: int| 0 <= i < ms.len() ==> #[trigger] ms[i].role == (if i % 2 == 0 {
                Role::User
            } else {
                Role::Assistant
            })
        }),
{
}

/// The context has two messages per stored exchange plus one: user and
/// assistant alternate through the history, and the last message is the
/// user's.
pub proof fn lemma_context_alternates(
    history: Seq<ChatHistory>,
    text: Seq<char>,
    images: Seq<Seq<char>>,
)
    ensures
        ({
            let ms = context_messages(history, text, images);
            &&& ms.len() == 2 * history.len() + 1
            &&& forall|i: int| 0 <= i < 2 * history.len() ==> #[trigger] ms[i].role == (if i % 2
                == 0 {
                Role::User
            } else {
                Role::Assistant
            })
            &&& ms[2 * history.len() as int].role == Role::User
        }),
{
}

} // verus!
