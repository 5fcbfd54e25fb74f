//! The Telegram channel.
use vstd::prelude::*;

use crate::agent::Attachment;
use crate::numbers::{parse_i64, signed_dec, signed_decimal, signed_value};
use crate::text::{cat, cat4, opt, owned, str_eq};
use crate::value::{lemma_lookup_push, no_fields, trees, Data, Fields, Json};

use super::{InboundMessage, InboundView, OutboundMessage};

verus! {

/// A bot, and the users that it hears.
#[derive(Debug)]
pub struct TelegramChannel {
    pub bot_token: String,
    pub bot_name: String,
    pub dm_policy: String,
    pub allowed_users: Vec<i64>,
}

/// Whether a user is heard: everybody is where nobody is listed.
pub open spec fn is_allowed(allowed: Seq<i64>, user: i64) -> bool {
    allowed.len() == 0 || allowed.contains(user)
}

/// The text of a message: its text, else its caption.
pub open spec fn text_of(message: Json) -> Option<Seq<char>> {
    match message.at("text"@).text() {
        Some(s) => Some(s),
        None => message.at("caption"@).text(),
    }
}

/// The user that sent a message: the id, and the first name.
pub open spec fn user_of(message: Json) -> Option<(int, Seq<char>)> {
    let user = message.at("from"@);
    match user.at("id"@).whole() {
        Some(id) => Some(
            (
                id,
                match user.at("first_name"@).text() {
                    Some(s) => s,
                    None => "Unknown"@,
                },
            ),
        ),
        None => None,
    }
}

/// The chat that a message stands in: the id, and the kind.
pub open spec fn chat_of(message: Json) -> Option<(int, Seq<char>)> {
    let chat = message.at("chat"@);
    match chat.at("id"@).whole() {
        Some(id) => Some(
            (
                id,
                match chat.at("type"@).text() {
                    Some(s) => s,
                    None => "private"@,
                },
            ),
        ),
        None => None,
    }
}

/// The message of an update, where it has one from a user that is heard.
pub open spec fn inbound_of(allowed: Seq<i64>, update: Json, now: i64) -> Option<InboundView> {
    let message = update.at("message"@);
    match (user_of(message), chat_of(message)) {
        (Some((user_id, user_name)), Some((chat_id, chat_type))) => if is_allowed(
            allowed,
            user_id as i64,
        ) {
            Some(
                InboundView {
                    id: "tg_"@ + signed_dec(
                        match message.at("message_id"@).whole() {
                            Some(id) => id,
                            None => 0,
                        },
                    ),
                    channel: "telegram"@,
                    account_id: Some("default"@),
                    peer_id: if chat_type == "private"@ {
                        "user:"@ + signed_dec(user_id)
                    } else {
                        "group:"@ + signed_dec(chat_id)
                    },
                    conversation_id: Some(signed_dec(chat_id)),
                    text: text_of(message),
                    attachments: seq![],
                    reply_to: match message.at("reply_to_message"@).at("message_id"@).whole() {
                        Some(id) => Some(signed_dec(id)),
                        None => None,
                    },
                    timestamp: now,
                    metadata: Json::Table(
                        no_fields().push(("user_name"@, Json::Str(user_name))).push(
                            ("chat_type"@, Json::Str(chat_type)),
                        ).push(("chat_id"@, Json::Num(chat_id))),
                    ),
                },
            )
        } else {
            None
        },
        _ => None,
    }
}

/// From which update on the next are asked for: the one after the last that has
/// an id.
pub open spec fn next_offset(offset: Option<int>, updates: Seq<Json>) -> Option<int>
    decreases updates.len(),
{
    if updates.len() == 0 {
        offset
    } else {
        match updates.last().at("update_id"@).whole() {
            Some(id) => Some(id + 1),
            None => next_offset(offset, updates.drop_last()),
        }
    }
}

/// The messages of updates, in order.
pub open spec fn inbound_all(allowed: Seq<i64>, updates: Seq<Json>, now: i64) -> Seq<InboundView>
    decreases updates.len(),
{
    if updates.len() == 0 {
        seq![]
    } else {
        let rest = inbound_all(allowed, updates.drop_last(), now);
        match inbound_of(allowed, updates.last(), now) {
            Some(m) => rest.push(m),
            None => rest,
        }
    }
}

/// What a list of messages says.
pub open spec fn inbound_views(v: Seq<InboundMessage>) -> Seq<InboundView> {
    Seq::new(v.len(), |i: int| v[i]@)
}

/// Whether there is an update after each of the updates.
pub open spec fn ids_in_range(updates: Seq<Json>) -> bool {
    forall|i: int|
        0 <= i < updates.len() ==> ((#[trigger] updates[i]).at("update_id"@).whole() matches Some(id)
            ==> id < i64::MAX)
}

/// Whether a message is that of an update whose user is allowed.
pub open spec fn is_from_allowed(
    allowed: Seq<i64>,
    update: Json,
    now: i64,
    message: InboundView,
) -> bool {
    inbound_of(allowed, update, now) == Some(message) && (user_of(update.at("message"@)) matches Some(
        (user, name),
    ) && is_allowed(allowed, user as i64))
}

/// Only users that are allowed are heard: every message that is taken from the
/// updates is that of an update whose user is allowed.
pub proof fn only_allowed_users_are_heard(allowed: Seq<i64>, updates: Seq<Json>, now: i64, i: int)
    requires
        0 <= i < inbound_all(allowed, updates, now).len(),
    ensures
        exists|k: int|
            0 <= k < updates.len() && is_from_allowed(
                allowed,
                #[trigger] updates[k],
                now,
                inbound_all(allowed, updates, now)[i],
            ),
    decreases updates.len(),
{
    let head = updates.drop_last();
    let all = inbound_all(allowed, updates, now);
    let rest = inbound_all(allowed, head, now);
    if i < rest.len() {
        only_allowed_users_are_heard(allowed, head, now, i);
        let k = choose|k: int|
            0 <= k < head.len() && is_from_allowed(allowed, #[trigger] head[k], now, rest[i]);
        assert(updates[k] == head[k]);
        assert(all[i] == rest[i]);
    } else {
        assert(is_from_allowed(allowed, updates[updates.len() - 1], now, all[i]));
    }
}

/// The user that sent a message.
pub fn extract_user(message: &Data) -> (r: Option<(i64, String)>)
    ensures
        match user_of(message@) {
            Some((id, name)) => r matches Some((i, n)) && i == id && n@ == name,
            None => r is None,
        },
{
    match message.get("from") {
        Some(user) => match user.i64_at("id") {
            Some(id) => {
                let name = match user.str_at("first_name") {
                    Some(s) => owned(s),
                    None => owned("Unknown"),
                };
                Some((id, name))
            },
            None => None,
        },
        None => None,
    }
}

/// The chat that a message stands in.
pub fn extract_chat(message: &Data) -> (r: Option<(i64, String)>)
    ensures
        match chat_of(message@) {
            Some((id, kind)) => r matches Some((i, k)) && i == id && k@ == kind,
            None => r is None,
        },
{
    match message.get("chat") {
        Some(chat) => match chat.i64_at("id") {
            Some(id) => {
                let kind = match chat.str_at("type") {
                    Some(s) => owned(s),
                    None => owned("private"),
                };
                Some((id, kind))
            },
            None => None,
        },
        None => None,
    }
}

/// The text of a message.
pub fn extract_text(message: &Data) -> (r: Option<String>)
    ensures
        opt(r) == text_of(message@),
{
    match message.str_at("text") {
        Some(s) => Some(owned(s)),
        None => match message.str_at("caption") {
            Some(s) => Some(owned(s)),
            None => None,
        },
    }
}

/// The updates in an answer of the service: none where it is no success.
pub open spec fn updates_in(answer: Json) -> Seq<Json> {
    if answer.at("ok"@).truth() == Some(true) {
        answer.at("result"@).elements()
    } else {
        seq![]
    }
}

/// The updates in an answer of the service.
pub fn read_updates(answer: &Data) -> (r: Vec<Data>)
    ensures
        trees(r@) == updates_in(answer@),
{
    let mut out: Vec<Data> = Vec::new();
    if answer.bool_at("ok") == Some(true) {
        match answer.list_at("result") {
            Some(items) => {
                let ghost all = trees(items@);
                for i in 0..items.len()
                    invariant
                        out@.len() == i,
                        all == trees(items@),
                        forall|j: int| 0 <= j < i ==> #[trigger] out@[j]@ == all[j],
                {
                    out.push(items[i].clone());
                }
                proof {
                    assert(trees(out@) =~= all);
                }
                return out;
            },
            None => {},
        }
    }
    proof {
        assert(trees(out@) =~= updates_in(answer@));
    }
    out
}

/// The name of the bot, as the service tells it.
pub fn bot_username(answer: &Data) -> (r: String)
    ensures
        r@ == (match answer@.at("result"@).at("username"@).text() {
            Some(s) => s,
            None => "unknown"@,
        }),
        r@ == username_in(answer@),
{
    match answer.get("result") {
        Some(result) => match result.str_at("username") {
            Some(s) => owned(s),
            None => owned("unknown"),
        },
        None => owned("unknown"),
    }
}

/// Whether there is an update after each of the updates.
pub fn check_ids(updates: &Vec<Data>) -> (r: bool)
    ensures
        r == ids_in_range(trees(updates@)),
{
    let ghost all = trees(updates@);
    let mut i: usize = 0;
    while i < updates.len()
        invariant
            i <= updates@.len(),
            all == trees(updates@),
            forall|j: int|
                0 <= j < i ==> ((#[trigger] all[j]).at("update_id"@).whole() matches Some(id) ==> id
                    < i64::MAX),
        decreases updates@.len() - i,
    {
        match updates[i].i64_at("update_id") {
            Some(id) => {
                if id == i64::MAX {
                    proof {
                        assert(all[i as int].at("update_id"@).whole() == Some(i64::MAX as int));
                    }
                    return false;
                }
            },
            None => {},
        }
        i = i + 1;
    }
    true
}

impl TelegramChannel {
    /// The channel of a bot.
    pub fn new(
        bot_token: String,
        bot_name: String,
        dm_policy: String,
        allowed_users: Vec<i64>,
    ) -> (r: TelegramChannel)
        ensures
            r.bot_token@ == bot_token@,
            r.bot_name@ == bot_name@,
            r.dm_policy@ == dm_policy@,
            r.allowed_users@ == allowed_users@,
    {
        TelegramChannel { bot_token, bot_name, dm_policy, allowed_users }
    }

    /// The name of the channel.
    pub fn id(&self) -> (r: &'static str)
        ensures
            r@ == "telegram"@,
    {
        "telegram"
    }

    /// The address of a method of the service.
    pub fn method_url(&self, method: &str) -> (r: String)
        ensures
            r@ == "https://api.telegram.org/bot"@ + self.bot_token@ + "/"@ + method@,
    {
        cat4("https://api.telegram.org/bot", self.bot_token.as_str(), "/", method)
    }

    /// The address that updates are asked for at.
    pub fn updates_url(&self, offset: Option<i64>) -> (r: String)
        ensures
            r@ == "https://api.telegram.org/bot"@ + self.bot_token@ + "/"@
                + "getUpdates?timeout=30"@ + (match offset {
                Some(n) => "&offset="@ + signed_dec(n as int),
                None => Seq::empty(),
            }),
            r@ == updates_address(self.bot_token@, offset),
    {
        let mut url = self.method_url("getUpdates?timeout=30");
        match offset {
            Some(n) => {
                let ghost start = url@;
                url.append(cat("&offset=", signed_decimal(n).as_str()).as_str());
            },
            None => {
                proof {
                    assert(url@ + Seq::<char>::empty() =~= url@);
                }
            },
        }
        url
    }

    /// Whether a user is heard.
    pub fn is_user_allowed(&self, user_id: i64) -> (r: bool)
        ensures
            r == is_allowed(self.allowed_users@, user_id),
    {
        if self.allowed_users.len() == 0 {
            return true;
        }
        let mut i: usize = 0;
        while i < self.allowed_users.len()
            invariant
                i <= self.allowed_users@.len(),
                forall|j: int| 0 <= j < i ==> self.allowed_users@[j] != user_id,
            decreases self.allowed_users@.len() - i,
        {
            if self.allowed_users[i] == user_id {
                proof {
                    assert(self.allowed_users@.contains(self.allowed_users@[i as int]));
                }
                return true;
            }
            i = i + 1;
        }
        false
    }

    /// The message of an update, where it has one from a user that is heard.
    pub fn read_update(&self, update: &Data, now: i64) -> (r: Option<InboundMessage>)
        ensures
            match inbound_of(self.allowed_users@, update@, now) {
                Some(m) => r is Some && r->0@ == m,
                None => r is None,
            },
    {
        let message = match update.get("message") {
            Some(m) => m,
            None => {
                return None;
            },
        };
        let (user_id, user_name) = match extract_user(message) {
            Some(u) => u,
            None => {
                return None;
            },
        };
        let (chat_id, chat_type) = match extract_chat(message) {
            Some(c) => c,
            None => {
                return None;
            },
        };
        if !self.is_user_allowed(user_id) {
            return None;
        }
        let peer_id = if str_eq(chat_type.as_str(), "private") {
            cat("user:", signed_decimal(user_id).as_str())
        } else {
            cat("group:", signed_decimal(chat_id).as_str())
        };
        let message_id: i64 = match message.i64_at("message_id") {
            Some(id) => id,
            None => 0,
        };
        let reply_to = match message.get("reply_to_message") {
            Some(replied) => match replied.i64_at("message_id") {
                Some(id) => Some(signed_decimal(id)),
                None => None,
            },
            None => None,
        };
        let mut f = Fields::new();
        f.put_str("user_name", user_name.as_str());
        f.put_str("chat_type", chat_type.as_str());
        f.put("chat_id", Data::Int(chat_id));
        let attachments: Vec<Attachment> = Vec::new();
        proof {
            assert(attachments@ =~= seq![]);
        }
        Some(
            InboundMessage {
                id: cat("tg_", signed_decimal(message_id).as_str()),
                channel: owned("telegram"),
                account_id: Some(owned("default")),
                peer_id,
                conversation_id: Some(signed_decimal(chat_id)),
                text: extract_text(message),
                attachments,
                reply_to,
                timestamp: now,
                metadata: f.done(),
            },
        )
    }

    /// Takes in updates: what comes back is from which update on the next are
    /// asked for, and the messages.
    pub fn on_updates(&self, offset: Option<i64>, updates: &Vec<Data>, now: i64) -> (r: (
        Option<i64>,
        Vec<InboundMessage>,
    ))
        requires
            ids_in_range(trees(updates@)),
        ensures
            r.0 == (match next_offset(
                match offset {
                    Some(n) => Some(n as int),
                    None => None,
                },
                trees(updates@),
            ) {
                Some(n) => Some(n as i64),
                None => None,
            }),
            inbound_views(r.1@) == inbound_all(self.allowed_users@, trees(updates@), now),
    {
        let ghost all = trees(updates@);
        let ghost start = match offset {
            Some(n) => Some(n as int),
            None => None,
        };
        let mut next = offset;
        let mut messages: Vec<InboundMessage> = Vec::new();
        proof {
            assert(all.take(0) =~= seq![]);
            assert(inbound_views(messages@) =~= seq![]);
        }
        for i in 0..updates.len()
            invariant
                all == trees(updates@),
                ids_in_range(all),
                (match next {
                    Some(n) => Some(n as int),
                    None => None,
                }) == next_offset(start, all.take(i as int)),
                inbound_views(messages@) == inbound_all(
                    self.allowed_users@,
                    all.take(i as int),
                    now,
                ),
        {
            let ghost before = inbound_views(messages@);
            let update = &updates[i];
            proof {
                assert(all.take(i + 1).drop_last() =~= all.take(i as int));
                assert(all.take(i + 1).last() == update@);
                assert(all[i as int] == update@);
            }
            match update.i64_at("update_id") {
                Some(id) => {
                    next = Some(id + 1);
                },
                None => {},
            }
            match self.read_update(update, now) {
                Some(m) => {
                    messages.push(m);
                    proof {
                        assert(inbound_views(messages@) =~= before.push(m@));
                    }
                },
                None => {},
            }
        }
        proof {
            assert(all.take(all.len() as int) =~= all);
        }
        (next, messages)
    }
}

/// The message that a message answers, where it names one by number.
pub open spec fn reply_id(reply_to: Option<Seq<char>>) -> Option<int> {
    match reply_to {
        Some(s) => signed_value(s),
        None => None,
    }
}

/// What is sent for a message.
pub open spec fn message_body(chat: Seq<char>, text: Seq<char>, reply: Option<int>) -> Json {
    let plain = no_fields().push(("chat_id"@, Json::Str(chat))).push(("text"@, Json::Str(text)));
    Json::Table(
        match reply {
            Some(id) => plain.push(("reply_to_message_id"@, Json::Num(id))),
            None => plain,
        },
    )
}

/// What is sent for a message.
pub fn send_body(message: &OutboundMessage) -> (r: Data)
    ensures
        r@ == message_body(message.target@, message.text@, reply_id(opt(message.reply_to))),
{
    let mut f = Fields::new();
    f.put_str("chat_id", message.target.as_str());
    f.put_str("text", message.text.as_str());
    match &message.reply_to {
        Some(s) => match parse_i64(s.as_str()) {
            Some(id) => f.put("reply_to_message_id", Data::Int(id)),
            None => {},
        },
        None => {},
    }
    f.done()
}

/// What tells a chat that an answer is being written.
pub open spec fn typing_body_tree(chat: Seq<char>) -> Json {
    Json::Table(
        no_fields().push(("chat_id"@, Json::Str(chat))).push(
            ("action"@, Json::Str("typing"@)),
        ),
    )
}

/// What is sent to show that the bot is writing.
pub fn typing_body(chat: &str) -> (r: Data)
    ensures
        r@ == Json::Table(
            no_fields().push(("chat_id"@, Json::Str(chat@))).push(
                ("action"@, Json::Str("typing"@)),
            ),
        ),
        r@ == typing_body_tree(chat@),
{
    let mut f = Fields::new();
    f.put_str("chat_id", chat);
    f.put_str("action", "typing");
    f.done()
}

/// The names of the fields of messages differ.
proof fn lemma_message_names()
    ensures
        "user_name"@ != "chat_type"@,
        "user_name"@ != "chat_id"@,
        "user_name"@ != "text"@,
        "user_name"@ != "reply_to_message_id"@,
        "chat_type"@ != "chat_id"@,
        "chat_type"@ != "text"@,
        "chat_type"@ != "reply_to_message_id"@,
        "chat_id"@ != "text"@,
        "chat_id"@ != "reply_to_message_id"@,
        "text"@ != "reply_to_message_id"@,
{
    reveal_strlit("user_name");
    reveal_strlit("chat_type");
    reveal_strlit("chat_id");
    reveal_strlit("text");
    reveal_strlit("reply_to_message_id");
    assert("user_name"@.len() == 9);
    assert("chat_type"@.len() == 9);
    assert("chat_id"@.len() == 7);
    assert("text"@.len() == 4);
    assert("reply_to_message_id"@.len() == 19);
    assert("user_name"@[0] == 'u' && "chat_type"@[0] == 'c');
}

/// Whether a message stands in a private chat: its chat says so, or says nothing of its
/// kind.
pub open spec fn is_private(message: Json) -> bool {
    message.at("chat"@).at("type"@) == Json::Str("private"@) || !(message.at("chat"@).at(
        "type"@,
    ) is Str)
}

/// A message is heard exactly where its sender and its chat have ids and the sender is
/// allowed: listed, or anybody where nobody is listed.
pub proof fn allowed_senders_are_heard(allowed: Seq<i64>, update: Json, now: i64)
    ensures
        ({
            let message = update.at("message"@);
            let user = message.at("from"@).at("id"@).whole();
            let chat = message.at("chat"@).at("id"@).whole();
            inbound_of(allowed, update, now) is Some <==> user is Some && chat is Some && (
            allowed.len() == 0 || allowed.contains(user->0 as i64))
        }),
{
}

/// A message in a private chat belongs to its sender, and a message in a chat of any
/// other kind, whoever sent it, to the chat. It goes back to the chat that it stands in,
/// and says what was written: the text, or the caption, and which message it answers.
pub proof fn messages_belong_to_their_chat(allowed: Seq<i64>, update: Json, now: i64)
    requires
        inbound_of(allowed, update, now) is Some,
    ensures
        ({
            let m = inbound_of(allowed, update, now)->0;
            let message = update.at("message"@);
            let user = message.at("from"@).at("id"@).whole()->0;
            let chat = message.at("chat"@).at("id"@).whole()->0;
            let kind = message.at("chat"@).at("type"@);
            let private = kind == Json::Str("private"@) || !(kind is Str);
            &&& private ==> m.peer_id == "user:"@ + signed_dec(user)
            &&& !private ==> m.peer_id == "group:"@ + signed_dec(chat)
            &&& is_private(message) == private
            &&& m.channel == "telegram"@
            &&& m.account_id == Some("default"@)
            &&& m.conversation_id == Some(signed_dec(chat))
            &&& m.timestamp == now
            &&& m.attachments.len() == 0
            &&& message.at("text"@) matches Json::Str(text) ==> m.text == Some(text)
            &&& !(message.at("text"@) is Str) ==> (match message.at("caption"@) {
                Json::Str(caption) => m.text == Some(caption),
                _ => m.text is None,
            })
            &&& match message.at("message_id"@).whole() {
                Some(id) => m.id == "tg_"@ + signed_dec(id),
                None => m.id == "tg_"@ + signed_dec(0),
            }
            &&& match message.at("reply_to_message"@).at("message_id"@).whole() {
                Some(id) => m.reply_to == Some(signed_dec(id)),
                None => m.reply_to is None,
            }
            &&& m.metadata.at("chat_id"@) == Json::Num(chat)
            &&& message.at("from"@).at("first_name"@) matches Json::Str(name) ==> m.metadata.at(
                "user_name"@,
            ) == Json::Str(name)
            &&& !(message.at("from"@).at("first_name"@) is Str) ==> m.metadata.at("user_name"@)
                == Json::Str("Unknown"@)
            &&& m.metadata.at("chat_type"@) == if kind is Str {
                kind
            } else {
                Json::Str("private"@)
            }
        }),
{
    broadcast use lemma_lookup_push;

    lemma_message_names();
}

/// Everybody who writes in one chat that is not private is one peer, and that peer is
/// nobody's private chat.
pub proof fn members_of_a_group_are_one_peer(
    allowed: Seq<i64>,
    a: Json,
    b: Json,
    now: i64,
    later: i64,
)
    requires
        inbound_of(allowed, a, now) is Some,
        inbound_of(allowed, b, later) is Some,
        !is_private(a.at("message"@)),
    ensures
        !is_private(b.at("message"@)) && a.at("message"@).at("chat"@).at("id"@) == b.at(
            "message"@,
        ).at("chat"@).at("id"@) ==> inbound_of(allowed, a, now)->0.peer_id == inbound_of(
            allowed,
            b,
            later,
        )->0.peer_id,
        is_private(b.at("message"@)) ==> inbound_of(allowed, a, now)->0.peer_id != inbound_of(
            allowed,
            b,
            later,
        )->0.peer_id,
{
    reveal_strlit("user:");
    reveal_strlit("group:");
    messages_belong_to_their_chat(allowed, a, now);
    messages_belong_to_their_chat(allowed, b, later);
    let x = inbound_of(allowed, a, now)->0.peer_id;
    let y = inbound_of(allowed, b, later)->0.peer_id;
    assert(x[0] == 'g');
    if is_private(b.at("message"@)) {
        assert(y[0] == 'u');
    }
}

/// Updates are taken in one after the other: each adds its message, where it has one
/// that is heard, behind the others, and moves on where the next updates are asked for,
/// to the one after it, whether it is heard or not.
pub proof fn updates_are_taken_in_order(
    allowed: Seq<i64>,
    updates: Seq<Json>,
    update: Json,
    now: i64,
    offset: Option<int>,
)
    ensures
        inbound_all(allowed, seq![], now).len() == 0,
        inbound_all(allowed, updates.push(update), now) == (match inbound_of(
            allowed,
            update,
            now,
        ) {
            Some(m) => inbound_all(allowed, updates, now).push(m),
            None => inbound_all(allowed, updates, now),
        }),
        next_offset(offset, seq![]) == offset,
        next_offset(offset, updates.push(update)) == (match update.at("update_id"@).whole() {
            Some(id) => Some(id + 1),
            None => next_offset(offset, updates),
        }),
{
    assert(updates.push(update).drop_last() =~= updates);
}

/// The updates of an answer are those that it lists, where it is a success.
pub proof fn answers_bring_their_updates(answer: Json)
    ensures
        answer.at("ok"@) == Json::Bool(true) ==> (answer.at("result"@) matches Json::List(updates)
            ==> updates_in(answer) == updates),
        answer.at("ok"@) != Json::Bool(true) ==> updates_in(answer).len() == 0,
{
}

/// A message is sent to its chat with its text, as the answer to a message only where
/// one is named.
pub proof fn messages_are_sent_to_their_chat(chat: Seq<char>, text: Seq<char>, reply: Option<int>)
    ensures
        message_body(chat, text, reply).at("chat_id"@) == Json::Str(chat),
        message_body(chat, text, reply).at("text"@) == Json::Str(text),
        match reply {
            Some(id) => message_body(chat, text, reply).at("reply_to_message_id"@) == Json::Num(id),
            None => message_body(chat, text, reply).get("reply_to_message_id"@) is None,
        },
{
    broadcast use lemma_lookup_push;

    lemma_message_names();
}

/// The names of what is said differ.
proof fn lemma_typing_names()
    ensures
        "chat_id"@ != "action"@,
{
    reveal_strlit("chat_id");
    reveal_strlit("action");
    assert("chat_id"@.len() == 7);
    assert("action"@.len() == 6);
}


/// The chat that an answer is written for is told so.
pub proof fn chats_see_typing(chat: Seq<char>)
    ensures
        typing_body_tree(chat).at("chat_id"@) == Json::Str(chat),
        typing_body_tree(chat).at("action"@) == Json::Str("typing"@),
{
    broadcast use lemma_lookup_push;

    lemma_typing_names();
}

/// The address that the updates of a bot are asked for at.
pub open spec fn updates_address(token: Seq<char>, offset: Option<i64>) -> Seq<char> {
    "https://api.telegram.org/bot"@ + token + "/"@ + "getUpdates?timeout=30"@ + (match offset {
        Some(n) => "&offset="@ + signed_dec(n as int),
        None => Seq::empty(),
    })
}

/// The name of a bot, in the answer to the question for it.
pub open spec fn username_in(answer: Json) -> Seq<char> {
    match answer.at("result"@).at("username"@).text() {
        Some(s) => s,
        None => "unknown"@,
    }
}

/// Updates are asked for with the token of the bot, from the offset on where there is one;
/// and a bot is called by its name, where the answer has it.
pub proof fn bots_ask_for_their_updates(token: Seq<char>, n: i64, answer: Json)
    ensures
        updates_address(token, None) == "https://api.telegram.org/bot"@ + token
            + "/getUpdates?timeout=30"@,
        updates_address(token, Some(n)) == "https://api.telegram.org/bot"@ + token
            + "/getUpdates?timeout=30&offset="@ + signed_dec(n as int),
        answer.at("result"@).at("username"@) matches Json::Str(name) ==> username_in(answer)
            == name,
        !(answer.at("result"@).at("username"@) is Str) ==> username_in(answer) == "unknown"@,
{
    reveal_strlit("/");
    reveal_strlit("getUpdates?timeout=30");
    reveal_strlit("&offset=");
    reveal_strlit("/getUpdates?timeout=30");
    reveal_strlit("/getUpdates?timeout=30&offset=");
    let front = "https://api.telegram.org/bot"@ + token;
    assert(updates_address(token, None) =~= front + "/getUpdates?timeout=30"@);
    assert(updates_address(token, Some(n)) =~= front + "/getUpdates?timeout=30&offset="@
        + signed_dec(n as int));
}

} // verus!
