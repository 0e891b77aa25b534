//! The state of the terminal interface and how events and keys change it.
//!
//! The interface keeps a list of chats (one per peer nickname), the status and
//! unread count of each, the message history of each, a cursor into the list,
//! the chat that is open, and the line being typed.

use vstd::prelude::*;
use vstd::string::*;
use crate::nickmap::NickMap;
use crate::protocol::{Status, status_after};
use crate::text::{decimal, decimal_string, pop_char, push_char, str_eq};

verus! {

/// Something that happened elsewhere and that the interface shows.
pub enum AppEvent {
    PeerUpdate { nick: String, status: Status },
    PeerLeft(String),
    IncomingText { from: String, text: String },
    IncomingImage { from: String, size: usize },
    ConnectionClosed(String),
}

/// The mathematical content of an [`AppEvent`].
pub enum EventView {
    PeerUpdate { nick: Seq<char>, status: Status },
    PeerLeft(Seq<char>),
    IncomingText { from: Seq<char>, text: Seq<char> },
    IncomingImage { from: Seq<char>, size: usize },
    ConnectionClosed(Seq<char>),
}

impl View for AppEvent {
    type V = EventView;

    open spec fn view(&self) -> EventView {
        match self {
            AppEvent::PeerUpdate { nick, status } => EventView::PeerUpdate {
                nick: nick@,
                status: *status,
            },
            AppEvent::PeerLeft(nick) => EventView::PeerLeft(nick@),
            AppEvent::IncomingText { from, text } => EventView::IncomingText {
                from: from@,
                text: text@,
            },
            AppEvent::IncomingImage { from, size } => EventView::IncomingImage {
                from: from@,
                size: *size,
            },
            AppEvent::ConnectionClosed(nick) => EventView::ConnectionClosed(nick@),
        }
    }
}

/// Whether keys move through the chat list or go into the open chat.
#[derive(Clone, Copy, Debug, PartialEq, Eq, Structural)]
pub enum Mode {
    Navigate,
    Chatting,
}

/// Who a line of a chat history comes from.
#[derive(Clone, Copy, Debug, PartialEq, Eq, Structural)]
pub enum LineKind {
    Own,
    Incoming,
    System,
}

/// One line of a chat history.
pub struct ChatLine {
    pub text: String,
    pub kind: LineKind,
}

/// The mathematical content of a [`ChatLine`].
pub struct ChatLineView {
    pub text: Seq<char>,
    pub kind: LineKind,
}

impl View for ChatLine {
    type V = ChatLineView;

    open spec fn view(&self) -> ChatLineView {
        ChatLineView { text: self.text@, kind: self.kind }
    }
}

/// The views of a history's lines.
pub open spec fn lines_view(v: Vec<ChatLine>) -> Seq<ChatLineView> {
    v@.map_values(|l: ChatLine| l@)
}

/// The views of a list of names.
pub open spec fn names_view(v: Vec<String>) -> Seq<Seq<char>> {
    v@.map_values(|s: String| s@)
}

/// The whole state of the interface.
pub struct App {
    pub chats: Vec<String>,
    pub statuses: NickMap<Status>,
    pub unread: NickMap<usize>,
    pub selected: usize,
    pub active: Option<usize>,
    pub messages: NickMap<Vec<ChatLine>>,
    pub input: String,
    pub mode: Mode,
    pub should_quit: bool,
}

/// The mathematical content of an [`App`].
pub struct AppView {
    pub chats: Seq<Seq<char>>,
    pub statuses: Map<Seq<char>, Status>,
    pub unread: Map<Seq<char>, usize>,
    pub selected: usize,
    pub active: Option<usize>,
    pub messages: Map<Seq<char>, Seq<ChatLineView>>,
    pub input: Seq<char>,
    pub mode: Mode,
    pub should_quit: bool,
}

impl View for App {
    type V = AppView;

    open spec fn view(&self) -> AppView {
        AppView {
            chats: names_view(self.chats),
            statuses: self.statuses@,
            unread: self.unread@,
            selected: self.selected,
            active: self.active,
            messages: self.messages@.map_values(|v: Vec<ChatLine>| lines_view(v)),
            input: self.input@,
            mode: self.mode,
            should_quit: self.should_quit,
        }
    }
}

/// The history of `nick`, empty when it has none.
pub open spec fn history(a: AppView, nick: Seq<char>) -> Seq<ChatLineView> {
    if a.messages.contains_key(nick) {
        a.messages[nick]
    } else {
        Seq::empty()
    }
}

/// The unread count of `nick`, zero when it has none.
pub open spec fn unread_count(a: AppView, nick: Seq<char>) -> nat {
    if a.unread.contains_key(nick) {
        a.unread[nick] as nat
    } else {
        0
    }
}

/// Whether the open chat is the one with `nick`.
pub open spec fn is_open_chat(a: AppView, nick: Seq<char>) -> bool {
    a.active matches Some(i) && i < a.chats.len() && a.chats[i as int] == nick
}

/// `a` with `line` added to the end of the history of `nick`.
pub open spec fn append_line(a: AppView, nick: Seq<char>, line: ChatLineView) -> AppView {
    AppView { messages: a.messages.insert(nick, history(a, nick).push(line)), ..a }
}

/// `a` after a message from `from` arrived with `line` as its text: one more
/// unread message unless its chat is open, and the line in its history.
pub open spec fn receive(a: AppView, from: Seq<char>, line: Seq<char>) -> AppView {
    let b = if is_open_chat(a, from) {
        a
    } else {
        AppView { unread: a.unread.insert(from, (unread_count(a, from) + 1) as usize), ..a }
    };
    append_line(b, from, ChatLineView { text: line, kind: LineKind::Incoming })
}

/// The history line of a text message.
pub open spec fn text_line(from: Seq<char>, text: Seq<char>) -> Seq<char> {
    from + ": "@ + text
}

/// The history line of a picture of `size` bytes.
pub open spec fn image_line(from: Seq<char>, size: usize) -> Seq<char> {
    from + ": [фото, "@ + decimal(size as nat) + " байтів]"@
}

/// The history line that marks a dropped connection.
pub open spec fn closed_line() -> Seq<char> {
    "-- з'єднання розірвано --"@
}

/// The active chat after the chat list became `chats`: cleared when it no
/// longer points into the list or points at `nick`.
pub open spec fn active_after_leave(
    active: Option<usize>,
    chats: Seq<Seq<char>>,
    nick: Seq<char>,
) -> Option<usize> {
    match active {
        Some(i) => if i >= chats.len() || chats[i as int] == nick {
            None
        } else {
            Some(i)
        },
        None => None,
    }
}

/// `names` without any occurrence of `nick`, in the same order.
pub open spec fn without(names: Seq<Seq<char>>, nick: Seq<char>) -> Seq<Seq<char>> {
    names.filter(|n: Seq<char>| n != nick)
}

/// The state of the interface after an event.
pub open spec fn after_event(a: AppView, e: EventView) -> AppView {
    match e {
        EventView::PeerUpdate { nick, status } => if a.chats.contains(nick) {
            AppView { statuses: a.statuses.insert(nick, status), ..a }
        } else {
            AppView {
                chats: a.chats.push(nick),
                messages: a.messages.insert(nick, Seq::empty()),
                statuses: a.statuses.insert(nick, status),
                ..a
            }
        },
        EventView::PeerLeft(nick) => {
            let chats = without(a.chats, nick);
            AppView {
                chats,
                messages: a.messages.remove(nick),
                statuses: a.statuses.remove(nick),
                unread: a.unread.remove(nick),
                active: active_after_leave(a.active, chats, nick),
                ..a
            }
        },
        EventView::IncomingText { from, text } => receive(a, from, text_line(from, text)),
        EventView::IncomingImage { from, size } => receive(a, from, image_line(from, size)),
        EventView::ConnectionClosed(nick) => append_line(
            a,
            nick,
            ChatLineView { text: closed_line(), kind: LineKind::System },
        ),
    }
}

/// The unread counter that an event raises by one, if any.
pub open spec fn raised_counter(a: AppView, e: EventView) -> Option<Seq<char>> {
    match e {
        EventView::IncomingText { from, .. } => if is_open_chat(a, from) {
            None
        } else {
            Some(from)
        },
        EventView::IncomingImage { from, .. } => if is_open_chat(a, from) {
            None
        } else {
            Some(from)
        },
        _ => None,
    }
}

/// A key press, as far as the interface tells keys apart.
#[derive(Clone, Copy, Debug, PartialEq, Eq, Structural)]
pub enum Key {
    Char(char),
    Enter,
    Esc,
    Backspace,
    Other,
}

/// Work that a key press asks of the rest of the program.
pub enum KeyAction {
    /// Nothing beyond the change of state.
    Nothing,
    /// Announce this status from now on.
    SetStatus(Status),
    /// Send `text` to the peer `to`.
    Send { to: String, text: String },
}

/// The mathematical content of a [`KeyAction`].
pub enum ActionView {
    Nothing,
    SetStatus(Status),
    Send { to: Seq<char>, text: Seq<char> },
}

impl View for KeyAction {
    type V = ActionView;

    open spec fn view(&self) -> ActionView {
        match self {
            KeyAction::Nothing => ActionView::Nothing,
            KeyAction::SetStatus(s) => ActionView::SetStatus(*s),
            KeyAction::Send { to, text } => ActionView::Send { to: to@, text: text@ },
        }
    }
}

/// The history line of a message the user sent.
pub open spec fn own_line(text: Seq<char>) -> Seq<char> {
    "я: "@ + text
}

/// The states in which a key press is handled without fault: moving down
/// needs room to count, and sending needs the open chat to be in the list.
pub open spec fn key_allowed(a: AppView, key: Key) -> bool {
    &&& (a.mode == Mode::Navigate && key == Key::Char('j') && a.chats.len() > 0) ==> a.selected
        < usize::MAX
    &&& (a.mode == Mode::Chatting && key == Key::Enter && a.active is Some) ==> a.active->0
        < a.chats.len()
}

/// The state after pressing `key` while navigating the chat list: `q` quits,
/// `j` and `k` move the cursor down and up within the list, and Enter opens
/// the chat under the cursor and clears its unread count.
pub open spec fn after_navigate_key(a: AppView, key: Key) -> AppView {
    match key {
        Key::Char(c) => if c == 'q' {
            AppView { should_quit: true, ..a }
        } else if c == 'j' {
            if a.chats.len() > 0 {
                let down = if a.selected + 1 <= a.chats.len() - 1 {
                    a.selected + 1
                } else {
                    a.chats.len() - 1
                };
                AppView { selected: down as usize, ..a }
            } else {
                a
            }
        } else if c == 'k' {
            AppView {
                selected: if a.selected > 0 {
                    (a.selected - 1) as usize
                } else {
                    0
                },
                ..a
            }
        } else {
            a
        },
        Key::Enter => if a.chats.len() > 0 {
            let b = AppView { active: Some(a.selected), mode: Mode::Chatting, ..a };
            if a.selected < a.chats.len() {
                AppView { unread: b.unread.remove(a.chats[a.selected as int]), ..b }
            } else {
                b
            }
        } else {
            a
        },
        _ => a,
    }
}

/// The state after pressing `key` in an open chat: Esc goes back to the list,
/// Enter sends the typed line (clearing it), and other keys edit the line.
pub open spec fn after_chat_key(a: AppView, key: Key) -> AppView {
    match key {
        Key::Esc => AppView { mode: Mode::Navigate, ..a },
        Key::Enter => match a.active {
            Some(i) => {
                let b = AppView { input: Seq::empty(), ..a };
                if a.input.len() > 0 {
                    append_line(
                        b,
                        a.chats[i as int],
                        ChatLineView { text: own_line(a.input), kind: LineKind::Own },
                    )
                } else {
                    b
                }
            },
            None => a,
        },
        Key::Char(c) => AppView { input: a.input.push(c), ..a },
        Key::Backspace => AppView {
            input: if a.input.len() > 0 {
                a.input.drop_last()
            } else {
                a.input
            },
            ..a
        },
        _ => a,
    }
}

/// The state after a key press.
pub open spec fn after_key(a: AppView, key: Key) -> AppView {
    match a.mode {
        Mode::Navigate => after_navigate_key(a, key),
        Mode::Chatting => after_chat_key(a, key),
    }
}

/// The work a key press asks for: `s` while navigating moves the user's own
/// status on, and Enter in an open chat with a typed line sends it.
pub open spec fn key_action(a: AppView, key: Key, my_status: Status) -> ActionView {
    if a.mode == Mode::Navigate && key == Key::Char('s') {
        ActionView::SetStatus(status_after(my_status))
    } else if a.mode == Mode::Chatting && key == Key::Enter && a.active is Some && a.input.len()
        > 0 {
        ActionView::Send { to: a.chats[a.active->0 as int], text: a.input }
    } else {
        ActionView::Nothing
    }
}

/// The colours in which the interface draws statuses and history lines.
#[derive(Clone, Copy, Debug, PartialEq, Eq, Structural)]
pub enum Color {
    Green,
    Yellow,
    DarkGray,
    Cyan,
    White,
}

/// The colour of a status marker: online green, away yellow, invisible grey.
pub fn status_color(status: Status) -> (r: Color)
    ensures
        status == Status::Online ==> r == Color::Green,
        status == Status::Away ==> r == Color::Yellow,
        status == Status::Invisible ==> r == Color::DarkGray,
{
    match status {
        Status::Online => Color::Green,
        Status::Away => Color::Yellow,
        Status::Invisible => Color::DarkGray,
    }
}

/// The colour of a history line: own cyan, incoming white, system grey.
pub fn line_color(kind: LineKind) -> (r: Color)
    ensures
        kind == LineKind::Own ==> r == Color::Cyan,
        kind == LineKind::Incoming ==> r == Color::White,
        kind == LineKind::System ==> r == Color::DarkGray,
{
    match kind {
        LineKind::Own => Color::Cyan,
        LineKind::Incoming => Color::White,
        LineKind::System => Color::DarkGray,
    }
}

impl Mode {
    /// The key help shown at the bottom of the screen in this mode.
    pub fn hint(&self) -> (r: &'static str)
        ensures
            *self == Mode::Navigate ==> r@
                == "j/k: рух  Enter: відкрити чат  s: змінити статус  q: вихід"@,
            *self == Mode::Chatting ==> r@ == "Enter: надіслати  Esc: до списку чатів"@,
    {
        match self {
            Mode::Navigate => "j/k: рух  Enter: відкрити чат  s: змінити статус  q: вихід",
            Mode::Chatting => "Enter: надіслати  Esc: до списку чатів",
        }
    }
}

/// The part of the screen that keys go to, drawn with a highlighted border.
#[derive(Clone, Copy, Debug, PartialEq, Eq, Structural)]
pub enum Pane {
    /// The chat list.
    ChatList,
    /// The open chat and its input line.
    Chat,
}

/// The text of the unread badge for a count.
pub open spec fn badge_text(unread: usize) -> Seq<char> {
    "  ("@ + decimal(unread as nat) + ")"@
}

/// The badge drawn after a chat's name: none when nothing is unread,
/// otherwise the count in parentheses.
pub fn unread_badge(unread: usize) -> (r: Option<String>)
    ensures
        unread == 0 ==> r is None,
        unread > 0 ==> (r matches Some(s) && s@ == badge_text(unread)),
{
    if unread > 0 {
        let mut s = String::from_str("  (");
        let digits = decimal_string(unread);
        s.append(digits.as_str());
        s.append(")");
        Some(s)
    } else {
        None
    }
}

/// One row of the chat list as drawn.
pub struct ChatEntry {
    pub nick: String,
    pub status: Status,
    pub unread: usize,
    pub highlighted: bool,
}

/// The status shown for `nick`: its last known one, online when none is known.
pub open spec fn shown_status(a: AppView, nick: Seq<char>) -> Status {
    if a.statuses.contains_key(nick) {
        a.statuses[nick]
    } else {
        Status::Online
    }
}

/// The row drawn for chat `i`.
pub open spec fn entry_matches(a: AppView, i: int, e: ChatEntry) -> bool {
    &&& e.nick@ == a.chats[i]
    &&& e.status == shown_status(a, a.chats[i])
    &&& e.unread == unread_count(a, a.chats[i])
    &&& e.highlighted == (i == a.selected)
}

/// The title of the chat pane when no chat is open.
pub open spec fn no_chat_title() -> Seq<char> {
    "(нема активного чату)"@
}

/// Whether the open chat, if any, is in the list.
pub open spec fn active_in_range(a: AppView) -> bool {
    a.active matches Some(i) ==> i < a.chats.len()
}

/// Dropping a name from a list without repeats leaves a list without repeats
/// whose names all come from the first list.
pub proof fn lemma_without_distinct(names: Seq<Seq<char>>, nick: Seq<char>)
    requires
        names.no_duplicates(),
    ensures
        without(names, nick).no_duplicates(),
        forall|n: Seq<char>| #[trigger] without(names, nick).contains(n) ==> names.contains(n) && n
            != nick,
    decreases names.len(),
{
    reveal_with_fuel(Seq::<_>::filter, 1);
    if names.len() > 0 {
        let init = names.drop_last();
        let last = names.last();
        assert(init.no_duplicates());
        lemma_without_distinct(init, nick);
        let f = without(init, nick);
        assert forall|n: Seq<char>| #[trigger] init.contains(n) implies names.contains(n) by {
            let i = choose|i: int| 0 <= i < init.len() && init[i] == n;
            assert(names[i] == n);
        }
        if last != nick {
            assert(without(names, nick) == f.push(last));
            assert(!init.contains(last)) by {
                if init.contains(last) {
                    let i = choose|i: int| 0 <= i < init.len() && init[i] == last;
                    assert(names[i] == names[names.len() - 1]);
                }
            }
            assert(!f.contains(last));
            assert forall|n: Seq<char>| #[trigger] f.push(last).contains(n) implies names.contains(n)
                && n != nick by {
                if n != last {
                    let i = choose|i: int| 0 <= i < f.push(last).len() && f.push(last)[i] == n;
                    assert(f[i] == n);
                    assert(f.contains(n));
                } else {
                    assert(names[names.len() - 1] == n);
                }
            }
        } else {
            assert(without(names, nick) == f);
        }
    } else {
        assert(without(names, nick) =~= names);
    }
}

/// An event never makes a nickname appear twice in the chat list.
pub proof fn law_chat_list_stays_distinct(a: AppView, e: EventView)
    requires
        a.chats.no_duplicates(),
    ensures
        after_event(a, e).chats.no_duplicates(),
{
    match e {
        EventView::PeerLeft(nick) => {
            lemma_without_distinct(a.chats, nick);
        },
        _ => {},
    }
}

/// An event keeps the chat list free of repeats and the open chat, if any,
/// inside the list.
pub proof fn law_event_keeps_list_well_formed(a: AppView, e: EventView)
    requires
        a.chats.no_duplicates(),
        active_in_range(a),
    ensures
        after_event(a, e).chats.no_duplicates(),
        active_in_range(after_event(a, e)),
{
    law_chat_list_stays_distinct(a, e);
}

/// Keys never change the chat list.
pub proof fn law_keys_keep_chat_list(a: AppView, key: Key)
    ensures
        after_key(a, key).chats == a.chats,
{
}

/// After a peer leaves, nothing about it remains, and the other chats keep
/// their order.
pub proof fn law_peer_left_forgotten(a: AppView, nick: Seq<char>)
    requires
        a.chats.no_duplicates(),
    ensures
        ({
            let b = after_event(a, EventView::PeerLeft(nick));
            &&& !b.chats.contains(nick)
            &&& !b.messages.contains_key(nick)
            &&& !b.statuses.contains_key(nick)
            &&& !b.unread.contains_key(nick)
            &&& b.chats == without(a.chats, nick)
        }),
{
    lemma_without_distinct(a.chats, nick);
}

/// A peer that announces itself has a chat and the status it announced.
pub proof fn law_peer_update_listed(a: AppView, nick: Seq<char>, status: Status)
    ensures
        ({
            let b = after_event(a, EventView::PeerUpdate { nick, status });
            &&& b.chats.contains(nick)
            &&& b.statuses.contains_key(nick)
            &&& b.statuses[nick] == status
        }),
{
    let b = after_event(a, EventView::PeerUpdate { nick, status });
    if !a.chats.contains(nick) {
        assert(b.chats[a.chats.len() as int] == nick);
    }
}

/// Every received message, picture and dropped connection adds exactly one
/// line to the end of the history of its peer and touches no other history.
pub proof fn law_arrivals_recorded(a: AppView, e: EventView, other: Seq<char>)
    ensures
        match e {
            EventView::IncomingText { from, text } => {
                &&& history(after_event(a, e), from) == history(a, from).push(
                    ChatLineView { text: text_line(from, text), kind: LineKind::Incoming },
                )
                &&& other != from ==> history(after_event(a, e), other) == history(a, other)
            },
            EventView::IncomingImage { from, size } => {
                &&& history(after_event(a, e), from) == history(a, from).push(
                    ChatLineView { text: image_line(from, size), kind: LineKind::Incoming },
                )
                &&& other != from ==> history(after_event(a, e), other) == history(a, other)
            },
            EventView::ConnectionClosed(nick) => {
                &&& history(after_event(a, e), nick) == history(a, nick).push(
                    ChatLineView { text: closed_line(), kind: LineKind::System },
                )
                &&& other != nick ==> history(after_event(a, e), other) == history(a, other)
            },
            _ => true,
        },
{
}

/// A message to the open chat is not counted as unread; any other message
/// raises its sender's count by one and leaves the other counts alone.
pub proof fn law_unread_counting(a: AppView, from: Seq<char>, text: Seq<char>, other: Seq<char>)
    requires
        unread_count(a, from) < usize::MAX,
    ensures
        ({
            let b = after_event(a, EventView::IncomingText { from, text });
            &&& is_open_chat(a, from) ==> b.unread == a.unread
            &&& !is_open_chat(a, from) ==> unread_count(b, from) == unread_count(a, from) + 1
            &&& other != from ==> unread_count(b, other) == unread_count(a, other)
        }),
{
}

/// A picture in the open chat is not counted as unread; any other picture
/// raises its sender's count by one and leaves the other counts alone.
pub proof fn law_picture_unread_counting(a: AppView, from: Seq<char>, size: usize, other: Seq<char>)
    requires
        unread_count(a, from) < usize::MAX,
    ensures
        ({
            let b = after_event(a, EventView::IncomingImage { from, size });
            &&& is_open_chat(a, from) ==> b.unread == a.unread
            &&& !is_open_chat(a, from) ==> unread_count(b, from) == unread_count(a, from) + 1
            &&& other != from ==> unread_count(b, other) == unread_count(a, other)
        }),
{
}

/// Nothing that arrives in the chat the user has open changes any unread
/// count, whatever the counts are.
pub proof fn law_open_chat_never_unread(a: AppView, e: EventView)
    requires
        e matches EventView::IncomingText { from, .. } ==> is_open_chat(a, from),
        e matches EventView::IncomingImage { from, .. } ==> is_open_chat(a, from),
    ensures
        (e is IncomingText || e is IncomingImage) ==> after_event(a, e).unread == a.unread,
{
}

/// While navigating, `k` moves the cursor up one row and stops at the top,
/// `j` moves it down one row and stops at the last row of a non-empty list;
/// neither changes anything but the cursor.
pub proof fn law_cursor_moves_one_row(a: AppView)
    requires
        a.mode == Mode::Navigate,
        a.chats.len() <= usize::MAX,
    ensures
        ({
            let up = after_key(a, Key::Char('k'));
            &&& a.selected > 0 ==> up.selected == a.selected - 1
            &&& a.selected == 0 ==> up.selected == 0
            &&& up == (AppView { selected: up.selected, ..a })
        }),
        ({
            let down = after_key(a, Key::Char('j'));
            &&& a.chats.len() > 0 && a.selected + 1 < a.chats.len() ==> down.selected == a.selected + 1
            &&& a.chats.len() > 0 && a.selected + 1 >= a.chats.len() ==> down.selected == a.chats.len() - 1
            &&& a.chats.len() == 0 ==> down.selected == a.selected
            &&& down == (AppView { selected: down.selected, ..a })
        }),
{
}

/// Each row of the chat list shows its chat's name, its last known status
/// (online when none is known) and its unread count, and exactly the row
/// under the cursor is highlighted.
pub proof fn law_chat_rows(a: AppView, i: int, e: ChatEntry)
    requires
        0 <= i < a.chats.len(),
        entry_matches(a, i, e),
    ensures
        e.nick@ == a.chats[i],
        e.highlighted <==> i == a.selected,
        a.statuses.contains_key(a.chats[i]) ==> e.status == a.statuses[a.chats[i]],
        !a.statuses.contains_key(a.chats[i]) ==> e.status == Status::Online,
        a.unread.contains_key(a.chats[i]) ==> e.unread == a.unread[a.chats[i]],
        !a.unread.contains_key(a.chats[i]) ==> e.unread == 0,
{
}

/// Opening the chat under the cursor switches to it and clears its count.
pub proof fn law_open_clears_unread(a: AppView)
    requires
        a.mode == Mode::Navigate,
        a.selected < a.chats.len(),
    ensures
        ({
            let b = after_key(a, Key::Enter);
            &&& b.mode == Mode::Chatting
            &&& b.active == Some(a.selected)
            &&& is_open_chat(b, a.chats[a.selected as int])
            &&& unread_count(b, a.chats[a.selected as int]) == 0
        }),
{
}

/// Sending the typed line hands exactly that line to the network, records it
/// in the open chat's history and clears the input.
pub proof fn law_send_recorded(a: AppView, my_status: Status)
    requires
        a.mode == Mode::Chatting,
        a.active matches Some(i) && i < a.chats.len(),
        a.input.len() > 0,
    ensures
        ({
            let nick = a.chats[a.active->0 as int];
            let b = after_key(a, Key::Enter);
            &&& key_action(a, Key::Enter, my_status) == ActionView::Send { to: nick, text: a.input }
            &&& b.input.len() == 0
            &&& history(b, nick) == history(a, nick).push(
                ChatLineView { text: own_line(a.input), kind: LineKind::Own },
            )
        }),
{
}

/// Whether `names` lists `nick`.
fn names_contain(names: &Vec<String>, nick: &str) -> (r: bool)
    ensures
        r == names_view(*names).contains(nick@),
{
    let n = names.len();
    let mut i: usize = 0;
    while i < n
        invariant
            n == names@.len(),
            i <= n,
            forall|j: int| 0 <= j < i ==> names@[j]@ != nick@,
        decreases n - i,
    {
        if str_eq(names[i].as_str(), nick) {
            assert(names_view(*names)[i as int] == nick@);
            return true;
        }
        i = i + 1;
    }
    assert forall|j: int| 0 <= j < names_view(*names).len() implies names_view(*names)[j] != nick@ by {
        assert(names_view(*names)[j] == names@[j]@);
    }
    false
}

impl App {
    /// The interface at start: no chats, navigating, cursor on the first row.
    pub fn new() -> (r: Self)
        ensures
            r@.chats == Seq::<Seq<char>>::empty(),
            r@.statuses == Map::<Seq<char>, Status>::empty(),
            r@.unread == Map::<Seq<char>, usize>::empty(),
            r@.selected == 0,
            r@.active == None::<usize>,
            r@.messages == Map::<Seq<char>, Seq<ChatLineView>>::empty(),
            r@.input == Seq::<char>::empty(),
            r@.mode == Mode::Navigate,
            !r@.should_quit,
    {
        let r = App {
            chats: Vec::new(),
            statuses: NickMap::new(),
            unread: NickMap::new(),
            selected: 0,
            active: None,
            messages: NickMap::new(),
            input: String::new(),
            mode: Mode::Navigate,
            should_quit: false,
        };
        assert(r@.chats =~= Seq::<Seq<char>>::empty());
        assert(r@.messages =~= Map::<Seq<char>, Seq<ChatLineView>>::empty());
        r
    }

    /// Adds `line` to the end of the history of `nick`.
    fn push_line(&mut self, nick: String, line: ChatLine)
        ensures
            final(self)@ == append_line(old(self)@, nick@, line@),
    {
        let ghost before = self@;
        let mut lines = match self.messages.take(nick.as_str()) {
            Some(v) => v,
            None => Vec::new(),
        };
        assert(lines_view(lines) == history(before, nick@));
        lines.push(line);
        assert(lines_view(lines) =~= history(before, nick@).push(line@));
        self.messages.insert(nick, lines);
        assert(self@.messages =~= before.messages.insert(nick@, history(before, nick@).push(line@)));
    }

    /// Whether the open chat is the one with `nick`.
    fn chat_is_open(&self, nick: &str) -> (r: bool)
        ensures
            r == is_open_chat(self@, nick@),
    {
        match self.active {
            Some(i) => i < self.chats.len() && str_eq(self.chats[i].as_str(), nick),
            None => false,
        }
    }

    /// Records a message from `from` whose history line is `line`.
    fn receive_line(&mut self, from: String, line: String)
        requires
            !is_open_chat(old(self)@, from@) ==> unread_count(old(self)@, from@) < usize::MAX,
        ensures
            final(self)@ == receive(old(self)@, from@, line@),
    {
        if !self.chat_is_open(from.as_str()) {
            let count: usize = match self.unread.get(from.as_str()) {
                Some(c) => *c,
                None => 0,
            };
            self.unread.insert(from.clone(), count + 1);
        }
        self.push_line(from, ChatLine { text: line, kind: LineKind::Incoming });
    }

    /// Applies an event from the network to the interface; see [`after_event`].
    pub fn handle_app_event(&mut self, event: AppEvent)
        requires
            (raised_counter(old(self)@, event@) matches Some(k) ==> unread_count(old(self)@, k)
                < usize::MAX),
        ensures
            final(self)@ == after_event(old(self)@, event@),
    {
        let ghost a = self@;
        match event {
            AppEvent::PeerUpdate { nick, status } => {
                if !names_contain(&self.chats, nick.as_str()) {
                    self.chats.push(nick.clone());
                    let empty: Vec<ChatLine> = Vec::new();
                    assert(lines_view(empty) =~= Seq::<ChatLineView>::empty());
                    self.messages.insert(nick.clone(), empty);
                    assert(self@.chats =~= a.chats.push(nick@));
                    assert(self@.messages =~= a.messages.insert(nick@, Seq::empty()));
                }
                self.statuses.insert(nick, status);
            },
            AppEvent::PeerLeft(nick) => {
                self.drop_chat(nick.as_str());
                self.messages.remove(nick.as_str());
                self.statuses.remove(nick.as_str());
                self.unread.remove(nick.as_str());
                if let Some(i) = self.active {
                    let clear = if i < self.chats.len() {
                        str_eq(self.chats[i].as_str(), nick.as_str())
                    } else {
                        true
                    };
                    if clear {
                        self.active = None;
                    }
                }
                assert(self@.messages =~= a.messages.remove(nick@));
            },
            AppEvent::IncomingText { from, text } => {
                let mut line = from.clone();
                line.append(": ");
                line.append(text.as_str());
                self.receive_line(from, line);
            },
            AppEvent::IncomingImage { from, size } => {
                let mut line = from.clone();
                line.append(": [фото, ");
                let digits = decimal_string(size);
                line.append(digits.as_str());
                line.append(" байтів]");
                self.receive_line(from, line);
            },
            AppEvent::ConnectionClosed(nick) => {
                let line = ChatLine {
                    text: String::from_str("-- з'єднання розірвано --"),
                    kind: LineKind::System,
                };
                self.push_line(nick, line);
            },
        }
    }

    /// Handles a key press; see [`after_key`] and [`key_action`]. `my_status`
    /// is the status the user announces at the moment.
    pub fn handle_key(&mut self, key: Key, my_status: Status) -> (r: KeyAction)
        requires
            key_allowed(old(self)@, key),
        ensures
            final(self)@ == after_key(old(self)@, key),
            r@ == key_action(old(self)@, key, my_status),
    {
        match self.mode {
            Mode::Navigate => match key {
                Key::Char('q') => {
                    self.should_quit = true;
                    KeyAction::Nothing
                },
                Key::Char('s') => KeyAction::SetStatus(my_status.next()),
                Key::Char('j') => {
                    if self.chats.len() > 0 {
                        let last = self.chats.len() - 1;
                        let down = self.selected + 1;
                        self.selected = if down <= last {
                            down
                        } else {
                            last
                        };
                    }
                    KeyAction::Nothing
                },
                Key::Char('k') => {
                    self.selected = if self.selected > 0 {
                        self.selected - 1
                    } else {
                        0
                    };
                    KeyAction::Nothing
                },
                Key::Enter => {
                    if self.chats.len() > 0 {
                        self.active = Some(self.selected);
                        self.mode = Mode::Chatting;
                        if self.selected < self.chats.len() {
                            let i = self.selected;
                            self.unread.remove(self.chats[i].as_str());
                        }
                    }
                    KeyAction::Nothing
                },
                _ => KeyAction::Nothing,
            },
            Mode::Chatting => match key {
                Key::Esc => {
                    self.mode = Mode::Navigate;
                    KeyAction::Nothing
                },
                Key::Enter => {
                    match self.active {
                        Some(idx) => {
                            let nickname = self.chats[idx].clone();
                            let mut text = String::new();
                            std::mem::swap(&mut text, &mut self.input);
                            if !text.as_str().is_empty() {
                                let mut line = String::from_str("я: ");
                                line.append(text.as_str());
                                self.push_line(
                                    nickname.clone(),
                                    ChatLine { text: line, kind: LineKind::Own },
                                );
                                KeyAction::Send { to: nickname, text }
                            } else {
                                KeyAction::Nothing
                            }
                        },
                        None => KeyAction::Nothing,
                    }
                },
                Key::Char(c) => {
                    push_char(&mut self.input, c);
                    KeyAction::Nothing
                },
                Key::Backspace => {
                    let _ = pop_char(&mut self.input);
                    KeyAction::Nothing
                },
                _ => KeyAction::Nothing,
            },
        }
    }

    /// The pane that has the focus: the chat list while navigating, the open
    /// chat while chatting.
    pub fn focused_pane(&self) -> (r: Pane)
        ensures
            self@.mode == Mode::Navigate ==> r == Pane::ChatList,
            self@.mode == Mode::Chatting ==> r == Pane::Chat,
    {
        match self.mode {
            Mode::Navigate => Pane::ChatList,
            Mode::Chatting => Pane::Chat,
        }
    }

    /// Whether [`App::handle_app_event`] can take `event` in this state: an
    /// unread count that the event would raise must have room to count.
    pub fn can_take(&self, event: &AppEvent) -> (r: bool)
        ensures
            r == (raised_counter(self@, event@) matches Some(k) ==> unread_count(self@, k)
                < usize::MAX),
    {
        match event {
            AppEvent::IncomingText { from, .. } => self.has_room(from.as_str()),
            AppEvent::IncomingImage { from, .. } => self.has_room(from.as_str()),
            _ => true,
        }
    }

    /// Whether [`App::handle_key`] can take `key` in this state.
    pub fn can_handle_key(&self, key: Key) -> (r: bool)
        ensures
            r == key_allowed(self@, key),
    {
        let down_ok = !(self.mode == Mode::Navigate && key == Key::Char('j') && self.chats.len()
            > 0) || self.selected < usize::MAX;
        let send_ok = match self.active {
            Some(i) => !(self.mode == Mode::Chatting && key == Key::Enter) || i < self.chats.len(),
            None => true,
        };
        down_ok && send_ok
    }

    /// Whether the open chat, if any, is in the list, as drawing it needs.
    pub fn open_chat_listed(&self) -> (r: bool)
        ensures
            r == active_in_range(self@),
    {
        match self.active {
            Some(i) => i < self.chats.len(),
            None => true,
        }
    }

    /// Whether a message from `from` leaves its unread count in range.
    fn has_room(&self, from: &str) -> (r: bool)
        ensures
            r == (!is_open_chat(self@, from@) ==> unread_count(self@, from@) < usize::MAX),
    {
        if self.chat_is_open(from) {
            true
        } else {
            match self.unread.get(from) {
                Some(c) => *c < usize::MAX,
                None => true,
            }
        }
    }

    /// The rows of the chat list, in list order.
    pub fn chat_entries(&self) -> (r: Vec<ChatEntry>)
        ensures
            r@.len() == self@.chats.len(),
            forall|i: int| 0 <= i < r@.len() ==> entry_matches(self@, i, #[trigger] r@[i]),
            forall|i: int| 0 <= i < r@.len() ==> (#[trigger] r@[i]).highlighted == (i == self@.selected),
            forall|i: int| 0 <= i < r@.len() ==> (#[trigger] r@[i]).nick@ == self@.chats[i],
    {
        let n = self.chats.len();
        let mut r: Vec<ChatEntry> = Vec::new();
        let mut i: usize = 0;
        while i < n
            invariant
                n == self.chats@.len(),
                i <= n,
                r@.len() == i,
                forall|j: int| 0 <= j < i ==> entry_matches(self@, j, #[trigger] r@[j]),
            decreases n - i,
        {
            let nick = self.chats[i].as_str();
            let status = match self.statuses.get(nick) {
                Some(s) => *s,
                None => Status::Online,
            };
            let unread = match self.unread.get(nick) {
                Some(c) => *c,
                None => 0,
            };
            let e = ChatEntry {
                nick: self.chats[i].clone(),
                status,
                unread,
                highlighted: i == self.selected,
            };
            assert(self@.chats[i as int] == self.chats@[i as int]@);
            r.push(e);
            i = i + 1;
        }
        r
    }

    /// The title of the chat pane: the nickname of the open chat, or a note
    /// that none is open.
    pub fn chat_title(&self) -> (r: String)
        requires
            active_in_range(self@),
        ensures
            r@ == (match self@.active {
                Some(i) => self@.chats[i as int],
                None => no_chat_title(),
            }),
    {
        match self.active {
            Some(i) => self.chats[i].clone(),
            None => String::from_str("(нема активного чату)"),
        }
    }

    /// Copies of the lines of the open chat's history; none when no chat is
    /// open or the open one has no history.
    pub fn open_lines(&self) -> (r: Vec<ChatLine>)
        requires
            active_in_range(self@),
        ensures
            lines_view(r) == (match self@.active {
                Some(i) => history(self@, self@.chats[i as int]),
                None => Seq::<ChatLineView>::empty(),
            }),
    {
        let mut r: Vec<ChatLine> = Vec::new();
        if let Some(i) = self.active {
            assert(self@.chats[i as int] == self.chats@[i as int]@);
            if let Some(lines) = self.messages.get(self.chats[i].as_str()) {
                let n = lines.len();
                let mut j: usize = 0;
                while j < n
                    invariant
                        n == lines@.len(),
                        j <= n,
                        r@.len() == j,
                        forall|t: int| 0 <= t < j ==> #[trigger] r@[t]@ == lines@[t]@,
                    decreases n - j,
                {
                    let l = ChatLine { text: lines[j].text.clone(), kind: lines[j].kind };
                    r.push(l);
                    j = j + 1;
                }
                assert(lines_view(r) =~= lines_view(*lines));
            } else {
                assert(lines_view(r) =~= Seq::<ChatLineView>::empty());
            }
        } else {
            assert(lines_view(r) =~= Seq::<ChatLineView>::empty());
        }
        r
    }

    /// Removes `nick` from the chat list, keeping the order of the others.
    fn drop_chat(&mut self, nick: &str)
        ensures
            final(self)@ == (AppView {
                chats: without(old(self)@.chats, nick@),
                ..old(self)@
            }),
    {
        let ghost names = self@.chats;
        let mut kept: Vec<String> = Vec::new();
        let n = self.chats.len();
        let mut i: usize = 0;
        while i < n
            invariant
                n == self.chats@.len(),
                names == names_view(self.chats),
                i <= n,
                names_view(kept) == without(names.take(i as int), nick@),
            decreases n - i,
        {
            proof {
                reveal_with_fuel(Seq::<_>::filter, 1);
                assert(names.take(i + 1).drop_last() =~= names.take(i as int));
                assert(names.take(i + 1).last() == self.chats@[i as int]@);
            }
            if !str_eq(self.chats[i].as_str(), nick) {
                let name = self.chats[i].clone();
                kept.push(name);
                assert(names_view(kept) =~= without(names.take(i as int), nick@).push(name@));
                assert(without(names.take(i + 1), nick@) == without(names.take(i as int), nick@).push(
                    name@,
                ));
            } else {
                assert(without(names.take(i + 1), nick@) == without(names.take(i as int), nick@));
            }
            i = i + 1;
        }
        assert(names.take(n as int) =~= names);
        self.chats = kept;
    }
}

} // verus!
