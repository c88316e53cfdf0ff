use vstd::prelude::*;

use crate::contacts::{friend_remark_spec, get_friend_remark, get_group_name, group_name_spec, Friend, Group};
use crate::session::{ChatItem, ChatItemView, Chatroom, ChatroomView, Message, MessageView, SessionKey};

verus! {

/// How the window shows its two panes.
#[derive(Clone, Copy, Debug, PartialEq, Eq, Structural)]
pub enum LayoutMode {
    /// One pane at a time (the window is folded).
    Combined,
    /// Sidebar and conversation side by side.
    Split,
}

/// What the rendering layer is asked to show next.
#[derive(Clone, Copy, Debug, PartialEq, Eq, Structural)]
pub enum ViewMsg {
    /// Switch a single-pane layout from the sidebar to the active conversation.
    ShowConversationPane,
    /// Show the conversation with this key.
    ShowConversation(SessionKey),
}

/// Why an operation was refused.
#[derive(Clone, Copy, Debug, PartialEq, Eq, Structural)]
pub enum CoreError {
    /// The own account id is not known yet.
    Precondition,
}

/// Abstract state of the registry.
pub struct RegistryView {
    pub self_account: Option<i64>,
    pub focus: Option<SessionKey>,
    pub layout: LayoutMode,
    pub pending: Option<ViewMsg>,
    pub rooms: Seq<ChatroomView>,
    pub items: Seq<ChatItemView>,
    pub friends: Seq<Friend>,
    pub groups: Seq<Group>,
}

impl RegistryView {
    /// Keys of the conversations, most recently opened first.
    pub open spec fn room_keys(self) -> Seq<SessionKey> {
        self.rooms.map_values(|r: ChatroomView| r.key)
    }

    /// Keys of the sidebar entries, most recently touched first.
    pub open spec fn item_keys(self) -> Seq<SessionKey> {
        self.items.map_values(|c: ChatItemView| c.key)
    }

    pub open spec fn contains(self, k: SessionKey) -> bool {
        self.room_keys().contains(k)
    }

    /// Keys are unique, conversations and sidebar entries have the same keys, and the
    /// focused key has a conversation.
    pub open spec fn wf(self) -> bool {
        &&& self.room_keys().no_duplicates()
        &&& self.item_keys().no_duplicates()
        &&& forall|k: SessionKey| self.room_keys().contains(k) <==> self.item_keys().contains(k)
        &&& (self.focus matches Some(f) ==> self.contains(f))
    }

    pub open spec fn room_pos(self, k: SessionKey) -> int {
        choose|i: int| 0 <= i < self.rooms.len() && self.rooms[i].key == k
    }

    pub open spec fn item_pos(self, k: SessionKey) -> int {
        choose|i: int| 0 <= i < self.items.len() && self.items[i].key == k
    }

    /// The messages of the conversation `k`, oldest first; empty when there is none.
    pub open spec fn history(self, k: SessionKey) -> Seq<MessageView> {
        if self.contains(k) {
            self.rooms[self.room_pos(k)].messages
        } else {
            Seq::empty()
        }
    }

    /// The name a new sidebar entry shows for `k`.
    pub open spec fn display_name(self, k: SessionKey) -> Seq<char> {
        if k.is_group {
            group_name_spec(self.groups, k.account)
        } else {
            friend_remark_spec(self.friends, k.account)
        }
    }

    /// A new empty conversation and its sidebar entry, both placed first.
    pub open spec fn open(self, k: SessionKey, last: Seq<char>) -> RegistryView {
        RegistryView {
            rooms: seq![ChatroomView { key: k, messages: Seq::empty() }] + self.rooms,
            items: seq![ChatItemView { key: k, username: self.display_name(k), last_message: last }]
                + self.items,
            ..self
        }
    }

    /// Create-or-update for a message text `last` on `k`: an existing entry gets the text
    /// and moves first; otherwise the conversation is opened, and focused when it is the
    /// only one.
    pub open spec fn touch(self, k: SessionKey, last: Seq<char>) -> RegistryView {
        if self.contains(k) {
            let j = self.item_pos(k);
            RegistryView {
                items: seq![ChatItemView { key: k, username: self.items[j].username, last_message: last }]
                    + self.items.remove(j),
                ..self
            }
        } else if self.rooms.len() == 0 {
            RegistryView {
                focus: Some(k),
                pending: Some(ViewMsg::ShowConversation(k)),
                ..self.open(k, last)
            }
        } else {
            self.open(k, last)
        }
    }

    /// Appends `m` to the history of the existing conversation `k`.
    pub open spec fn append(self, k: SessionKey, m: MessageView) -> RegistryView {
        let i = self.room_pos(k);
        RegistryView {
            rooms: self.rooms.update(i, ChatroomView { key: k, messages: self.rooms[i].messages.push(m) }),
            ..self
        }
    }

    /// A message from `sender` in the conversation `k`.
    pub open spec fn receive(self, k: SessionKey, sender: i64, content: Seq<char>) -> RegistryView {
        self.touch(k, content).append(
            k,
            MessageView { sender, target: self.self_account->0, content },
        )
    }

    /// A message of the own account to the friend `target`.
    pub open spec fn send(self, target: i64, content: Seq<char>) -> RegistryView {
        let k = SessionKey { account: target, is_group: false };
        self.touch(k, content).append(
            k,
            MessageView { sender: self.self_account->0, target, content },
        )
    }

    /// Opens `k` when needed (with an empty last message), then focuses it.
    pub open spec fn select(self, k: SessionKey) -> RegistryView {
        let o = if self.contains(k) { self } else { self.open(k, Seq::empty()) };
        RegistryView { focus: Some(k), pending: Some(ViewMsg::ShowConversation(k)), ..o }
    }

    /// Records the layout; folding asks to show the conversation pane.
    pub open spec fn set_layout(self, mode: LayoutMode) -> RegistryView {
        RegistryView {
            layout: mode,
            pending: if mode == LayoutMode::Combined {
                Some(ViewMsg::ShowConversationPane)
            } else {
                self.pending
            },
            ..self
        }
    }
}

/// In a sequence without duplicates, the only index holding a value is its position.
pub proof fn lemma_unique_index(s: Seq<SessionKey>, i: int, j: int)
    requires
        s.no_duplicates(),
        0 <= i < s.len(),
        0 <= j < s.len(),
        s[i] == s[j],
    ensures
        i == j,
{
}

/// Removing one element of a sequence without duplicates removes exactly that value.
pub proof fn lemma_remove_unique(s: Seq<SessionKey>, j: int)
    requires
        s.no_duplicates(),
        0 <= j < s.len(),
    ensures
        s.remove(j).no_duplicates(),
        forall|x: SessionKey| #[trigger] s.remove(j).contains(x) <==> (s.contains(x) && x != s[j]),
{
    let r = s.remove(j);
    assert forall|x: SessionKey| #[trigger] r.contains(x) <==> (s.contains(x) && x != s[j]) by {
        if r.contains(x) {
            let a = choose|a: int| 0 <= a < r.len() && r[a] == x;
            if a < j {
                assert(s[a] == x);
            } else {
                assert(s[a + 1] == x);
            }
        }
        if s.contains(x) && x != s[j] {
            let b = choose|b: int| 0 <= b < s.len() && s[b] == x;
            if b < j {
                assert(r[b] == x);
            } else {
                assert(b != j);
                assert(r[b - 1] == x);
            }
        }
    }
}

impl RegistryView {
    pub proof fn lemma_room_pos(self, k: SessionKey, i: int)
        requires
            self.room_keys().no_duplicates(),
            0 <= i < self.rooms.len(),
            self.rooms[i].key == k,
        ensures
            self.room_pos(k) == i,
            self.contains(k),
    {
        assert(self.room_keys()[i] == k);
        let p = self.room_pos(k);
        assert(self.room_keys()[p] == k);
        lemma_unique_index(self.room_keys(), i, p);
    }

    pub proof fn lemma_item_pos(self, k: SessionKey, i: int)
        requires
            self.item_keys().no_duplicates(),
            0 <= i < self.items.len(),
            self.items[i].key == k,
        ensures
            self.item_pos(k) == i,
            self.item_keys().contains(k),
    {
        assert(self.item_keys()[i] == k);
        let p = self.item_pos(k);
        assert(self.item_keys()[p] == k);
        lemma_unique_index(self.item_keys(), i, p);
    }

    /// A contained key has a position, and an item position when the view is well formed.
    pub proof fn lemma_contains_pos(self, k: SessionKey)
        requires
            self.wf(),
            self.contains(k),
        ensures
            0 <= self.room_pos(k) < self.rooms.len(),
            self.rooms[self.room_pos(k)].key == k,
            0 <= self.item_pos(k) < self.items.len(),
            self.items[self.item_pos(k)].key == k,
    {
        let a = choose|a: int| 0 <= a < self.room_keys().len() && self.room_keys()[a] == k;
        assert(self.rooms[a].key == k);
        assert(self.item_keys().contains(k));
        let b = choose|b: int| 0 <= b < self.item_keys().len() && self.item_keys()[b] == k;
        assert(self.items[b].key == k);
    }

    /// Opening a key not yet present keeps the view well formed and every other history.
    pub proof fn lemma_open(self, k: SessionKey, last: Seq<char>)
        requires
            self.wf(),
            !self.contains(k),
        ensures
            self.open(k, last).wf(),
            self.open(k, last).room_keys() == seq![k] + self.room_keys(),
            self.open(k, last).contains(k),
            self.open(k, last).history(k) == Seq::<MessageView>::empty(),
            forall|x: SessionKey| x != k ==> #[trigger] self.open(k, last).history(x) == self.history(x),
            forall|x: SessionKey| #[trigger] self.open(k, last).contains(x) <==> (x == k || self.contains(x)),
    {
        let o = self.open(k, last);
        assert(o.room_keys() =~= seq![k] + self.room_keys());
        assert(o.item_keys() =~= seq![k] + self.item_keys());
        assert(!self.item_keys().contains(k));
        assert forall|x: SessionKey| #[trigger] o.room_keys().contains(x) <==> (x == k || self.room_keys().contains(x)) by {
            if o.room_keys().contains(x) && x != k {
                let a = choose|a: int| 0 <= a < o.room_keys().len() && o.room_keys()[a] == x;
                assert(self.room_keys()[a - 1] == x);
            }
            if self.room_keys().contains(x) {
                let a = choose|a: int| 0 <= a < self.room_keys().len() && self.room_keys()[a] == x;
                assert(o.room_keys()[a + 1] == x);
            }
            if x == k {
                assert(o.room_keys()[0] == x);
            }
        }
        assert forall|x: SessionKey| #[trigger] o.item_keys().contains(x) <==> (x == k || self.item_keys().contains(x)) by {
            if o.item_keys().contains(x) && x != k {
                let a = choose|a: int| 0 <= a < o.item_keys().len() && o.item_keys()[a] == x;
                assert(self.item_keys()[a - 1] == x);
            }
            if self.item_keys().contains(x) {
                let a = choose|a: int| 0 <= a < self.item_keys().len() && self.item_keys()[a] == x;
                assert(o.item_keys()[a + 1] == x);
            }
            if x == k {
                assert(o.item_keys()[0] == x);
            }
        }
        assert(o.room_keys().no_duplicates()) by {
            assert forall|a: int, b: int|
                0 <= a < o.room_keys().len() && 0 <= b < o.room_keys().len() && a != b
                implies o.room_keys()[a] != o.room_keys()[b] by {
                if a == 0 && b > 0 {
                    assert(self.room_keys()[b - 1] == o.room_keys()[b]);
                } else if b == 0 && a > 0 {
                    assert(self.room_keys()[a - 1] == o.room_keys()[a]);
                } else if a > 0 && b > 0 {
                    assert(self.room_keys()[a - 1] == o.room_keys()[a]);
                    assert(self.room_keys()[b - 1] == o.room_keys()[b]);
                }
            }
        }
        assert(o.item_keys().no_duplicates()) by {
            assert forall|a: int, b: int|
                0 <= a < o.item_keys().len() && 0 <= b < o.item_keys().len() && a != b
                implies o.item_keys()[a] != o.item_keys()[b] by {
                if a == 0 && b > 0 {
                    assert(self.item_keys()[b - 1] == o.item_keys()[b]);
                } else if b == 0 && a > 0 {
                    assert(self.item_keys()[a - 1] == o.item_keys()[a]);
                } else if a > 0 && b > 0 {
                    assert(self.item_keys()[a - 1] == o.item_keys()[a]);
                    assert(self.item_keys()[b - 1] == o.item_keys()[b]);
                }
            }
        }
        o.lemma_room_pos(k, 0);
        assert forall|x: SessionKey| x != k implies #[trigger] o.history(x) == self.history(x) by {
            if self.contains(x) {
                self.lemma_contains_pos(x);
                let p = self.room_pos(x);
                o.lemma_room_pos(x, p + 1);
            }
        }
    }

    /// Create-or-update keeps the view well formed, makes `k` present, and changes no history.
    pub proof fn lemma_touch(self, k: SessionKey, last: Seq<char>)
        requires
            self.wf(),
        ensures
            self.touch(k, last).wf(),
            self.touch(k, last).contains(k),
            self.touch(k, last).self_account == self.self_account,
            forall|x: SessionKey| #[trigger] self.touch(k, last).history(x) == self.history(x),
            forall|x: SessionKey| #[trigger] self.touch(k, last).contains(x) <==> (x == k || self.contains(x)),
    {
        let t = self.touch(k, last);
        if self.contains(k) {
            self.lemma_contains_pos(k);
            let j = self.item_pos(k);
            let ik = self.item_keys();
            lemma_remove_unique(ik, j);
            assert(t.item_keys() =~= seq![k] + ik.remove(j));
            assert(t.room_keys() == self.room_keys());
            assert forall|x: SessionKey| #[trigger] t.item_keys().contains(x) <==> (x == k || ik.contains(x)) by {
                if t.item_keys().contains(x) && x != k {
                    let a = choose|a: int| 0 <= a < t.item_keys().len() && t.item_keys()[a] == x;
                    assert(ik.remove(j)[a - 1] == x);
                }
                if ik.contains(x) && x != k {
                    assert(ik.remove(j).contains(x));
                    let a = choose|a: int| 0 <= a < ik.remove(j).len() && ik.remove(j)[a] == x;
                    assert(t.item_keys()[a + 1] == x);
                }
                if x == k {
                    assert(t.item_keys()[0] == x);
                }
            }
            assert(t.item_keys().no_duplicates()) by {
                let r = ik.remove(j);
                assert forall|a: int, b: int|
                    0 <= a < t.item_keys().len() && 0 <= b < t.item_keys().len() && a != b
                    implies t.item_keys()[a] != t.item_keys()[b] by {
                    if a == 0 && b > 0 {
                        assert(r[b - 1] == t.item_keys()[b]);
                        assert(r.contains(r[b - 1]));
                    } else if b == 0 && a > 0 {
                        assert(r[a - 1] == t.item_keys()[a]);
                        assert(r.contains(r[a - 1]));
                    } else if a > 0 && b > 0 {
                        assert(r[a - 1] == t.item_keys()[a]);
                        assert(r[b - 1] == t.item_keys()[b]);
                    }
                }
            }
        } else {
            self.lemma_open(k, last);
        }
    }

    /// Appending to a present key changes that history alone.
    pub proof fn lemma_append(self, k: SessionKey, m: MessageView)
        requires
            self.wf(),
            self.contains(k),
        ensures
            self.append(k, m).wf(),
            self.append(k, m).room_keys() == self.room_keys(),
            self.append(k, m).items == self.items,
            self.append(k, m).history(k) == self.history(k).push(m),
            forall|x: SessionKey| x != k ==> #[trigger] self.append(k, m).history(x) == self.history(x),
    {
        self.lemma_contains_pos(k);
        let a = self.append(k, m);
        let p = self.room_pos(k);
        assert(a.room_keys() =~= self.room_keys());
        a.lemma_room_pos(k, p);
        assert forall|x: SessionKey| x != k implies #[trigger] a.history(x) == self.history(x) by {
            if self.contains(x) {
                self.lemma_contains_pos(x);
                a.lemma_room_pos(x, self.room_pos(x));
            }
        }
    }

    /// Selecting keeps the view well formed and changes no history.
    pub proof fn lemma_select(self, k: SessionKey)
        requires
            self.wf(),
        ensures
            self.select(k).wf(),
            self.select(k).contains(k),
            forall|x: SessionKey| #[trigger] self.select(k).history(x) == self.history(x),
            forall|x: SessionKey| #[trigger] self.select(k).contains(x) <==> (x == k || self.contains(x)),
    {
        let s = self.select(k);
        if !self.contains(k) {
            let o = self.open(k, Seq::empty());
            self.lemma_open(k, Seq::empty());
            assert(s.room_keys() == o.room_keys());
            assert forall|x: SessionKey| #[trigger] s.history(x) == self.history(x) by {
                assert(s.history(x) == o.history(x));
            }
            assert forall|x: SessionKey| #[trigger] s.contains(x) <==> (x == k || self.contains(x)) by {
                assert(s.contains(x) == o.contains(x));
            }
        } else {
            assert(s.room_keys() == self.room_keys());
            assert forall|x: SessionKey| #[trigger] s.history(x) == self.history(x) by {
                assert(s.rooms == self.rooms);
            }
        }
    }
}

/// An event handed to the dispatcher.
#[derive(Debug)]
pub enum MainMsg {
    /// The window folded to a single pane.
    WindowFolded,
    /// The window unfolded to two panes.
    WindowUnfolded,
    /// Sidebar entry id (group or friend), whether it is a group, sender id, content.
    ReceiveMessage(i64, bool, i64, String),
    /// Target friend id, content.
    SendFriendMessage(i64, String),
    /// The user picked the sidebar entry (id, is_group).
    SelectChatroom(i64, bool),
    /// The sidebar asks for its contact lists.
    InitSidebar,
}

/// What the dispatcher asks of its surroundings after an event.
#[derive(Clone, Copy, Debug, PartialEq, Eq, Structural)]
pub enum Effect {
    /// Render the state (drain the pending view message).
    Render,
    /// Refresh the contact lists; the registry did not change.
    RefreshContact,
}

/// The conversation registry: conversations, sidebar entries, focus and layout.
pub struct MainPageModel {
    self_account: Option<i64>,
    message: Option<ViewMsg>,
    focus: Option<SessionKey>,
    layout: LayoutMode,
    chatrooms: Vec<Chatroom>,
    chat_items: Vec<ChatItem>,
    friends: Vec<Friend>,
    groups: Vec<Group>,
}

impl View for MainPageModel {
    type V = RegistryView;

    closed spec fn view(&self) -> RegistryView {
        RegistryView {
            self_account: self.self_account,
            focus: self.focus,
            layout: self.layout,
            pending: self.message,
            rooms: self.chatrooms@.map_values(|c: Chatroom| c@),
            items: self.chat_items@.map_values(|c: ChatItem| c@),
            friends: self.friends@,
            groups: self.groups@,
        }
    }
}

impl MainPageModel {
    /// An empty registry in the split layout, with no focus and nothing pending.
    pub fn new(self_account: Option<i64>) -> (r: MainPageModel)
        ensures
            r@.wf(),
            r@.self_account == self_account,
            r@.focus is None,
            r@.layout == LayoutMode::Split,
            r@.pending is None,
            r@.rooms.len() == 0,
            r@.items.len() == 0,
            r@.friends.len() == 0,
            r@.groups.len() == 0,
    {
        let r = MainPageModel {
            self_account,
            message: None,
            focus: None,
            layout: LayoutMode::Split,
            chatrooms: Vec::new(),
            chat_items: Vec::new(),
            friends: Vec::new(),
            groups: Vec::new(),
        };
        assert(r@.room_keys() =~= Seq::<SessionKey>::empty());
        assert(r@.item_keys() =~= Seq::<SessionKey>::empty());
        r
    }

    /// Records the own account id, which messages are attributed to.
    pub fn set_self_account(&mut self, account: i64)
        requires
            old(self)@.wf(),
        ensures
            final(self)@ == (RegistryView { self_account: Some(account), ..old(self)@ }),
            final(self)@.wf(),
    {
        self.self_account = Some(account);
    }

    /// Replaces the contact tables that names of new sidebar entries are taken from.
    pub fn set_contacts(&mut self, friends: Vec<Friend>, groups: Vec<Group>)
        requires
            old(self)@.wf(),
        ensures
            final(self)@ == (RegistryView { friends: friends@, groups: groups@, ..old(self)@ }),
            final(self)@.wf(),
    {
        self.friends = friends;
        self.groups = groups;
    }

    /// Position of the conversation `key`, if there is one.
    fn find_chatroom(&self, key: SessionKey) -> (r: Option<usize>)
        requires
            self@.wf(),
        ensures
            r is None <==> !self@.contains(key),
            r matches Some(i) ==> i == self@.room_pos(key) && i < self@.rooms.len(),
    {
        let mut i: usize = 0;
        while i < self.chatrooms.len()
            invariant
                self@.wf(),
                i <= self.chatrooms.len(),
                forall|j: int| 0 <= j < i ==> self@.rooms[j].key != key,
            decreases self.chatrooms.len() - i,
        {
            if self.chatrooms[i].account == key.account && self.chatrooms[i].is_group == key.is_group {
                proof {
                    self@.lemma_room_pos(key, i as int);
                }
                return Some(i);
            }
            i = i + 1;
        }
        proof {
            if self@.contains(key) {
                self@.lemma_contains_pos(key);
            }
        }
        None
    }

    /// Position of the sidebar entry `key`, if there is one.
    fn find_chat_item(&self, key: SessionKey) -> (r: Option<usize>)
        requires
            self@.wf(),
        ensures
            r is None <==> !self@.contains(key),
            r matches Some(i) ==> i == self@.item_pos(key) && i < self@.items.len(),
    {
        let mut i: usize = 0;
        while i < self.chat_items.len()
            invariant
                self@.wf(),
                i <= self.chat_items.len(),
                forall|j: int| 0 <= j < i ==> self@.items[j].key != key,
            decreases self.chat_items.len() - i,
        {
            if self.chat_items[i].account == key.account && self.chat_items[i].is_group == key.is_group {
                proof {
                    self@.lemma_item_pos(key, i as int);
                }
                return Some(i);
            }
            i = i + 1;
        }
        proof {
            if self@.contains(key) {
                self@.lemma_contains_pos(key);
            }
        }
        None
    }

    /// Whether a conversation with this key exists.
    pub fn is_item_in_list(&self, account: i64, is_group: bool) -> (r: bool)
        requires
            self@.wf(),
        ensures
            r == self@.contains(SessionKey { account, is_group }),
    {
        let key = SessionKey { account, is_group };
        match self.find_chatroom(key) {
            Some(_) => true,
            None => false,
        }
    }

    /// Opens a conversation not present yet, with its sidebar entry, both first.
    fn open_conversation(&mut self, key: SessionKey, last_message: String)
        requires
            old(self)@.wf(),
            !old(self)@.contains(key),
        ensures
            final(self)@ == old(self)@.open(key, last_message@),
            final(self)@.wf(),
    {
        let username = if key.is_group {
            get_group_name(&self.groups, key.account)
        } else {
            get_friend_remark(&self.friends, key.account)
        };
        let ghost v0 = self@;
        self.chatrooms.insert(0, Chatroom::new(key));
        self.chat_items.insert(
            0,
            ChatItem { account: key.account, is_group: key.is_group, username, last_message },
        );
        proof {
            assert(self@.rooms =~= v0.open(key, last_message@).rooms);
            assert(self@.items =~= v0.open(key, last_message@).items);
            v0.lemma_open(key, last_message@);
        }
    }

    /// Creates the conversation `key` with an empty last message; returns false and changes
    /// nothing when it already exists.
    pub fn insert_chatroom(&mut self, account: i64, is_group: bool) -> (r: bool)
        requires
            old(self)@.wf(),
        ensures
            r == !old(self)@.contains(SessionKey { account, is_group }),
            r ==> final(self)@ == old(self)@.open(SessionKey { account, is_group }, Seq::empty()),
            !r ==> final(self)@ == old(self)@,
            final(self)@.wf(),
    {
        let key = SessionKey { account, is_group };
        if self.is_item_in_list(account, is_group) {
            false
        } else {
            let empty = String::new();
            self.open_conversation(key, empty);
            true
        }
    }

    /// Create-or-update of the sidebar for a message text on `key`.
    fn touch_chat_item(&mut self, key: SessionKey, content: String)
        requires
            old(self)@.wf(),
        ensures
            final(self)@ == old(self)@.touch(key, content@),
            final(self)@.wf(),
    {
        let ghost v0 = self@;
        proof {
            v0.lemma_touch(key, content@);
        }
        match self.find_chat_item(key) {
            Some(j) => {
                let old_item = self.chat_items.remove(j);
                let item = ChatItem {
                    account: key.account,
                    is_group: key.is_group,
                    username: old_item.username,
                    last_message: content,
                };
                self.chat_items.insert(0, item);
                proof {
                    assert(self@.items =~= v0.touch(key, content@).items);
                }
            },
            None => {
                let was_empty = self.chatrooms.len() == 0;
                self.open_conversation(key, content);
                if was_empty {
                    self.focus = Some(key);
                    self.message = Some(ViewMsg::ShowConversation(key));
                }
            },
        }
    }

    /// Appends a message to the existing conversation `key`.
    fn push_message(&mut self, key: SessionKey, message: Message)
        requires
            old(self)@.wf(),
            old(self)@.contains(key),
        ensures
            final(self)@ == old(self)@.append(key, message@),
            final(self)@.wf(),
    {
        let ghost v0 = self@;
        proof {
            v0.lemma_append(key, message@);
            v0.lemma_contains_pos(key);
        }
        let i = match self.find_chatroom(key) {
            Some(i) => i,
            None => 0,
        };
        let mut room = self.chatrooms.remove(i);
        room.push_message(message);
        self.chatrooms.insert(i, room);
        proof {
            assert(self@.rooms =~= v0.append(key, message@).rooms);
        }
    }

    /// Appends a message of the own account to the conversation with the friend `target`.
    fn push_own_friend_message(&mut self, target: i64, content: String)
        requires
            old(self)@.wf(),
            old(self)@.contains(SessionKey { account: target, is_group: false }),
            old(self)@.self_account is Some,
        ensures
            final(self)@ == old(self)@.append(
                SessionKey { account: target, is_group: false },
                MessageView { sender: old(self)@.self_account->0, target, content: content@ },
            ),
            final(self)@.wf(),
    {
        let self_account = match self.self_account {
            Some(a) => a,
            None => 0,
        };
        let key = SessionKey { account: target, is_group: false };
        self.push_message(key, Message { sender: self_account, target, content });
    }

    /// Appends a message of `sender`, addressed to the own account, to the conversation `key`.
    fn push_others_message(&mut self, key: SessionKey, sender: i64, content: String)
        requires
            old(self)@.wf(),
            old(self)@.contains(key),
            old(self)@.self_account is Some,
        ensures
            final(self)@ == old(self)@.append(
                key,
                MessageView { sender, target: old(self)@.self_account->0, content: content@ },
            ),
            final(self)@.wf(),
    {
        let self_account = match self.self_account {
            Some(a) => a,
            None => 0,
        };
        self.push_message(key, Message { sender, target: self_account, content });
    }

    /// Focuses the conversation `(account, is_group)`, opening it first when needed.
    pub fn select(&mut self, account: i64, is_group: bool) -> (r: ViewMsg)
        requires
            old(self)@.wf(),
        ensures
            final(self)@ == old(self)@.select(SessionKey { account, is_group }),
            final(self)@.wf(),
            r == ViewMsg::ShowConversation(SessionKey { account, is_group }),
    {
        let key = SessionKey { account, is_group };
        proof {
            old(self)@.lemma_select(key);
        }
        self.insert_chatroom(account, is_group);
        self.focus = Some(key);
        self.message = Some(ViewMsg::ShowConversation(key));
        ViewMsg::ShowConversation(key)
    }

    /// A message of the own account to the friend `target`. Refused while the own account
    /// is unknown.
    pub fn send_self_message(&mut self, target: i64, content: String) -> (r: Result<(), CoreError>)
        requires
            old(self)@.wf(),
        ensures
            final(self)@.wf(),
            old(self)@.self_account is None ==> r == Err::<(), CoreError>(CoreError::Precondition)
                && final(self)@ == old(self)@,
            old(self)@.self_account is Some ==> r is Ok && final(self)@ == old(self)@.send(
                target,
                content@,
            ),
    {
        if self.self_account.is_none() {
            return Err(CoreError::Precondition);
        }
        let key = SessionKey { account: target, is_group: false };
        proof {
            old(self)@.lemma_touch(key, content@);
        }
        self.touch_chat_item(key, content.clone());
        self.push_own_friend_message(target, content);
        Ok(())
    }

    /// A message from `sender` in the conversation `(chat_item, is_group)`. Refused while the
    /// own account is unknown.
    pub fn receive_message(&mut self, chat_item: i64, is_group: bool, sender: i64, content: String)
        -> (r: Result<(), CoreError>)
        requires
            old(self)@.wf(),
        ensures
            final(self)@.wf(),
            old(self)@.self_account is None ==> r == Err::<(), CoreError>(CoreError::Precondition)
                && final(self)@ == old(self)@,
            old(self)@.self_account is Some ==> r is Ok && final(self)@ == old(self)@.receive(
                SessionKey { account: chat_item, is_group },
                sender,
                content@,
            ),
    {
        if self.self_account.is_none() {
            return Err(CoreError::Precondition);
        }
        let key = SessionKey { account: chat_item, is_group };
        proof {
            old(self)@.lemma_touch(key, content@);
        }
        self.touch_chat_item(key, content.clone());
        self.push_others_message(key, sender, content);
        Ok(())
    }

    /// Records the layout; folding asks to show the conversation pane.
    pub fn set_layout(&mut self, mode: LayoutMode)
        requires
            old(self)@.wf(),
        ensures
            final(self)@ == old(self)@.set_layout(mode),
            final(self)@.wf(),
    {
        self.layout = mode;
        if mode == LayoutMode::Combined {
            self.message = Some(ViewMsg::ShowConversationPane);
        }
    }

    /// Hands out the latest view message and clears it.
    pub fn take_view_msg(&mut self) -> (r: Option<ViewMsg>)
        requires
            old(self)@.wf(),
        ensures
            r == old(self)@.pending,
            final(self)@ == (RegistryView { pending: None, ..old(self)@ }),
            final(self)@.wf(),
    {
        let r = self.message;
        self.message = None;
        r
    }

    /// Dispatches one event to the registry operations.
    pub fn update(&mut self, msg: MainMsg) -> (r: Result<Effect, CoreError>)
        requires
            old(self)@.wf(),
        ensures
            final(self)@.wf(),
            match msg {
                MainMsg::WindowFolded => r == Ok::<Effect, CoreError>(Effect::Render)
                    && final(self)@ == old(self)@.set_layout(LayoutMode::Combined),
                MainMsg::WindowUnfolded => r == Ok::<Effect, CoreError>(Effect::Render)
                    && final(self)@ == old(self)@.set_layout(LayoutMode::Split),
                MainMsg::ReceiveMessage(chat_item, is_group, sender, content) => if old(
                    self,
                )@.self_account is None {
                    r == Err::<Effect, CoreError>(CoreError::Precondition) && final(self)@ == old(
                        self,
                    )@
                } else {
                    r == Ok::<Effect, CoreError>(Effect::Render) && final(self)@ == old(
                        self,
                    )@.receive(SessionKey { account: chat_item, is_group }, sender, content@)
                },
                MainMsg::SendFriendMessage(target, content) => if old(self)@.self_account is None {
                    r == Err::<Effect, CoreError>(CoreError::Precondition) && final(self)@ == old(
                        self,
                    )@
                } else {
                    r == Ok::<Effect, CoreError>(Effect::Render) && final(self)@ == old(
                        self,
                    )@.send(target, content@)
                },
                MainMsg::SelectChatroom(account, is_group) => r == Ok::<Effect, CoreError>(
                    Effect::Render,
                ) && final(self)@ == old(self)@.select(SessionKey { account, is_group }),
                MainMsg::InitSidebar => r == Ok::<Effect, CoreError>(Effect::RefreshContact)
                    && final(self)@ == old(self)@,
            },
    {
        match msg {
            MainMsg::WindowFolded => {
                self.set_layout(LayoutMode::Combined);
                Ok(Effect::Render)
            },
            MainMsg::WindowUnfolded => {
                self.set_layout(LayoutMode::Split);
                Ok(Effect::Render)
            },
            MainMsg::ReceiveMessage(chat_item, is_group, sender, content) => {
                match self.receive_message(chat_item, is_group, sender, content) {
                    Ok(()) => Ok(Effect::Render),
                    Err(e) => Err(e),
                }
            },
            MainMsg::SendFriendMessage(target, content) => {
                match self.send_self_message(target, content) {
                    Ok(()) => Ok(Effect::Render),
                    Err(e) => Err(e),
                }
            },
            MainMsg::SelectChatroom(account, is_group) => {
                self.select(account, is_group);
                Ok(Effect::Render)
            },
            MainMsg::InitSidebar => Ok(Effect::RefreshContact),
        }
    }

    /// The focused conversation, if any.
    pub fn focus(&self) -> (r: Option<SessionKey>)
        ensures
            r == self@.focus,
    {
        self.focus
    }

    pub fn layout(&self) -> (r: LayoutMode)
        ensures
            r == self@.layout,
    {
        self.layout
    }

    pub fn self_account(&self) -> (r: Option<i64>)
        ensures
            r == self@.self_account,
    {
        self.self_account
    }

    /// The pending view message, left in place.
    pub fn view_msg(&self) -> (r: Option<ViewMsg>)
        ensures
            r == self@.pending,
    {
        self.message
    }

    /// The conversations, most recently opened first.
    pub fn chatrooms(&self) -> (r: &Vec<Chatroom>)
        ensures
            r@.map_values(|c: Chatroom| c@) == self@.rooms,
    {
        &self.chatrooms
    }

    /// The sidebar entries, most recently touched first.
    pub fn chat_items(&self) -> (r: &Vec<ChatItem>)
        ensures
            r@.map_values(|c: ChatItem| c@) == self@.items,
    {
        &self.chat_items
    }

    /// The conversation `(account, is_group)`, if it exists.
    pub fn chatroom(&self, account: i64, is_group: bool) -> (r: Option<&Chatroom>)
        requires
            self@.wf(),
        ensures
            r is Some <==> self@.contains(SessionKey { account, is_group }),
            r matches Some(c) ==> c@.key == (SessionKey { account, is_group }) && c@.messages
                == self@.history(SessionKey { account, is_group }),
    {
        match self.find_chatroom(SessionKey { account, is_group }) {
            Some(i) => Some(&self.chatrooms[i]),
            None => None,
        }
    }
}

} // verus!
