use vstd::prelude::*;

use crate::contacts::{decimal_of, friend_remark_spec, lookup_name, remark_table, Friend};
use crate::registry::{LayoutMode, RegistryView, ViewMsg};
use crate::session::{MessageView, SessionKey};

verus! {

/// In a well-formed registry the conversations and the sidebar entries have the same
/// set of keys.
pub proof fn lemma_keys_in_lockstep(v: RegistryView)
    requires
        v.wf(),
    ensures
        v.room_keys().to_set() == v.item_keys().to_set(),
{
    assert(v.room_keys().to_set() =~= v.item_keys().to_set());
}

/// Selecting, sending, receiving and changing the layout keep the registry well formed,
/// so conversations and sidebar entries keep the same keys after any sequence of them.
pub proof fn lemma_operations_preserve_wf(
    v: RegistryView,
    k: SessionKey,
    sender: i64,
    target: i64,
    content: Seq<char>,
    mode: LayoutMode,
)
    requires
        v.wf(),
    ensures
        v.select(k).wf(),
        v.receive(k, sender, content).wf(),
        v.send(target, content).wf(),
        v.set_layout(mode).wf(),
{
    v.lemma_select(k);
    v.lemma_touch(k, content);
    v.touch(k, content).lemma_append(
        k,
        MessageView { sender, target: v.self_account->0, content },
    );
    let f = SessionKey { account: target, is_group: false };
    v.lemma_touch(f, content);
    v.touch(f, content).lemma_append(
        f,
        MessageView { sender: v.self_account->0, target, content },
    );
}

/// Selecting the same key twice in a row gives the state of selecting it once, and the
/// same pending view message.
pub proof fn lemma_select_idempotent(v: RegistryView, k: SessionKey)
    requires
        v.wf(),
    ensures
        v.select(k).select(k) == v.select(k),
        v.select(k).select(k).pending == Some(ViewMsg::ShowConversation(k)),
{
    v.lemma_select(k);
}

/// A group and a friend with the same id are two conversations: both exist after both
/// are selected, and a message received in one leaves the history of the other as it was.
pub proof fn lemma_group_friend_disjoint(v: RegistryView, id: i64, sender: i64, content: Seq<char>)
    requires
        v.wf(),
    ensures
        ({
            let g = SessionKey { account: id, is_group: true };
            let f = SessionKey { account: id, is_group: false };
            &&& v.select(g).select(f).contains(g)
            &&& v.select(g).select(f).contains(f)
            &&& v.receive(g, sender, content).history(f) == v.history(f)
            &&& v.receive(f, sender, content).history(g) == v.history(g)
            &&& v.send(id, content).history(g) == v.history(g)
        }),
{
    let g = SessionKey { account: id, is_group: true };
    let f = SessionKey { account: id, is_group: false };
    v.lemma_select(g);
    v.select(g).lemma_select(f);
    v.lemma_touch(g, content);
    v.touch(g, content).lemma_append(g, MessageView { sender, target: v.self_account->0, content });
    v.lemma_touch(f, content);
    v.touch(f, content).lemma_append(f, MessageView { sender, target: v.self_account->0, content });
    v.touch(f, content).lemma_append(
        f,
        MessageView { sender: v.self_account->0, target: id, content },
    );
}

/// A message sent from a registry without conversations opens and focuses its conversation.
pub proof fn lemma_first_conversation_focused(v: RegistryView, target: i64, content: Seq<char>)
    requires
        v.wf(),
        v.rooms.len() == 0,
    ensures
        v.send(target, content).focus == Some(SessionKey { account: target, is_group: false }),
{
    assert(!v.contains(SessionKey { account: target, is_group: false }));
}

/// A received message is appended to its conversation, from its sender to the own account;
/// a conversation opened by it holds exactly that message.
pub proof fn lemma_receive_attribution(
    v: RegistryView,
    k: SessionKey,
    sender: i64,
    content: Seq<char>,
)
    requires
        v.wf(),
        v.self_account is Some,
    ensures
        v.receive(k, sender, content).history(k) == v.history(k).push(
            MessageView { sender, target: v.self_account->0, content },
        ),
        !v.contains(k) ==> v.receive(k, sender, content).history(k) == seq![
            MessageView { sender, target: v.self_account->0, content },
        ],
{
    let m = MessageView { sender, target: v.self_account->0, content };
    v.lemma_touch(k, content);
    v.touch(k, content).lemma_append(k, m);
    if !v.contains(k) {
        assert(Seq::<MessageView>::empty().push(m) =~= seq![m]);
    }
}

/// Folding then unfolding changes neither conversations, sidebar nor focus: only the
/// layout comes back to split, with the request to show the conversation pane pending.
pub proof fn lemma_layout_toggle(v: RegistryView)
    ensures
        v.set_layout(LayoutMode::Combined).set_layout(LayoutMode::Split) == (RegistryView {
            layout: LayoutMode::Split,
            pending: Some(ViewMsg::ShowConversationPane),
            ..v
        }),
        v.set_layout(LayoutMode::Combined).set_layout(LayoutMode::Split).focus == v.focus,
{
}

/// The remark of a friend absent from the table is the decimal text of its id.
pub proof fn lemma_remark_fallback(friends: Seq<Friend>, id: i64)
    requires
        forall|i: int| 0 <= i < friends.len() ==> friends[i].id != id,
    ensures
        friend_remark_spec(friends, id) == decimal_of(id as int),
{
    lemma_lookup_absent(remark_table(friends), id);
}

proof fn lemma_lookup_absent(table: Seq<(i64, Seq<char>)>, id: i64)
    requires
        forall|i: int| 0 <= i < table.len() ==> table[i].0 != id,
    ensures
        lookup_name(table, id) is None,
    decreases table.len(),
{
    if table.len() > 0 {
        assert(table[0].0 != id);
        lemma_lookup_absent(table.drop_first(), id);
    }
}

} // verus!
