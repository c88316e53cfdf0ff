use gtk_qq::{ChatItem, Chatroom, CoreError, Effect, Friend, Group, LayoutMode, MainMsg, MainPageModel, SessionKey, ViewMsg};

fn key(account: i64, is_group: bool) -> SessionKey {
    SessionKey { account, is_group }
}

fn room_keys(m: &MainPageModel) -> Vec<SessionKey> {
    m.chatrooms().iter().map(|c: &Chatroom| c.key()).collect()
}

fn item_keys(m: &MainPageModel) -> Vec<SessionKey> {
    m.chat_items().iter().map(|c: &ChatItem| c.key()).collect()
}

fn sorted(mut v: Vec<SessionKey>) -> Vec<(i64, bool)> {
    let mut r: Vec<(i64, bool)> = v.drain(..).map(|k| (k.account, k.is_group)).collect();
    r.sort();
    r
}

fn assert_lockstep(m: &MainPageModel) {
    let rooms = sorted(room_keys(m));
    let items = sorted(item_keys(m));
    assert_eq!(rooms, items);
    let mut dedup = rooms.clone();
    dedup.dedup();
    assert_eq!(dedup, rooms);
}

#[test]
fn keys_stay_in_lockstep() {
    let mut m = MainPageModel::new(Some(1));
    assert_lockstep(&m);
    m.select(5, false);
    assert_lockstep(&m);
    m.send_self_message(5, "a".to_string()).unwrap();
    assert_lockstep(&m);
    m.receive_message(9, true, 3, "b".to_string()).unwrap();
    assert_lockstep(&m);
    m.send_self_message(6, "c".to_string()).unwrap();
    assert_lockstep(&m);
    m.receive_message(5, false, 5, "d".to_string()).unwrap();
    assert_lockstep(&m);
    m.select(9, true);
    m.select(9, false);
    assert_lockstep(&m);
    assert_eq!(m.chatrooms().len(), 4);
}

#[test]
fn select_twice_is_idempotent() {
    let mut m = MainPageModel::new(Some(1));
    m.receive_message(3, false, 3, "x".to_string()).unwrap();
    m.receive_message(4, false, 4, "y".to_string()).unwrap();
    let first = m.select(3, false);
    let items_after_first = item_keys(&m);
    let rooms_after_first = room_keys(&m);
    let len_after_first = m.chatroom(3, false).unwrap().messages.len();
    let second = m.select(3, false);
    assert_eq!(first, second);
    assert_eq!(first, ViewMsg::ShowConversation(key(3, false)));
    assert_eq!(item_keys(&m), items_after_first);
    assert_eq!(room_keys(&m), rooms_after_first);
    assert_eq!(m.chatroom(3, false).unwrap().messages.len(), len_after_first);
    assert_eq!(m.view_msg(), Some(ViewMsg::ShowConversation(key(3, false))));
}

#[test]
fn group_and_friend_with_same_id_are_distinct() {
    let mut m = MainPageModel::new(Some(1));
    m.select(42, true);
    m.select(42, false);
    assert_eq!(m.chatrooms().len(), 2);
    assert!(m.is_item_in_list(42, true));
    assert!(m.is_item_in_list(42, false));
    m.receive_message(42, true, 8, "to the group".to_string()).unwrap();
    assert_eq!(m.chatroom(42, true).unwrap().messages.len(), 1);
    assert_eq!(m.chatroom(42, false).unwrap().messages.len(), 0);
    m.send_self_message(42, "to the friend".to_string()).unwrap();
    assert_eq!(m.chatroom(42, true).unwrap().messages.len(), 1);
    assert_eq!(m.chatroom(42, false).unwrap().messages.len(), 1);
    assert_eq!(m.chatroom(42, false).unwrap().messages[0].content, "to the friend");
}

#[test]
fn first_conversation_is_focused() {
    let mut m = MainPageModel::new(Some(1));
    m.send_self_message(7, "hi".to_string()).unwrap();
    assert_eq!(m.focus(), Some(key(7, false)));
    assert_eq!(m.take_view_msg(), Some(ViewMsg::ShowConversation(key(7, false))));
    assert_eq!(m.take_view_msg(), None);
    let room = m.chatroom(7, false).unwrap();
    assert_eq!(room.messages.len(), 1);
    assert_eq!(room.messages[0].sender, 1);
    assert_eq!(room.messages[0].target, 7);
    assert_eq!(room.messages[0].content, "hi");
}

#[test]
fn second_conversation_is_not_focused() {
    let mut m = MainPageModel::new(Some(1));
    m.send_self_message(7, "hi".to_string()).unwrap();
    m.take_view_msg();
    m.receive_message(8, false, 8, "yo".to_string()).unwrap();
    assert_eq!(m.focus(), Some(key(7, false)));
    assert_eq!(m.take_view_msg(), None);
}

#[test]
fn received_message_is_attributed() {
    let mut m = MainPageModel::new(Some(1000));
    m.receive_message(100, true, 55, "hello".to_string()).unwrap();
    let room = m.chatroom(100, true).unwrap();
    assert_eq!(room.messages.len(), 1);
    assert_eq!(room.messages[0].sender, 55);
    assert_eq!(room.messages[0].target, 1000);
    assert_eq!(room.messages[0].content, "hello");
    assert_eq!(m.focus(), Some(key(100, true)));
}

#[test]
fn layout_toggle_keeps_focus() {
    let mut m = MainPageModel::new(Some(1));
    m.select(3, false);
    m.select(4, true);
    let rooms = room_keys(&m);
    m.set_layout(LayoutMode::Combined);
    assert_eq!(m.layout(), LayoutMode::Combined);
    assert_eq!(m.view_msg(), Some(ViewMsg::ShowConversationPane));
    m.set_layout(LayoutMode::Split);
    assert_eq!(m.layout(), LayoutMode::Split);
    assert_eq!(m.focus(), Some(key(4, true)));
    assert_eq!(room_keys(&m), rooms);
}

#[test]
fn send_without_own_account_is_refused() {
    let mut m = MainPageModel::new(None);
    assert_eq!(m.send_self_message(7, "hi".to_string()), Err(CoreError::Precondition));
    assert_eq!(m.receive_message(7, false, 7, "hi".to_string()), Err(CoreError::Precondition));
    assert_eq!(m.chatrooms().len(), 0);
    assert_eq!(m.chat_items().len(), 0);
    assert_eq!(m.focus(), None);
    m.set_self_account(2);
    assert_eq!(m.self_account(), Some(2));
    assert_eq!(m.send_self_message(7, "hi".to_string()), Ok(()));
    assert_eq!(m.chatroom(7, false).unwrap().messages[0].sender, 2);
}

#[test]
fn update_moves_entry_to_front() {
    let mut m = MainPageModel::new(Some(1));
    m.receive_message(1, false, 1, "one".to_string()).unwrap();
    m.receive_message(2, false, 2, "two".to_string()).unwrap();
    m.receive_message(3, true, 9, "three".to_string()).unwrap();
    assert_eq!(item_keys(&m), vec![key(3, true), key(2, false), key(1, false)]);
    m.receive_message(1, false, 1, "again".to_string()).unwrap();
    assert_eq!(item_keys(&m), vec![key(1, false), key(3, true), key(2, false)]);
    assert_eq!(m.chat_items()[0].last_message, "again");
    assert_eq!(room_keys(&m), vec![key(3, true), key(2, false), key(1, false)]);
    assert_eq!(m.chatroom(1, false).unwrap().messages.len(), 2);
}

#[test]
fn select_opens_with_empty_last_message() {
    let mut m = MainPageModel::new(Some(1));
    m.receive_message(1, false, 1, "one".to_string()).unwrap();
    m.select(2, true);
    assert_eq!(item_keys(&m), vec![key(2, true), key(1, false)]);
    assert_eq!(m.chat_items()[0].last_message, "");
    assert_eq!(m.focus(), Some(key(2, true)));
    m.select(1, false);
    assert_eq!(item_keys(&m), vec![key(2, true), key(1, false)]);
}

#[test]
fn insert_chatroom_never_duplicates() {
    let mut m = MainPageModel::new(Some(1));
    assert!(m.insert_chatroom(5, false));
    assert!(!m.insert_chatroom(5, false));
    assert!(m.insert_chatroom(5, true));
    assert_eq!(m.chatrooms().len(), 2);
    assert_eq!(m.chat_items().len(), 2);
}

#[test]
fn new_entries_take_names_from_contacts() {
    let mut m = MainPageModel::new(Some(1));
    let friends = vec![Friend { id: 7, name: "nick".to_string(), remark: "Seven".to_string(), group_id: 0 }];
    let groups = vec![Group { id: 70, name: "Team".to_string(), owner_id: 7 }];
    m.set_contacts(friends, groups);
    m.receive_message(7, false, 7, "a".to_string()).unwrap();
    m.receive_message(70, true, 7, "b".to_string()).unwrap();
    m.receive_message(71, true, 7, "c".to_string()).unwrap();
    m.select(8, false);
    let names: Vec<String> = m.chat_items().iter().map(|c| c.username.clone()).collect();
    assert_eq!(names, vec!["8", "71", "Team", "Seven"]);
}

#[test]
fn dispatcher_routes_events() {
    let mut m = MainPageModel::new(Some(1));
    assert_eq!(m.update(MainMsg::InitSidebar), Ok(Effect::RefreshContact));
    assert_eq!(m.chatrooms().len(), 0);
    assert_eq!(m.update(MainMsg::WindowFolded), Ok(Effect::Render));
    assert_eq!(m.layout(), LayoutMode::Combined);
    assert_eq!(m.take_view_msg(), Some(ViewMsg::ShowConversationPane));
    assert_eq!(m.update(MainMsg::WindowUnfolded), Ok(Effect::Render));
    assert_eq!(m.layout(), LayoutMode::Split);
    assert_eq!(m.take_view_msg(), None);
    assert_eq!(m.update(MainMsg::ReceiveMessage(100, true, 55, "hello".to_string())), Ok(Effect::Render));
    assert_eq!(m.update(MainMsg::SendFriendMessage(7, "hi".to_string())), Ok(Effect::Render));
    assert_eq!(m.update(MainMsg::SelectChatroom(7, false)), Ok(Effect::Render));
    assert_eq!(m.focus(), Some(key(7, false)));
    assert_eq!(m.take_view_msg(), Some(ViewMsg::ShowConversation(key(7, false))));
    assert_eq!(m.chatroom(100, true).unwrap().messages[0].sender, 55);
    assert_eq!(m.chatroom(7, false).unwrap().messages[0].target, 7);
}

#[test]
fn dispatcher_refuses_without_own_account() {
    let mut m = MainPageModel::new(None);
    assert_eq!(m.update(MainMsg::SendFriendMessage(7, "hi".to_string())), Err(CoreError::Precondition));
    assert_eq!(m.update(MainMsg::ReceiveMessage(7, false, 7, "hi".to_string())), Err(CoreError::Precondition));
    assert_eq!(m.chatrooms().len(), 0);
}
