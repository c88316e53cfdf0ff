use gtk_qq::{chatroom_title, find_friend, stack_child_name, Friend, SessionKey};

fn friends() -> Vec<Friend> {
    vec![
        Friend { id: 5, name: "nick5".to_string(), remark: "Five".to_string(), group_id: 0 },
        Friend { id: 6, name: "nick6".to_string(), remark: "Six".to_string(), group_id: 0 },
        Friend { id: 5, name: "other".to_string(), remark: "Dup".to_string(), group_id: 0 },
    ]
}

#[test]
fn child_names() {
    assert_eq!(stack_child_name(SessionKey { account: 42, is_group: true }), "42 group");
    assert_eq!(stack_child_name(SessionKey { account: 42, is_group: false }), "42 friend");
}

#[test]
fn titles() {
    let f = friends();
    assert_eq!(
        chatroom_title(&f, SessionKey { account: 6, is_group: false }),
        ("Six".to_string(), "nick6 (6)".to_string())
    );
    assert_eq!(
        chatroom_title(&f, SessionKey { account: 5, is_group: false }),
        ("Five".to_string(), "nick5 (5)".to_string())
    );
    assert_eq!(
        chatroom_title(&f, SessionKey { account: 6, is_group: true }),
        ("6".to_string(), "6".to_string())
    );
    assert_eq!(
        chatroom_title(&f, SessionKey { account: 9, is_group: false }),
        ("9".to_string(), "9".to_string())
    );
}

#[test]
fn first_friend_found() {
    let f = friends();
    assert_eq!(find_friend(&f, 5), Some(0));
    assert_eq!(find_friend(&f, 6), Some(1));
    assert_eq!(find_friend(&f, 7), None);
}
