use gtk_qq::{order_friends_groups, FriendsGroup, avatar_file_name, avatar_path_components, avatar_url, get_friend_remark, get_group_name, name_or_id, Friend, Group};

fn friends() -> Vec<Friend> {
    vec![
        Friend { id: 1, name: "a".to_string(), remark: "Alice".to_string(), group_id: 0 },
        Friend { id: 2, name: "b".to_string(), remark: "Bob".to_string(), group_id: 1 },
    ]
}

#[test]
fn friend_remark_found() {
    assert_eq!(get_friend_remark(&friends(), 2), "Bob");
    assert_eq!(get_friend_remark(&friends(), 1), "Alice");
}

#[test]
fn friend_remark_falls_back_to_id() {
    assert_eq!(get_friend_remark(&friends(), 12345), "12345");
    assert_eq!(get_friend_remark(&Vec::new(), 0), "0");
    assert_eq!(get_friend_remark(&friends(), -5), "-5");
    assert_eq!(get_friend_remark(&friends(), i64::MIN), "-9223372036854775808");
}

#[test]
fn group_name_found_and_fallback() {
    let groups = vec![Group { id: 10, name: "Rust".to_string(), owner_id: 1 }];
    assert_eq!(get_group_name(&groups, 10), "Rust");
    assert_eq!(get_group_name(&groups, 11), "11");
}

#[test]
fn lookup_result_or_id() {
    assert_eq!(name_or_id(Some("Carol".to_string()), 3), "Carol");
    assert_eq!(name_or_id(None, 42), "42");
}

#[test]
fn avatar_locations() {
    assert_eq!(avatar_file_name(123), "123.png");
    assert_eq!(avatar_url(123), "http://q2.qlogo.cn/headimg_dl?dst_uin=123&spec=160");
    assert_eq!(avatar_path_components(9), vec![".gtk-qq", "avatars", "users", "9.png"]);
}

#[test]
fn friend_groups_ordered_by_sequence() {
    let input = vec![
        (3u8, FriendsGroup { id: 10, name: "c".to_string() }),
        (1u8, FriendsGroup { id: 11, name: "a".to_string() }),
        (2u8, FriendsGroup { id: 12, name: "b".to_string() }),
        (1u8, FriendsGroup { id: 13, name: "a2".to_string() }),
    ];
    let out = order_friends_groups(input);
    let seqs: Vec<u8> = out.iter().map(|p| p.0).collect();
    let ids: Vec<u8> = out.iter().map(|p| p.1.id).collect();
    assert_eq!(seqs, vec![1, 1, 2, 3]);
    assert_eq!(ids, vec![11, 13, 12, 10]);
    assert!(order_friends_groups(Vec::new()).is_empty());
}
