use vstd::prelude::*;

use crate::contacts::{decimal_of, decimal_string, Friend};
use crate::session::SessionKey;

verus! {

/// `i` is the first row of the friend table with this id.
pub open spec fn is_first_friend(friends: Seq<Friend>, id: i64, i: int) -> bool {
    &&& 0 <= i < friends.len()
    &&& friends[i].id == id
    &&& forall|j: int| 0 <= j < i ==> friends[j].id != id
}

/// Position of the first friend with this id, if any.
pub fn find_friend(friends: &Vec<Friend>, id: i64) -> (r: Option<usize>)
    ensures
        r matches Some(i) ==> is_first_friend(friends@, id, i as int),
        r is None ==> forall|j: int| 0 <= j < friends@.len() ==> friends@[j].id != id,
{
    let mut i: usize = 0;
    while i < friends.len()
        invariant
            i <= friends.len(),
            forall|j: int| 0 <= j < i ==> friends@[j].id != id,
        decreases friends.len() - i,
    {
        if friends[i].id == id {
            return Some(i);
        }
        i = i + 1;
    }
    None
}

/// Name of the page that shows the conversation `key`: its id, then "group" or "friend".
pub fn stack_child_name(key: SessionKey) -> (r: String)
    ensures
        r@ == decimal_of(key.account as int) + if key.is_group {
            " group"@
        } else {
            " friend"@
        },
{
    let id = decimal_string(key.account);
    if key.is_group {
        id.concat(" group")
    } else {
        id.concat(" friend")
    }
}

/// Title and subtitle of the conversation `key`. A group shows its id twice; a friend
/// shows its remark, then its nickname with the id in parentheses; a friend missing from
/// the table shows its id twice.
pub fn chatroom_title(friends: &Vec<Friend>, key: SessionKey) -> (r: (String, String))
    ensures
        key.is_group ==> r.0@ == decimal_of(key.account as int) && r.1@ == decimal_of(
            key.account as int,
        ),
        !key.is_group ==> forall|i: int| #[trigger]
            is_first_friend(friends@, key.account, i) ==> r.0@ == friends@[i].remark@ && r.1@
                == friends@[i].name@ + " ("@ + decimal_of(key.account as int) + ")"@,
        !key.is_group && (forall|j: int| 0 <= j < friends@.len() ==> friends@[j].id != key.account)
            ==> r.0@ == decimal_of(key.account as int) && r.1@ == decimal_of(key.account as int),
{
    if key.is_group {
        return (decimal_string(key.account), decimal_string(key.account));
    }
    match find_friend(friends, key.account) {
        Some(i) => {
            let friend = &friends[i];
            let title = friend.remark.clone();
            let id = decimal_string(key.account);
            let subtitle = friend.name.clone().concat(" (").concat(id.as_str()).concat(")");
            proof {
                assert forall|k: int| #[trigger] is_first_friend(friends@, key.account, k) implies k
                    == i as int by {
                    if k < i as int {
                        assert(friends@[k].id != key.account);
                    } else if k > i as int {
                        assert(friends@[i as int].id != key.account);
                    }
                }
            }
            (title, subtitle)
        },
        None => (decimal_string(key.account), decimal_string(key.account)),
    }
}

} // verus!
