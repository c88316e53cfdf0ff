use vstd::prelude::*;

verus! {

/// A stored configuration entry.
#[derive(Debug)]
pub struct Config {
    pub key: String,
    pub value: String,
}

/// A friend as stored in the contact table.
#[derive(Debug, Clone)]
pub struct Friend {
    pub id: i64,
    pub name: String,
    pub remark: String,
    pub group_id: u8,
}

/// A named group of friends.
pub struct FriendsGroup {
    pub id: u8,
    pub name: String,
}

/// A chat group as stored in the contact table.
#[derive(Debug)]
pub struct Group {
    pub id: i64,
    pub name: String,
    pub owner_id: i64,
}

/// The character of a decimal digit.
pub open spec fn digit_char(d: nat) -> char {
    if d == 0 { '0' }
    else if d == 1 { '1' }
    else if d == 2 { '2' }
    else if d == 3 { '3' }
    else if d == 4 { '4' }
    else if d == 5 { '5' }
    else if d == 6 { '6' }
    else if d == 7 { '7' }
    else if d == 8 { '8' }
    else { '9' }
}

/// Decimal digits of a natural number, most significant first, without leading zeros.
pub open spec fn digits_of(n: nat) -> Seq<char>
    decreases n,
{
    if n < 10 {
        seq![digit_char(n)]
    } else {
        digits_of(n / 10).push(digit_char(n % 10))
    }
}

/// Decimal text of an integer, with a leading '-' when it is negative.
pub open spec fn decimal_of(n: int) -> Seq<char> {
    if n < 0 {
        seq!['-'] + digits_of((-n) as nat)
    } else {
        digits_of(n as nat)
    }
}

/// Relies on the `Display` impl of `i64` (through `ToString`), which writes the
/// number in decimal with a leading '-' when it is negative.
#[verifier::external_body]
pub(crate) fn decimal_string(n: i64) -> (r: String)
    ensures
        r@ == decimal_of(n as int),
{
    n.to_string()
}

/// The name stored for `id` in a table of (id, name) rows: the first row with that id.
pub open spec fn lookup_name(table: Seq<(i64, Seq<char>)>, id: i64) -> Option<Seq<char>>
    decreases table.len(),
{
    if table.len() == 0 {
        None
    } else if table[0].0 == id {
        Some(table[0].1)
    } else {
        lookup_name(table.drop_first(), id)
    }
}

/// A looked-up name, or the decimal text of the id when the lookup found nothing.
pub open spec fn name_or_decimal(found: Option<Seq<char>>, id: i64) -> Seq<char> {
    match found {
        Some(name) => name,
        None => decimal_of(id as int),
    }
}

/// The friend table as (id, remark) rows.
pub open spec fn remark_table(friends: Seq<Friend>) -> Seq<(i64, Seq<char>)> {
    friends.map_values(|f: Friend| (f.id, f.remark@))
}

/// The group table as (id, name) rows.
pub open spec fn group_table(groups: Seq<Group>) -> Seq<(i64, Seq<char>)> {
    groups.map_values(|g: Group| (g.id, g.name@))
}

/// The remark shown for a friend: the stored remark, or the decimal id when unknown.
pub open spec fn friend_remark_spec(friends: Seq<Friend>, id: i64) -> Seq<char> {
    name_or_decimal(lookup_name(remark_table(friends), id), id)
}

/// The name shown for a group: the stored name, or the decimal id when unknown.
pub open spec fn group_name_spec(groups: Seq<Group>, id: i64) -> Seq<char> {
    name_or_decimal(lookup_name(group_table(groups), id), id)
}

proof fn lemma_lookup_step(table: Seq<(i64, Seq<char>)>, i: int, id: i64)
    requires
        0 <= i < table.len(),
        table[i].0 != id,
    ensures
        lookup_name(table.subrange(i, table.len() as int), id) == lookup_name(
            table.subrange(i + 1, table.len() as int),
            id,
        ),
{
    assert(table.subrange(i, table.len() as int).drop_first() =~= table.subrange(
        i + 1,
        table.len() as int,
    ));
}

/// Turns the result of a name lookup into the text to show: the name found, or the
/// decimal id when the lookup failed.
pub fn name_or_id(found: Option<String>, id: i64) -> (r: String)
    ensures
        r@ == name_or_decimal(
            match found {
                Some(s) => Some(s@),
                None => None,
            },
            id,
        ),
{
    match found {
        Some(s) => s,
        None => decimal_string(id),
    }
}

/// Remark of the friend `friend_id`, or its decimal id when the table has no such friend.
pub fn get_friend_remark(friends: &Vec<Friend>, friend_id: i64) -> (r: String)
    ensures
        r@ == friend_remark_spec(friends@, friend_id),
{
    let ghost table = remark_table(friends@);
    assert(table.subrange(0, table.len() as int) =~= table);
    let mut i: usize = 0;
    while i < friends.len()
        invariant
            i <= friends.len(),
            table == remark_table(friends@),
            lookup_name(table, friend_id) == lookup_name(
                table.subrange(i as int, table.len() as int),
                friend_id,
            ),
        decreases friends.len() - i,
    {
        if friends[i].id == friend_id {
            let r = friends[i].remark.clone();
            assert(table.subrange(i as int, table.len() as int)[0] == table[i as int]);
            return r;
        }
        proof {
            lemma_lookup_step(table, i as int, friend_id);
        }
        i = i + 1;
    }
    assert(table.subrange(i as int, table.len() as int) =~= Seq::<(i64, Seq<char>)>::empty());
    decimal_string(friend_id)
}

/// Name of the group `group_id`, or its decimal id when the table has no such group.
pub fn get_group_name(groups: &Vec<Group>, group_id: i64) -> (r: String)
    ensures
        r@ == group_name_spec(groups@, group_id),
{
    let ghost table = group_table(groups@);
    assert(table.subrange(0, table.len() as int) =~= table);
    let mut i: usize = 0;
    while i < groups.len()
        invariant
            i <= groups.len(),
            table == group_table(groups@),
            lookup_name(table, group_id) == lookup_name(
                table.subrange(i as int, table.len() as int),
                group_id,
            ),
        decreases groups.len() - i,
    {
        if groups[i].id == group_id {
            let r = groups[i].name.clone();
            assert(table.subrange(i as int, table.len() as int)[0] == table[i as int]);
            return r;
        }
        proof {
            lemma_lookup_step(table, i as int, group_id);
        }
        i = i + 1;
    }
    assert(table.subrange(i as int, table.len() as int) =~= Seq::<(i64, Seq<char>)>::empty());
    decimal_string(group_id)
}

/// The rows are in ascending order of their sequence number.
pub open spec fn sorted_by_seq(s: Seq<(u8, FriendsGroup)>) -> bool {
    forall|a: int, b: int| 0 <= a < b < s.len() ==> s[a].0 <= s[b].0
}

/// Orders friend groups, given with their sequence numbers, by ascending sequence number.
pub fn order_friends_groups(groups: Vec<(u8, FriendsGroup)>) -> (r: Vec<(u8, FriendsGroup)>)
    ensures
        sorted_by_seq(r@),
        r@.to_multiset() == groups@.to_multiset(),
        r@.len() == groups@.len(),
{
    let ghost original = groups@;
    let mut rest = groups;
    let mut r: Vec<(u8, FriendsGroup)> = Vec::new();
    proof {
        vstd::seq_lib::to_multiset_len(r@);
        vstd::multiset::lemma_multiset_empty_len(r@.to_multiset());
        vstd::seq_lib::to_multiset_len(original);
    }
    while rest.len() > 0
        invariant
            sorted_by_seq(r@),
            r@.to_multiset().add(rest@.to_multiset()) == original.to_multiset(),
        decreases rest.len(),
    {
        let ghost before = rest@;
        let x = rest.remove(0);
        let mut p: usize = 0;
        while p < r.len() && r[p].0 <= x.0
            invariant
                p <= r.len(),
                forall|a: int| 0 <= a < p ==> r@[a].0 <= x.0,
            decreases r.len() - p,
        {
            p = p + 1;
        }
        let ghost r0 = r@;
        r.insert(p, x);
        proof {
            assert forall|a: int, b: int| 0 <= a < b < r@.len() implies r@[a].0 <= r@[b].0 by {
                if b < p {
                } else if b == p {
                } else if a < p {
                    assert(r@[b] == r0[b - 1]);
                } else if a == p {
                    assert(r@[b] == r0[b - 1]);
                    assert(r0[p as int].0 > x.0);
                    assert(r0[p as int].0 <= r0[b - 1].0 || b - 1 == p);
                } else {
                    assert(r@[a] == r0[a - 1]);
                    assert(r@[b] == r0[b - 1]);
                }
            }
            vstd::seq_lib::to_multiset_remove(before, 0);
            vstd::seq_lib::to_multiset_insert(r0, p as int, x);
            assert(before.to_multiset().contains(x)) by {
                vstd::seq_lib::to_multiset_contains(before, x);
            }
            assert(r@.to_multiset().add(rest@.to_multiset()) =~= original.to_multiset());
        }
    }
    proof {
        vstd::seq_lib::to_multiset_len(rest@);
        vstd::multiset::lemma_multiset_empty_len(rest@.to_multiset());
        assert(r@.to_multiset() =~= original.to_multiset());
        vstd::seq_lib::to_multiset_len(r@);
    }
    r
}

} // verus!
