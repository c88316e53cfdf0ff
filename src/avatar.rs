use vstd::prelude::*;

use crate::contacts::{decimal_of, decimal_string};

verus! {

/// File name of a user's cached avatar: the decimal id with a ".png" extension.
pub fn avatar_file_name(user_id: i64) -> (r: String)
    ensures
        r@ == decimal_of(user_id as int) + ".png"@,
{
    decimal_string(user_id).concat(".png")
}

/// Path of a user's cached avatar below the home directory, one component per element.
pub fn avatar_path_components(user_id: i64) -> (r: Vec<String>)
    ensures
        r@.len() == 4,
        r@[0]@ == ".gtk-qq"@,
        r@[1]@ == "avatars"@,
        r@[2]@ == "users"@,
        r@[3]@ == decimal_of(user_id as int) + ".png"@,
{
    let mut r: Vec<String> = Vec::new();
    r.push(String::from_str(".gtk-qq"));
    r.push(String::from_str("avatars"));
    r.push(String::from_str("users"));
    r.push(avatar_file_name(user_id));
    r
}

/// Address the avatar of a user is downloaded from.
pub fn avatar_url(user_id: i64) -> (r: String)
    ensures
        r@ == "http://q2.qlogo.cn/headimg_dl?dst_uin="@ + decimal_of(user_id as int) + "&spec=160"@,
{
    let base = String::from_str("http://q2.qlogo.cn/headimg_dl?dst_uin=");
    let id = decimal_string(user_id);
    let with_id = base.concat(id.as_str());
    with_id.concat("&spec=160")
}

} // verus!
