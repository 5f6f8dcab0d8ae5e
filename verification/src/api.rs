//! The addresses of the remote service's interfaces.

use crate::text::{decimal, u32_to_string};
use vstd::prelude::*;

verus! {

/// `base_url` ending in a `/`: as it is where it does, else with one added.
pub open spec fn with_slash(base_url: Seq<char>) -> Seq<char> {
    if base_url.len() > 0 && base_url.last() == '/' {
        base_url
    } else {
        base_url.push('/')
    }
}

/// The address that gives the descriptor of an interface.
pub open spec fn interface_detail_address(
    base_url: Seq<char>,
    token: Seq<char>,
    interface_id: u32,
) -> Seq<char> {
    base_url + "api/interface/get"@ + "?token="@ + token + "&id="@ + decimal(interface_id as nat)
}

/// The address that lists the interfaces of a category.
pub open spec fn cat_interface_list_address(
    base_url: Seq<char>,
    token: Seq<char>,
    cat_id: u32,
) -> Seq<char> {
    with_slash(base_url) + "api/interface/list_cat"@ + "?token="@ + token + "&catid="@ + decimal(
        cat_id as nat,
    ) + "&limit=1000"@
}

/// The address that describes a project.
pub open spec fn project_base_info_address(base_url: Seq<char>, token: Seq<char>) -> Seq<char> {
    base_url + "api/project/get"@ + "?token="@ + token
}

/// The address that lists the categories of a project.
pub open spec fn project_cat_menu_address(
    base_url: Seq<char>,
    project_id: u32,
    token: Seq<char>,
) -> Seq<char> {
    base_url + "api/interface/getCatMenu"@ + "?project_id="@ + decimal(project_id as nat)
        + "&token="@ + token
}

/// The proxy to use: the one that is set, unless it is empty.
pub open spec fn chosen_proxy(proxy: Option<String>) -> Option<Seq<char>> {
    match proxy {
        Some(p) => if p@.len() == 0 {
            None
        } else {
            Some(p@)
        },
        None => None,
    }
}

/// The address that gives the descriptor of an interface.
pub fn interface_detail_url(base_url: &str, token: &str, interface_id: u32) -> (r: String)
    ensures
        r@ == interface_detail_address(base_url@, token@, interface_id),
{
    let mut out = String::from_str(base_url);
    out.append("api/interface/get");
    out.append("?token=");
    out.append(token);
    out.append("&id=");
    out.append(u32_to_string(interface_id).as_str());
    out
}

/// The address that lists the interfaces of a category.
pub fn cat_interface_list_url(base_url: &str, token: &str, cat_id: u32) -> (r: String)
    ensures
        r@ == cat_interface_list_address(base_url@, token@, cat_id),
{
    let mut out = String::from_str(base_url);
    let n = base_url.unicode_len();
    if n == 0 || base_url.get_char(n - 1) != '/' {
        out.push('/');
    }
    out.append("api/interface/list_cat");
    out.append("?token=");
    out.append(token);
    out.append("&catid=");
    out.append(u32_to_string(cat_id).as_str());
    out.append("&limit=1000");
    out
}

/// The address that describes a project.
pub fn project_base_info_url(base_url: &str, token: &str) -> (r: String)
    ensures
        r@ == project_base_info_address(base_url@, token@),
{
    let mut out = String::from_str(base_url);
    out.append("api/project/get");
    out.append("?token=");
    out.append(token);
    out
}

/// The address that lists the categories of a project.
pub fn project_cat_menu_url(base_url: &str, project_id: u32, token: &str) -> (r: String)
    ensures
        r@ == project_cat_menu_address(base_url@, project_id, token@),
{
    let mut out = String::from_str(base_url);
    out.append("api/interface/getCatMenu");
    out.append("?project_id=");
    out.append(u32_to_string(project_id).as_str());
    out.append("&token=");
    out.append(token);
    out
}

/// The proxy to use: the one that is set, unless it is empty.
pub fn get_proxy(proxy: &Option<String>) -> (r: Option<&str>)
    ensures
        match r {
            Some(p) => chosen_proxy(*proxy) == Some(p@),
            None => chosen_proxy(*proxy) is None,
        },
{
    match proxy {
        Some(p) => {
            if p.as_str().is_empty() {
                None
            } else {
                Some(p.as_str())
            }
        },
        None => None,
    }
}

} // verus!
