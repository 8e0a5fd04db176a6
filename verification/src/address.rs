//! Interface address logic: filtering a host's interface enumeration
//! down to one interface's IPv6 addresses, selecting the global
//! (non-link-local) address to publish, and the grouped, alphabetical
//! diagnostic listing of every IPv6-bearing interface. The library
//! receives the enumeration as plain values; reading it off the host
//! happens outside.

use vstd::prelude::*;

use crate::model::DdnsError;

verus! {

/// One enumerated interface address: interface name, the address as
/// text, and whether it is an IPv6 address.
#[derive(Debug, Clone)]
pub struct NetInterface {
    pub name: String,
    pub addr: String,
    pub is_ipv6: bool,
}

/// Whether an address string starts with the link-local prefix
/// `fe80:`.
pub open spec fn is_link_local(a: Seq<char>) -> bool {
    a.len() >= 5 && a[0] == 'f' && a[1] == 'e' && a[2] == '8' && a[3] == '0' && a[4] == ':'
}

/// Index of the first non-link-local address at or after `from`.
pub open spec fn first_global_from(addrs: Seq<String>, from: int) -> Option<int>
    decreases addrs.len() - from,
{
    if from < 0 || from >= addrs.len() {
        None
    } else if !is_link_local(addrs[from]@) {
        Some(from)
    } else {
        first_global_from(addrs, from + 1)
    }
}

/// Index of the first non-link-local address, if any.
pub open spec fn first_global(addrs: Seq<String>) -> Option<int> {
    first_global_from(addrs, 0)
}

/// The address a run publishes: the first non-link-local address,
/// falling back to the first address when all are link-local.
pub open spec fn selected_address(addrs: Seq<String>) -> String
    recommends
        addrs.len() > 0,
{
    match first_global(addrs) {
        Some(i) => addrs[i],
        None => addrs[0],
    }
}

/// The IPv6 addresses bound to the interface called `name`, in
/// enumeration order.
pub open spec fn ipv6_addrs_of(ifs: Seq<NetInterface>, name: Seq<char>) -> Seq<String>
    decreases ifs.len(),
{
    if ifs.len() == 0 {
        Seq::empty()
    } else {
        let rest = ipv6_addrs_of(ifs.drop_last(), name);
        if ifs.last().is_ipv6 && ifs.last().name@ == name {
            rest.push(ifs.last().addr)
        } else {
            rest
        }
    }
}

/// Whether `a` starts with `fe80:`.
fn addr_is_link_local(a: &str) -> (b: bool)
    ensures
        b == is_link_local(a@),
{
    let n = a.unicode_len();
    if n < 5 {
        return false;
    }
    a.get_char(0) == 'f' && a.get_char(1) == 'e' && a.get_char(2) == '8' && a.get_char(3) == '0'
        && a.get_char(4) == ':'
}

/// Picks the address to publish: the first address that does not
/// start with `fe80:`, the first address of all when every one does,
/// and a failure on an empty list.
pub fn select_global_address(addresses: &Vec<String>) -> (r: Result<String, DdnsError>)
    ensures
        addresses@.len() == 0 ==> (r matches Err(e) && e is NoAddressesFound),
        addresses@.len() > 0 ==> (r matches Ok(a) && a == selected_address(addresses@)),
{
    if addresses.len() == 0 {
        return Err(DdnsError::NoAddressesFound);
    }
    let n = addresses.len();
    let mut i: usize = 0;
    while i < n
        invariant
            0 <= i <= n,
            n == addresses@.len(),
            first_global(addresses@) == first_global_from(addresses@, i as int),
        decreases n - i,
    {
        if !addr_is_link_local(addresses[i].as_str()) {
            return Ok(addresses[i].clone());
        }
        i = i + 1;
    }
    Ok(addresses[0].clone())
}

/// Collects the IPv6 addresses of the interface called `name`, in
/// enumeration order.
fn collect_ipv6(interfaces: &Vec<NetInterface>, name: &String) -> (v: Vec<String>)
    ensures
        v@ == ipv6_addrs_of(interfaces@, name@),
{
    let n = interfaces.len();
    let mut v: Vec<String> = Vec::new();
    let mut i: usize = 0;
    while i < n
        invariant
            0 <= i <= n,
            n == interfaces@.len(),
            v@ == ipv6_addrs_of(interfaces@.take(i as int), name@),
        decreases n - i,
    {
        proof {
            assert(interfaces@.take(i + 1int).drop_last() =~= interfaces@.take(i as int));
            assert(interfaces@.take(i + 1int).last() == interfaces@[i as int]);
        }
        if interfaces[i].is_ipv6 && interfaces[i].name == *name {
            v.push(interfaces[i].addr.clone());
        }
        i = i + 1;
    }
    proof {
        assert(interfaces@.take(n as int) =~= interfaces@);
    }
    v
}

/// The IPv6 addresses bound to the named interface, in enumeration
/// order; a failure when the interface has none or does not exist.
pub fn get_ipv6_address(interfaces: &Vec<NetInterface>, net_card: String) -> (r: Result<
    Vec<String>,
    DdnsError,
>)
    ensures
        ipv6_addrs_of(interfaces@, net_card@).len() > 0 ==> (r matches Ok(v) && v@
            == ipv6_addrs_of(interfaces@, net_card@)),
        ipv6_addrs_of(interfaces@, net_card@).len() == 0 ==> (r matches Err(e) && (
        e is NoAddressesFound)),
{
    let v = collect_ipv6(interfaces, &net_card);
    if v.len() == 0 {
        Err(DdnsError::NoAddressesFound)
    } else {
        Ok(v)
    }
}

/// The address the run publishes for the named interface: its IPv6
/// addresses are collected and the global one selected; a failure
/// when the interface has no IPv6 address at all.
pub fn get_local_ipv6_address(interfaces: &Vec<NetInterface>, net_card: String) -> (r: Result<
    String,
    DdnsError,
>)
    ensures
        ipv6_addrs_of(interfaces@, net_card@).len() > 0 ==> (r matches Ok(a) && a
            == selected_address(ipv6_addrs_of(interfaces@, net_card@))),
        ipv6_addrs_of(interfaces@, net_card@).len() == 0 ==> (r matches Err(e) && (
        e is NoAddressesFound)),
{
    match get_ipv6_address(interfaces, net_card) {
        Ok(addrs) => select_global_address(&addrs),
        Err(e) => Err(e),
    }
}

/// Lexicographic order on character sequences, by code point; ties on
/// a common prefix fall to the shorter sequence.
pub open spec fn lex_le(a: Seq<char>, b: Seq<char>) -> bool
    decreases a.len(),
{
    if a.len() == 0 {
        true
    } else if b.len() == 0 {
        false
    } else if (a[0] as u32) < (b[0] as u32) {
        true
    } else if (a[0] as u32) == (b[0] as u32) {
        lex_le(a.drop_first(), b.drop_first())
    } else {
        false
    }
}

/// Any two character sequences are ordered one way or the other.
proof fn lemma_lex_le_total(a: Seq<char>, b: Seq<char>)
    ensures
        lex_le(a, b) || lex_le(b, a),
    decreases a.len(),
{
    if a.len() == 0 || b.len() == 0 {
    } else if (a[0] as u32) == (b[0] as u32) {
        lemma_lex_le_total(a.drop_first(), b.drop_first());
    }
}

/// Lexicographic order is transitive.
proof fn lemma_lex_le_trans(a: Seq<char>, b: Seq<char>, c: Seq<char>)
    requires
        lex_le(a, b),
        lex_le(b, c),
    ensures
        lex_le(a, c),
    decreases a.len(),
{
    if a.len() == 0 || b.len() == 0 || c.len() == 0 {
    } else if (a[0] as u32) == (b[0] as u32) && (b[0] as u32) == (c[0] as u32) {
        lemma_lex_le_trans(a.drop_first(), b.drop_first(), c.drop_first());
    }
}

/// Whether `a` orders at or before `b` lexicographically.
fn str_lex_le(a: &str, b: &str) -> (r: bool)
    ensures
        r == lex_le(a@, b@),
{
    let la = a.unicode_len();
    let lb = b.unicode_len();
    let mut i: usize = 0;
    proof {
        assert(a@.skip(0int) =~= a@);
        assert(b@.skip(0int) =~= b@);
    }
    loop
        invariant
            i <= la,
            i <= lb,
            la == a@.len(),
            lb == b@.len(),
            lex_le(a@, b@) == lex_le(a@.skip(i as int), b@.skip(i as int)),
        decreases la - i,
    {
        if i >= la {
            return true;
        }
        if i >= lb {
            return false;
        }
        let ca = a.get_char(i);
        let cb = b.get_char(i);
        proof {
            assert(a@.skip(i as int)[0] == a@[i as int]);
            assert(b@.skip(i as int)[0] == b@[i as int]);
            assert(a@.skip(i as int).drop_first() =~= a@.skip(i + 1int));
            assert(b@.skip(i as int).drop_first() =~= b@.skip(i + 1int));
        }
        let ca32 = ca as u32;
        let cb32 = cb as u32;
        if ca32 < cb32 {
            return true;
        }
        if ca32 > cb32 {
            return false;
        }
        i = i + 1;
    }
}

/// Group names are pairwise in lexicographic order.
pub open spec fn sorted_by_name(s: Seq<(String, Vec<String>)>) -> bool {
    forall|a: int, b: int| 0 <= a < b < s.len() ==> lex_le(s[a].0@, s[b].0@)
}

/// Some group carries the name `n`.
pub open spec fn has_group(s: Seq<(String, Vec<String>)>, n: Seq<char>) -> bool {
    exists|k: int| 0 <= k < s.len() && s[k].0@ == n
}

/// Whether a group named like `name` already exists.
fn contains_name(groups: &Vec<(String, Vec<String>)>, name: &String) -> (b: bool)
    ensures
        b == has_group(groups@, name@),
{
    let n = groups.len();
    let mut i: usize = 0;
    while i < n
        invariant
            0 <= i <= n,
            n == groups@.len(),
            forall|k: int| 0 <= k < i ==> groups@[k].0@ != name@,
        decreases n - i,
    {
        if groups[i].0 == *name {
            return true;
        }
        i = i + 1;
    }
    false
}

/// An interface that bears an IPv6 address makes its name's address
/// list non-empty.
proof fn lemma_ipv6_addrs_nonempty(ifs: Seq<NetInterface>, j: int)
    requires
        0 <= j < ifs.len(),
        ifs[j].is_ipv6,
    ensures
        ipv6_addrs_of(ifs, ifs[j].name@).len() > 0,
    decreases ifs.len(),
{
    if j < ifs.len() - 1 {
        lemma_ipv6_addrs_nonempty(ifs.drop_last(), j);
    }
}

/// Position at which a group named `name` belongs in the sorted list:
/// everything before it orders at or before `name`, and `name` orders
/// at or before everything from the position on.
fn find_insert_pos(groups: &Vec<(String, Vec<String>)>, name: &String) -> (pos: usize)
    requires
        sorted_by_name(groups@),
    ensures
        pos <= groups@.len(),
        forall|k: int| 0 <= k < pos ==> lex_le(groups@[k].0@, name@),
        forall|k: int| pos <= k < groups@.len() ==> lex_le(name@, groups@[k].0@),
{
    let n = groups.len();
    let mut pos: usize = 0;
    while pos < n
        invariant
            0 <= pos <= n,
            n == groups@.len(),
            sorted_by_name(groups@),
            forall|k: int| 0 <= k < pos ==> lex_le(groups@[k].0@, name@),
        decreases n - pos,
    {
        if !str_lex_le(groups[pos].0.as_str(), name.as_str()) {
            proof {
                lemma_lex_le_total(groups@[pos as int].0@, name@);
                assert forall|k: int| pos <= k < groups@.len() implies lex_le(
                    name@,
                    groups@[k].0@,
                ) by {
                    if k > pos {
                        lemma_lex_le_trans(name@, groups@[pos as int].0@, groups@[k].0@);
                    }
                }
            }
            return pos;
        }
        pos = pos + 1;
    }
    pos
}

/// The diagnostic listing: every interface with at least one IPv6
/// address, each paired with all its IPv6 addresses in enumeration
/// order, grouped under its name exactly once and ordered
/// alphabetically by name.
pub fn list_all_netcards(interfaces: &Vec<NetInterface>) -> (r: Vec<(String, Vec<String>)>)
    ensures
        sorted_by_name(r@),
        forall|k: int|
            0 <= k < r@.len() ==> (#[trigger] r@[k]).1@ == ipv6_addrs_of(interfaces@, r@[k].0@),
        forall|k: int| 0 <= k < r@.len() ==> (#[trigger] r@[k]).1@.len() > 0,
        forall|k1: int, k2: int| 0 <= k1 < k2 < r@.len() ==> r@[k1].0@ != r@[k2].0@,
        forall|j: int|
            0 <= j < interfaces@.len() && (#[trigger] interfaces@[j]).is_ipv6 ==> has_group(
                r@,
                interfaces@[j].name@,
            ),
{
    let n = interfaces.len();
    let mut r: Vec<(String, Vec<String>)> = Vec::new();
    let mut i: usize = 0;
    while i < n
        invariant
            0 <= i <= n,
            n == interfaces@.len(),
            sorted_by_name(r@),
            forall|k: int|
                0 <= k < r@.len() ==> (#[trigger] r@[k]).1@ == ipv6_addrs_of(
                    interfaces@,
                    r@[k].0@,
                ),
            forall|k: int| 0 <= k < r@.len() ==> (#[trigger] r@[k]).1@.len() > 0,
            forall|k1: int, k2: int| 0 <= k1 < k2 < r@.len() ==> r@[k1].0@ != r@[k2].0@,
            forall|j: int|
                0 <= j < i && (#[trigger] interfaces@[j]).is_ipv6 ==> has_group(
                    r@,
                    interfaces@[j].name@,
                ),
        decreases n - i,
    {
        if interfaces[i].is_ipv6 && !contains_name(&r, &interfaces[i].name) {
            let name = interfaces[i].name.clone();
            let addrs = collect_ipv6(interfaces, &name);
            proof {
                lemma_ipv6_addrs_nonempty(interfaces@, i as int);
            }
            let pos = find_insert_pos(&r, &name);
            let ghost old_r = r@;
            let ghost gname = name@;
            r.insert(pos, (name, addrs));
            proof {
                let pi = pos as int;
                assert(r@[pi].0@ == gname);
                assert(forall|k: int| 0 <= k < pi ==> r@[k] == old_r[k]);
                assert(forall|k: int| pi < k < r@.len() ==> r@[k] == old_r[k - 1]);
                assert forall|nm: Seq<char>| has_group(old_r, nm) implies has_group(
                    r@,
                    nm,
                ) by {
                    let k = choose|k: int| 0 <= k < old_r.len() && old_r[k].0@ == nm;
                    if k < pi {
                        assert(r@[k].0@ == nm);
                    } else {
                        assert(r@[k + 1].0@ == nm);
                    }
                }
                assert(has_group(r@, gname));
            }
        }
        i = i + 1;
    }
    r
}

} // verus!
