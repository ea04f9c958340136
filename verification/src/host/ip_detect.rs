//! Choosing which IPv4 address to show from a snapshot of the host's network state.

use vstd::prelude::*;

use crate::host::ipv4::Ipv4Addr;
use crate::seqs::{lemma_filter_elem, lemma_filter_empty_iff, lemma_filter_filter, lemma_filter_take_step, lemma_first_of_filter, lemma_take_full};
use crate::text::{chars_of, str_eq};

verus! {

/// An IPv4 address configured on an interface.
#[derive(Debug, Clone, PartialEq, Eq)]
pub struct AddressCandidate {
    pub interface: String,
    pub address: Ipv4Addr,
    pub is_dynamic: bool,
    pub is_up: bool,
    pub is_lower_up: bool,
}

/// The plain-value view of an [`AddressCandidate`].
pub ghost struct AddressView {
    pub interface: Seq<char>,
    pub address: Ipv4Addr,
    pub is_dynamic: bool,
    pub is_up: bool,
    pub is_lower_up: bool,
}

impl View for AddressCandidate {
    type V = AddressView;

    open spec fn view(&self) -> AddressView {
        AddressView {
            interface: self.interface@,
            address: self.address,
            is_dynamic: self.is_dynamic,
            is_up: self.is_up,
            is_lower_up: self.is_lower_up,
        }
    }
}

/// An IPv4 route through an interface.
#[derive(Debug, Clone, PartialEq, Eq)]
pub struct Route {
    pub interface: String,
    pub is_default: bool,
}

impl View for Route {
    type V = (Seq<char>, bool);

    open spec fn view(&self) -> (Seq<char>, bool) {
        (self.interface@, self.is_default)
    }
}

/// Addresses and routes seen at one moment.
#[derive(Debug, Clone, PartialEq, Eq)]
pub struct NetworkSnapshot {
    pub addresses: Vec<AddressCandidate>,
    pub routes: Vec<Route>,
}

pub open spec fn address_views(s: Seq<AddressCandidate>) -> Seq<AddressView> {
    s.map_values(|c: AddressCandidate| c@)
}

pub open spec fn route_views(s: Seq<Route>) -> Seq<(Seq<char>, bool)> {
    s.map_values(|r: Route| r@)
}

impl View for NetworkSnapshot {
    type V = (Seq<AddressView>, Seq<(Seq<char>, bool)>);

    open spec fn view(&self) -> (Seq<AddressView>, Seq<(Seq<char>, bool)>) {
        (address_views(self.addresses@), route_views(self.routes@))
    }
}

impl Default for NetworkSnapshot {
    fn default() -> (r: Self)
        ensures
            r@.0.len() == 0,
            r@.1.len() == 0,
    {
        NetworkSnapshot { addresses: Vec::new(), routes: Vec::new() }
    }
}

/// An optional fixed interface to show.
#[derive(Debug, Clone, PartialEq, Eq)]
pub struct SelectionConfig {
    pub interface: Option<String>,
}

impl Default for SelectionConfig {
    fn default() -> (r: Self)
        ensures
            r.interface is None,
    {
        SelectionConfig { interface: None }
    }
}

/// What to put on the screen.
#[derive(Debug, Clone, Copy, PartialEq, Eq, Structural)]
pub enum Selection {
    Show(Ipv4Addr),
    Pending,
    FailureCandidate,
}

/// An address that is worth showing: not `0.0.0.0`, loopback, link-local or multicast.
pub open spec fn is_normal(a: Ipv4Addr) -> bool {
    !a.spec_is_unspecified() && !a.spec_is_loopback() && !a.spec_is_link_local() && !a.spec_is_multicast()
}

pub open spec fn has_prefix(s: Seq<char>, p: Seq<char>) -> bool {
    p.len() <= s.len() && s.take(p.len() as int) == p
}

/// Loopback, container, bridge, tunnel and VPN interfaces.
pub open spec fn is_virtual(name: Seq<char>) -> bool {
    ||| name == "lo"@
    ||| has_prefix(name, "docker"@)
    ||| has_prefix(name, "br-"@)
    ||| has_prefix(name, "veth"@)
    ||| has_prefix(name, "virbr"@)
    ||| has_prefix(name, "tun"@)
    ||| has_prefix(name, "tap"@)
    ||| has_prefix(name, "wg"@)
}

/// An address on an interface that is administratively up and has carrier.
pub open spec fn usable(c: AddressView) -> bool {
    c.is_up && c.is_lower_up
}

pub open spec fn usable_pred() -> spec_fn(AddressView) -> bool {
    |c: AddressView| usable(c)
}

pub open spec fn on_iface_normal(iface: Seq<char>) -> spec_fn(AddressView) -> bool {
    |c: AddressView| c.interface == iface && is_normal(c.address)
}

pub open spec fn fallback_pred() -> spec_fn(AddressView) -> bool {
    |c: AddressView| is_normal(c.address) && !is_virtual(c.interface)
}

pub open spec fn dynamic_pred() -> spec_fn(AddressView) -> bool {
    |c: AddressView| c.is_dynamic
}

pub open spec fn default_route_pred() -> spec_fn((Seq<char>, bool)) -> bool {
    |r: (Seq<char>, bool)| r.1
}

/// The selection rule.
///
/// Only usable addresses count. A fixed interface shows its first normal
/// address, else reports a failure when it only has a link-local address,
/// else waits. Otherwise the interface of the first default route wins when it
/// has a normal address; then a single normal address on a physical interface
/// is shown; several are narrowed to the dynamic ones, and exactly one dynamic
/// address is shown; any other case is a failure candidate. With no normal
/// address at all, a link-local address on a physical interface is a failure
/// candidate, otherwise the daemon keeps waiting.
pub open spec fn select_spec(
    addresses: Seq<AddressView>,
    routes: Seq<(Seq<char>, bool)>,
    interface: Option<Seq<char>>,
) -> Selection {
    let cands = addresses.filter(usable_pred());
    match interface {
        Some(iface) => {
            let hits = cands.filter(on_iface_normal(iface));
            if hits.len() > 0 {
                Selection::Show(hits[0].address)
            } else if exists|j: int|
                0 <= j < cands.len() && #[trigger] cands[j].interface == iface
                    && cands[j].address.spec_is_link_local() {
                Selection::FailureCandidate
            } else {
                Selection::Pending
            }
        },
        None => {
            let defaults = routes.filter(default_route_pred());
            let via_default = if defaults.len() > 0 {
                cands.filter(on_iface_normal(defaults[0].0))
            } else {
                Seq::empty()
            };
            if via_default.len() > 0 {
                Selection::Show(via_default[0].address)
            } else {
                let normal = cands.filter(fallback_pred());
                if normal.len() == 0 {
                    if exists|j: int|
                        0 <= j < cands.len() && !is_virtual(#[trigger] cands[j].interface)
                            && cands[j].address.spec_is_link_local() {
                        Selection::FailureCandidate
                    } else {
                        Selection::Pending
                    }
                } else if normal.len() == 1 {
                    Selection::Show(normal[0].address)
                } else {
                    let dynamic = normal.filter(dynamic_pred());
                    if dynamic.len() == 1 {
                        Selection::Show(dynamic[0].address)
                    } else {
                        Selection::FailureCandidate
                    }
                }
            }
        },
    }
}

fn is_normal_ipv4(address: Ipv4Addr) -> (r: bool)
    ensures
        r == is_normal(address),
{
    !address.is_unspecified() && !address.is_loopback() && !is_link_local(address) && !address.is_multicast()
}

fn is_link_local(address: Ipv4Addr) -> (r: bool)
    ensures
        r == address.spec_is_link_local(),
{
    let octets = address.octets();
    octets[0] == 169 && octets[1] == 254
}

fn starts_with(name: &Vec<char>, prefix: &str) -> (r: bool)
    ensures
        r == has_prefix(name@, prefix@),
{
    let p = chars_of(prefix);
    if p.len() > name.len() {
        return false;
    }
    let mut i: usize = 0;
    while i < p.len()
        invariant
            p@ == prefix@,
            p@.len() <= name@.len(),
            i <= p@.len(),
            forall|j: int| 0 <= j < i ==> name@[j] == p@[j],
        decreases p@.len() - i,
    {
        if name[i] != p[i] {
            assert(name@.take(p@.len() as int)[i as int] != p@[i as int]);
            return false;
        }
        i = i + 1;
    }
    assert(name@.take(p@.len() as int) =~= p@);
    true
}

fn is_virtual_interface(name: &str) -> (r: bool)
    ensures
        r == is_virtual(name@),
{
    let c = chars_of(name);
    str_eq(name, "lo") || starts_with(&c, "docker") || starts_with(&c, "br-") || starts_with(&c, "veth")
        || starts_with(&c, "virbr") || starts_with(&c, "tun") || starts_with(&c, "tap") || starts_with(&c, "wg")
}

fn copy_candidate(c: &AddressCandidate) -> (r: AddressCandidate)
    ensures
        r@ == c@,
{
    AddressCandidate {
        interface: c.interface.clone(),
        address: c.address,
        is_dynamic: c.is_dynamic,
        is_up: c.is_up,
        is_lower_up: c.is_lower_up,
    }
}

/// The usable addresses, in order.
fn usable_candidates(addresses: &Vec<AddressCandidate>) -> (r: Vec<AddressCandidate>)
    ensures
        address_views(r@) == address_views(addresses@).filter(usable_pred()),
{
    let ghost all = address_views(addresses@);
    let mut out: Vec<AddressCandidate> = Vec::new();
    let mut i: usize = 0;
    while i < addresses.len()
        invariant
            all == address_views(addresses@),
            i <= addresses@.len(),
            address_views(out@) == all.take(i as int).filter(usable_pred()),
        decreases addresses@.len() - i,
    {
        proof {
            lemma_filter_take_step(all, usable_pred(), i as int);
        }
        let c = &addresses[i];
        if c.is_up && c.is_lower_up {
            let ghost before = out@;
            out.push(copy_candidate(c));
            assert(address_views(out@) =~= address_views(before).push(all[i as int]));
        }
        i = i + 1;
    }
    proof {
        lemma_take_full(all);
    }
    out
}

/// Index of the first candidate on `iface` with a normal address.
fn first_on_iface_normal(cands: &Vec<AddressCandidate>, iface: &str) -> (r: Option<usize>)
    ensures
        ({
            let s = address_views(cands@);
            let f = s.filter(on_iface_normal(iface@));
            match r {
                Some(i) => i < s.len() && f.len() > 0 && f[0] == s[i as int],
                None => f.len() == 0,
            }
        }),
{
    let ghost s = address_views(cands@);
    let ghost p = on_iface_normal(iface@);
    let mut i: usize = 0;
    while i < cands.len()
        invariant
            s == address_views(cands@),
            p == on_iface_normal(iface@),
            i <= cands@.len(),
            s.take(i as int).filter(p).len() == 0,
        decreases cands@.len() - i,
    {
        proof {
            lemma_filter_take_step(s, p, i as int);
        }
        if str_eq(cands[i].interface.as_str(), iface) && is_normal_ipv4(cands[i].address) {
            proof {
                lemma_first_of_filter(s, p, i as int);
            }
            return Some(i);
        }
        i = i + 1;
    }
    proof {
        lemma_take_full(s);
    }
    None
}

/// Whether some candidate on `iface` (or, with `iface` absent, on a physical
/// interface) has a link-local address.
fn any_link_local(cands: &Vec<AddressCandidate>, iface: Option<&str>) -> (r: bool)
    ensures
        ({
            let s = address_views(cands@);
            match iface {
                Some(name) => r == exists|j: int|
                    0 <= j < s.len() && #[trigger] s[j].interface == name@ && s[j].address.spec_is_link_local(),
                None => r == exists|j: int|
                    0 <= j < s.len() && !is_virtual(#[trigger] s[j].interface)
                        && s[j].address.spec_is_link_local(),
            }
        }),
{
    let ghost s = address_views(cands@);
    let mut i: usize = 0;
    while i < cands.len()
        invariant
            s == address_views(cands@),
            i <= cands@.len(),
            match iface {
                Some(name) => forall|j: int|
                    0 <= j < i ==> !(#[trigger] s[j].interface == name@ && s[j].address.spec_is_link_local()),
                None => forall|j: int|
                    0 <= j < i ==> !(!is_virtual(#[trigger] s[j].interface) && s[j].address.spec_is_link_local()),
            },
        decreases cands@.len() - i,
    {
        let c = &cands[i];
        let hit = match iface {
            Some(name) => str_eq(c.interface.as_str(), name) && is_link_local(c.address),
            None => !is_virtual_interface(c.interface.as_str()) && is_link_local(c.address),
        };
        if hit {
            assert(s[i as int] == c@);
            proof {
                match iface {
                    Some(name) => {
                        assert(s[i as int].interface == name@ && s[i as int].address.spec_is_link_local());
                    },
                    None => {
                        assert(!is_virtual(s[i as int].interface) && s[i as int].address.spec_is_link_local());
                    },
                }
            }
            return true;
        }
        i = i + 1;
    }
    false
}

/// Keeps the candidates that pass `fallback_pred` (or, with `dynamic_only`, `dynamic_pred`).
fn filter_candidates(cands: &Vec<AddressCandidate>, dynamic_only: bool) -> (r: Vec<AddressCandidate>)
    ensures
        address_views(r@) == address_views(cands@).filter(
            if dynamic_only {
                dynamic_pred()
            } else {
                fallback_pred()
            },
        ),
{
    let ghost all = address_views(cands@);
    let ghost p = if dynamic_only {
        dynamic_pred()
    } else {
        fallback_pred()
    };
    let mut out: Vec<AddressCandidate> = Vec::new();
    let mut i: usize = 0;
    while i < cands.len()
        invariant
            all == address_views(cands@),
            p == (if dynamic_only { dynamic_pred() } else { fallback_pred() }),
            i <= cands@.len(),
            address_views(out@) == all.take(i as int).filter(p),
        decreases cands@.len() - i,
    {
        proof {
            lemma_filter_take_step(all, p, i as int);
        }
        let c = &cands[i];
        let keep = if dynamic_only {
            c.is_dynamic
        } else {
            is_normal_ipv4(c.address) && !is_virtual_interface(c.interface.as_str())
        };
        assert(keep == p(all[i as int]));
        if keep {
            let ghost before = out@;
            out.push(copy_candidate(c));
            assert(address_views(out@) =~= address_views(before).push(all[i as int]));
        }
        i = i + 1;
    }
    proof {
        lemma_take_full(all);
    }
    out
}

/// Index of the first default route.
fn first_default_route(routes: &Vec<Route>) -> (r: Option<usize>)
    ensures
        ({
            let s = route_views(routes@);
            let f = s.filter(default_route_pred());
            match r {
                Some(i) => i < s.len() && f.len() > 0 && f[0] == s[i as int],
                None => f.len() == 0,
            }
        }),
{
    let ghost s = route_views(routes@);
    let ghost p = default_route_pred();
    let mut i: usize = 0;
    while i < routes.len()
        invariant
            s == route_views(routes@),
            p == default_route_pred(),
            i <= routes@.len(),
            s.take(i as int).filter(p).len() == 0,
        decreases routes@.len() - i,
    {
        proof {
            lemma_filter_take_step(s, p, i as int);
        }
        if routes[i].is_default {
            proof {
                lemma_first_of_filter(s, p, i as int);
            }
            return Some(i);
        }
        i = i + 1;
    }
    proof {
        lemma_take_full(s);
    }
    None
}

/// Picks the address to display (see [`select_spec`]).
pub fn select_ipv4(snapshot: &NetworkSnapshot, config: &SelectionConfig) -> (r: Selection)
    ensures
        r == select_spec(
            snapshot@.0,
            snapshot@.1,
            match config.interface {
                Some(s) => Some(s@),
                None => None,
            },
        ),
{
    let candidates = usable_candidates(&snapshot.addresses);
    let ghost cands = address_views(candidates@);
    if let Some(interface) = &config.interface {
        match first_on_iface_normal(&candidates, interface.as_str()) {
            Some(i) => {
                return Selection::Show(candidates[i].address);
            },
            None => {
                if any_link_local(&candidates, Some(interface.as_str())) {
                    return Selection::FailureCandidate;
                } else {
                    return Selection::Pending;
                }
            },
        }
    }
    if let Some(k) = first_default_route(&snapshot.routes) {
        let route = &snapshot.routes[k];
        if let Some(i) = first_on_iface_normal(&candidates, route.interface.as_str()) {
            return Selection::Show(candidates[i].address);
        }
    }
    let normal = filter_candidates(&candidates, false);
    if normal.len() == 0 {
        if any_link_local(&candidates, None) {
            Selection::FailureCandidate
        } else {
            Selection::Pending
        }
    } else if normal.len() == 1 {
        Selection::Show(normal[0].address)
    } else {
        let dynamic = filter_candidates(&normal, true);
        if dynamic.len() == 1 {
            Selection::Show(dynamic[0].address)
        } else {
            Selection::FailureCandidate
        }
    }
}

/// Index of the first address `address` on `interface`.
pub open spec fn first_match(s: Seq<AddressView>, interface: Seq<char>, address: Ipv4Addr) -> Option<int> {
    let f = |c: AddressView| c.interface == interface && c.address == address;
    if exists|k: int| 0 <= k < s.len() && f(s[k]) {
        Some(choose|k: int| 0 <= k < s.len() && f(s[k]) && forall|j: int| 0 <= j < k ==> !f(#[trigger] s[j]))
    } else {
        None
    }
}

fn find_address(addresses: &Vec<AddressCandidate>, interface: &str, address: Ipv4Addr) -> (r: Option<usize>)
    ensures
        ({
            let s = address_views(addresses@);
            match r {
                Some(k) => k < s.len() && s[k as int].interface == interface@ && s[k as int].address == address
                    && forall|j: int| 0 <= j < k ==> !(#[trigger] s[j].interface == interface@ && s[j].address == address),
                None => forall|j: int| 0 <= j < s.len() ==> !(#[trigger] s[j].interface == interface@ && s[j].address == address),
            }
        }),
{
    let ghost s = address_views(addresses@);
    let mut i: usize = 0;
    while i < addresses.len()
        invariant
            s == address_views(addresses@),
            i <= s.len(),
            forall|j: int| 0 <= j < i ==> !(#[trigger] s[j].interface == interface@ && s[j].address == address),
        decreases s.len() - i,
    {
        if str_eq(addresses[i].interface.as_str(), interface) && addresses[i].address == address {
            return Some(i);
        }
        i = i + 1;
    }
    None
}

/// Records whether the first address `address` on `interface` is dynamic.
pub fn mark_dynamic(snapshot: &mut NetworkSnapshot, interface: &str, address: Ipv4Addr, is_dynamic: bool)
    ensures
        final(snapshot).routes@ == old(snapshot).routes@,
        ({
            let before = address_views(old(snapshot).addresses@);
            let after = address_views(final(snapshot).addresses@);
            match first_match(before, interface@, address) {
                Some(k) => after == before.update(k, AddressView { is_dynamic, ..before[k] }),
                None => after == before,
            }
        }),
{
    let ghost before = address_views(snapshot.addresses@);
    let ghost f = |c: AddressView| c.interface == interface@ && c.address == address;
    match find_address(&snapshot.addresses, interface, address) {
        Some(k) => {
            proof {
                assert(f(before[k as int]));
                let c = choose|m: int| 0 <= m < before.len() && f(before[m]) && forall|j: int| 0 <= j < m ==> !f(#[trigger] before[j]);
                if c < k {
                    assert(!f(before[c]));
                } else if c > k {
                    assert(!f(before[k as int]));
                }
            }
            let mut c = snapshot.addresses.remove(k);
            c.is_dynamic = is_dynamic;
            snapshot.addresses.insert(k, c);
            assert(address_views(snapshot.addresses@) =~= before.update(k as int, AddressView { is_dynamic, ..before[k as int] }));
        },
        None => {},
    }
}

/// Adds an address seen on an interface unless the same pair is already known.
pub fn add_address(snapshot: &mut NetworkSnapshot, interface: String, address: Ipv4Addr, flags: u32)
    ensures
        final(snapshot).routes@ == old(snapshot).routes@,
        ({
            let before = address_views(old(snapshot).addresses@);
            let after = address_views(final(snapshot).addresses@);
            if exists|j: int| 0 <= j < before.len() && #[trigger] before[j].interface == interface@ && before[j].address == address {
                after == before
            } else {
                after == before.push(
                    AddressView {
                        interface: interface@,
                        address,
                        is_dynamic: false,
                        is_up: flags & crate::host::netlink::IFF_UP_BITS != 0,
                        is_lower_up: flags & crate::host::netlink::IFF_RUNNING_BITS != 0,
                    },
                )
            }
        }),
{
    let ghost before = address_views(snapshot.addresses@);
    match find_address(&snapshot.addresses, interface.as_str(), address) {
        Some(k) => {
            assert(before[k as int].interface == interface@ && before[k as int].address == address);
        },
        None => {
            let is_up = flags & crate::host::netlink::IFF_UP_BITS != 0;
            let is_lower_up = crate::host::netlink::interface_is_lower_up(flags);
            snapshot.addresses.push(AddressCandidate { interface, address, is_dynamic: false, is_up, is_lower_up });
            assert(address_views(snapshot.addresses@) =~= before.push(
                AddressView {
                    interface: interface@,
                    address,
                    is_dynamic: false,
                    is_up: flags & crate::host::netlink::IFF_UP_BITS != 0,
                    is_lower_up: flags & crate::host::netlink::IFF_RUNNING_BITS != 0,
                },
            ));
        },
    }
}

/// Records a default route through `interface` unless one is already known.
pub fn add_default_route(snapshot: &mut NetworkSnapshot, interface: String)
    ensures
        final(snapshot).addresses@ == old(snapshot).addresses@,
        ({
            let before = route_views(old(snapshot).routes@);
            let after = route_views(final(snapshot).routes@);
            if exists|j: int| 0 <= j < before.len() && #[trigger] before[j] == (interface@, true) {
                after == before
            } else {
                after == before.push((interface@, true))
            }
        }),
{
    let ghost before = route_views(snapshot.routes@);
    let mut i: usize = 0;
    while i < snapshot.routes.len()
        invariant
            before == route_views(snapshot.routes@),
            i <= before.len(),
            forall|j: int| 0 <= j < i ==> #[trigger] before[j] != (interface@, true),
        decreases before.len() - i,
    {
        if snapshot.routes[i].is_default && str_eq(snapshot.routes[i].interface.as_str(), interface.as_str()) {
            assert(before[i as int] == (interface@, true));
            return;
        }
        i = i + 1;
    }
    snapshot.routes.push(Route { interface, is_default: true });
    assert(route_views(snapshot.routes@) =~= before.push((interface@, true)));
}


/// With no fixed interface, the first route marked default decides: when
/// its interface has an address that is up with carrier and normal, the first
/// such address (in the snapshot's order) is shown, whatever routes, default
/// or not, come after that route.
pub proof fn lemma_first_default_route_wins(
    addresses: Seq<AddressView>,
    routes: Seq<(Seq<char>, bool)>,
    r: int,
    a: int,
)
    requires
        0 <= r < routes.len(),
        routes[r].1,
        forall|j: int| 0 <= j < r ==> !(#[trigger] routes[j]).1,
        0 <= a < addresses.len(),
        addresses[a].is_up && addresses[a].is_lower_up,
        addresses[a].interface == routes[r].0,
        is_normal(addresses[a].address),
        forall|b: int|
            0 <= b < a ==> !((#[trigger] addresses[b]).is_up && addresses[b].is_lower_up && addresses[b].interface
                == routes[r].0 && is_normal(addresses[b].address)),
    ensures
        select_spec(addresses, routes, None) == Selection::Show(addresses[a].address),
{
    let dp = default_route_pred();
    lemma_filter_empty_iff(routes.take(r), dp);
    assert forall|j: int| 0 <= j < routes.take(r).len() implies !dp(#[trigger] routes.take(r)[j]) by {
        assert(routes.take(r)[j] == routes[j]);
    }
    lemma_first_of_filter(routes, dp, r);
    let defaults = routes.filter(dp);
    assert(defaults[0] == routes[r]);
    let iface = routes[r].0;
    let up = usable_pred();
    let on = on_iface_normal(iface);
    lemma_filter_filter(addresses, up, on);
    let both = |x: AddressView| up(x) && on(x);
    lemma_filter_empty_iff(addresses.take(a), both);
    assert forall|j: int| 0 <= j < addresses.take(a).len() implies !both(#[trigger] addresses.take(a)[j]) by {
        assert(addresses.take(a)[j] == addresses[j]);
    }
    lemma_first_of_filter(addresses, both, a);
    assert(addresses.filter(up).filter(on) == addresses.filter(both));
}

/// With a fixed interface, its first address (in the snapshot's order) that
/// is up with carrier and normal is shown, whatever other interfaces and
/// routes hold.
pub proof fn lemma_fixed_interface_shows_its_first_address(
    addresses: Seq<AddressView>,
    routes: Seq<(Seq<char>, bool)>,
    iface: Seq<char>,
    a: int,
)
    requires
        0 <= a < addresses.len(),
        addresses[a].is_up && addresses[a].is_lower_up,
        addresses[a].interface == iface,
        is_normal(addresses[a].address),
        forall|b: int|
            0 <= b < a ==> !((#[trigger] addresses[b]).is_up && addresses[b].is_lower_up && addresses[b].interface
                == iface && is_normal(addresses[b].address)),
    ensures
        select_spec(addresses, routes, Some(iface)) == Selection::Show(addresses[a].address),
{
    let up = usable_pred();
    let on = on_iface_normal(iface);
    lemma_filter_filter(addresses, up, on);
    let both = |x: AddressView| up(x) && on(x);
    lemma_filter_empty_iff(addresses.take(a), both);
    assert forall|j: int| 0 <= j < addresses.take(a).len() implies !both(#[trigger] addresses.take(a)[j]) by {
        assert(addresses.take(a)[j] == addresses[j]);
    }
    lemma_first_of_filter(addresses, both, a);
    assert(addresses.filter(up).filter(on) == addresses.filter(both));
}

/// With a fixed interface that has no usable normal address, the result is
/// a failure candidate exactly when it has a usable link-local address, and
/// waiting otherwise; nothing is shown.
pub proof fn lemma_fixed_interface_without_address(
    addresses: Seq<AddressView>,
    routes: Seq<(Seq<char>, bool)>,
    iface: Seq<char>,
)
    requires
        forall|b: int|
            0 <= b < addresses.len() ==> !((#[trigger] addresses[b]).is_up && addresses[b].is_lower_up
                && addresses[b].interface == iface && is_normal(addresses[b].address)),
    ensures
        select_spec(addresses, routes, Some(iface)) == if exists|b: int|
            0 <= b < addresses.len() && (#[trigger] addresses[b]).is_up && addresses[b].is_lower_up
                && addresses[b].interface == iface && addresses[b].address.spec_is_link_local() {
            Selection::FailureCandidate
        } else {
            Selection::Pending
        },
{
    let up = usable_pred();
    let on = on_iface_normal(iface);
    let cands = addresses.filter(up);
    lemma_filter_filter(addresses, up, on);
    let both = |x: AddressView| up(x) && on(x);
    lemma_filter_empty_iff(addresses, both);
    assert(cands.filter(on).len() == 0);
    if exists|b: int|
        0 <= b < addresses.len() && (#[trigger] addresses[b]).is_up && addresses[b].is_lower_up
            && addresses[b].interface == iface && addresses[b].address.spec_is_link_local() {
        let b = choose|b: int|
            0 <= b < addresses.len() && (#[trigger] addresses[b]).is_up && addresses[b].is_lower_up
                && addresses[b].interface == iface && addresses[b].address.spec_is_link_local();
        addresses.lemma_filter_contains_rev(up, addresses[b]);
        assert(addresses.filter(up).contains(addresses[b]));
        let j = choose|j: int| 0 <= j < cands.len() && cands[j] == addresses[b];
        assert(cands[j].interface == iface && cands[j].address.spec_is_link_local());
    } else {
        assert forall|j: int| 0 <= j < cands.len() implies !(#[trigger] cands[j].interface == iface
            && cands[j].address.spec_is_link_local()) by {
            lemma_filter_elem(addresses, up, j);
        }
    }
}

/// What is shown is always a normal address (never `0.0.0.0`, loopback,
/// link-local or multicast) of the snapshot, on an interface that is up with
/// carrier, and on the fixed interface when one is set.
pub proof fn lemma_shown_address_is_normal(
    addresses: Seq<AddressView>,
    routes: Seq<(Seq<char>, bool)>,
    interface: Option<Seq<char>>,
)
    ensures
        match select_spec(addresses, routes, interface) {
            Selection::Show(ip) => is_normal(ip) && exists|j: int|
                0 <= j < addresses.len() && #[trigger] addresses[j].address == ip && usable(addresses[j]) && (
                interface matches Some(n) ==> addresses[j].interface == n),
            _ => true,
        },
{
    let cands = addresses.filter(usable_pred());
    let chosen: AddressView;
    match interface {
        Some(iface) => {
            let hits = cands.filter(on_iface_normal(iface));
            if hits.len() > 0 {
                lemma_filter_elem(cands, on_iface_normal(iface), 0);
                chosen = hits[0];
            } else {
                return;
            }
        },
        None => {
            let defaults = routes.filter(default_route_pred());
            let via_default = if defaults.len() > 0 {
                cands.filter(on_iface_normal(defaults[0].0))
            } else {
                Seq::empty()
            };
            let normal = cands.filter(fallback_pred());
            if via_default.len() > 0 {
                lemma_filter_elem(cands, on_iface_normal(defaults[0].0), 0);
                chosen = via_default[0];
            } else if normal.len() == 1 {
                lemma_filter_elem(cands, fallback_pred(), 0);
                chosen = normal[0];
            } else if normal.len() > 1 && normal.filter(dynamic_pred()).len() == 1 {
                lemma_filter_elem(normal, dynamic_pred(), 0);
                let k = choose|k: int| 0 <= k < normal.len() && #[trigger] normal[k] == normal.filter(dynamic_pred())[0];
                lemma_filter_elem(cands, fallback_pred(), k);
                chosen = normal[k];
            } else {
                return;
            }
        },
    }
    let k = choose|k: int| 0 <= k < cands.len() && #[trigger] cands[k] == chosen;
    lemma_filter_elem(addresses, usable_pred(), k);
    let j = choose|j: int| 0 <= j < addresses.len() && #[trigger] addresses[j] == cands[k];
    assert(addresses[j].address == chosen.address);
}


/// Builds a snapshot: the addresses must be collected; the dynamic flags and
/// the default routes are added when they can be, and a failure there keeps
/// what was collected. Each step works on what the previous one left.
pub fn collect_network_snapshot_best_effort<E, C, D, R>(
    collect_addresses: C,
    enrich_dynamic: D,
    collect_routes: R,
) -> (r: Result<NetworkSnapshot, E>)
    where
        C: FnOnce(&mut NetworkSnapshot) -> Result<(), E>,
        D: FnOnce(&mut NetworkSnapshot) -> Result<(), E>,
        R: FnOnce(&mut NetworkSnapshot) -> Result<(), E>,
    requires
        forall|s: &mut NetworkSnapshot| call_requires(collect_addresses, (s,)),
        forall|s: &mut NetworkSnapshot| call_requires(enrich_dynamic, (s,)),
        forall|s: &mut NetworkSnapshot| call_requires(collect_routes, (s,)),
    ensures
        r matches Err(e) ==> exists|a: &mut NetworkSnapshot|
            (*a)@.0.len() == 0 && (*a)@.1.len() == 0 && call_ensures(collect_addresses, (a,), Err(e)),
        r matches Ok(snap) ==> exists|
            a: &mut NetworkSnapshot,
            b: &mut NetworkSnapshot,
            c: &mut NetworkSnapshot,
            rb: Result<(), E>,
            rc: Result<(), E>,
        |
            (*a)@.0.len() == 0 && (*a)@.1.len() == 0 && call_ensures(collect_addresses, (a,), Ok(()))
            && *b == *final(a) && call_ensures(enrich_dynamic, (b,), rb)
            && *c == *final(b) && call_ensures(collect_routes, (c,), rc)
            && snap == *final(c),
{
    let mut snapshot = NetworkSnapshot::default();
    collect_addresses(&mut snapshot)?;
    let _ = enrich_dynamic(&mut snapshot);
    let _ = collect_routes(&mut snapshot);
    Ok(snapshot)
}

} // verus!
