//! Which tty devices are the screen: a tty whose USB ancestry carries the
//! screen's vendor and product IDs.

use vstd::prelude::*;

use crate::text::{ascii_lower, chars_of, lower_char, push_str};

verus! {

/// A tty found to be the screen, with its device node path.
#[derive(Debug, Clone, PartialEq, Eq)]
pub struct TtyDevice {
    pub path: String,
    pub name: String,
}

/// The `idVendor` / `idProduct` pair of one USB device in a tty's ancestry.
#[derive(Debug, Clone, PartialEq, Eq)]
pub struct UsbAttrs {
    pub id_vendor: String,
    pub id_product: String,
}

/// A tty as listed under `/sys/class/tty`, with the USB attributes found above it.
#[derive(Debug, Clone, PartialEq, Eq)]
pub struct TtyEntry {
    pub name: String,
    pub ancestry: Vec<UsbAttrs>,
}

/// `str::eq_ignore_ascii_case`: equal once ASCII letters are folded.
pub open spec fn eq_ignore_ascii_case_spec(a: Seq<char>, b: Seq<char>) -> bool {
    a.len() == b.len() && forall|i: int| 0 <= i < a.len() ==> ascii_lower(#[trigger] a[i]) == ascii_lower(b[i])
}

pub fn eq_ignore_ascii_case(a: &str, b: &str) -> (r: bool)
    ensures
        r == eq_ignore_ascii_case_spec(a@, b@),
{
    let ca = chars_of(a);
    let cb = chars_of(b);
    if ca.len() != cb.len() {
        return false;
    }
    let mut i: usize = 0;
    while i < ca.len()
        invariant
            ca@ == a@,
            cb@ == b@,
            ca@.len() == cb@.len(),
            i <= ca@.len(),
            forall|j: int| 0 <= j < i ==> ascii_lower(#[trigger] a@[j]) == ascii_lower(b@[j]),
        decreases ca@.len() - i,
    {
        if lower_char(ca[i]) != lower_char(cb[i]) {
            return false;
        }
        i = i + 1;
    }
    true
}

pub open spec fn is_target_attrs(v: Seq<char>, p: Seq<char>) -> bool {
    eq_ignore_ascii_case_spec(v, "1a86"@) && eq_ignore_ascii_case_spec(p, "fe0c"@)
}

/// Some device in the ancestry has the screen's IDs `1a86:fe0c`, in any letter case.
pub open spec fn match_target_tty_spec(ancestry: Seq<UsbAttrs>) -> bool {
    exists|i: int| 0 <= i < ancestry.len() && is_target_attrs(#[trigger] ancestry[i].id_vendor@, ancestry[i].id_product@)
}

pub fn match_target_tty(name: &str, ancestry: &[UsbAttrs]) -> (r: bool)
    ensures
        r == match_target_tty_spec(ancestry@),
{
    let mut i: usize = 0;
    while i < ancestry.len()
        invariant
            i <= ancestry@.len(),
            forall|j: int| 0 <= j < i ==> !is_target_attrs(#[trigger] ancestry@[j].id_vendor@, ancestry@[j].id_product@),
        decreases ancestry@.len() - i,
    {
        let attrs = &ancestry[i];
        if eq_ignore_ascii_case(attrs.id_vendor.as_str(), "1a86") && eq_ignore_ascii_case(
            attrs.id_product.as_str(),
            "fe0c",
        ) {
            return true;
        }
        i = i + 1;
    }
    false
}

/// The device node of a tty: `dev_root` joined with its name.
pub open spec fn device_path(dev_root: Seq<char>, name: Seq<char>) -> Seq<char> {
    if dev_root.len() > 0 && dev_root.last() == '/' {
        dev_root + name
    } else {
        dev_root + "/"@ + name
    }
}

fn join_device_path(dev_root: &str, name: &str) -> (r: String)
    ensures
        r@ == device_path(dev_root@, name@),
{
    let mut s = String::new();
    push_str(&mut s, dev_root);
    let c = chars_of(dev_root);
    if !(c.len() > 0 && c[c.len() - 1] == '/') {
        push_str(&mut s, "/");
    }
    push_str(&mut s, name);
    s
}

pub open spec fn entry_is_target(e: TtyEntry) -> bool {
    match_target_tty_spec(e.ancestry@)
}

/// The screens among the listed ttys, in listing order.
pub open spec fn scan_spec(entries: Seq<TtyEntry>, dev_root: Seq<char>) -> Seq<(Seq<char>, Seq<char>)>
    decreases entries.len(),
{
    if entries.len() == 0 {
        seq![]
    } else {
        let rest = scan_spec(entries.drop_last(), dev_root);
        let e = entries.last();
        if entry_is_target(e) {
            rest.push((device_path(dev_root, e.name@), e.name@))
        } else {
            rest
        }
    }
}

pub open spec fn tty_views(devices: Seq<TtyDevice>) -> Seq<(Seq<char>, Seq<char>)> {
    devices.map_values(|d: TtyDevice| (d.path@, d.name@))
}

/// Picks the screens out of a `/sys/class/tty` listing; `dev_root` is where
/// their device nodes live.
pub fn scan_target_ttys(entries: &[TtyEntry], dev_root: &str) -> (r: Vec<TtyDevice>)
    ensures
        tty_views(r@) == scan_spec(entries@, dev_root@),
{
    let mut out: Vec<TtyDevice> = Vec::new();
    let mut i: usize = 0;
    while i < entries.len()
        invariant
            i <= entries@.len(),
            tty_views(out@) == scan_spec(entries@.subrange(0, i as int), dev_root@),
        decreases entries@.len() - i,
    {
        let e = &entries[i];
        assert(entries@.subrange(0, i + 1).drop_last() =~= entries@.subrange(0, i as int));
        if match_target_tty(e.name.as_str(), e.ancestry.as_slice()) {
            let mut name = String::new();
            push_str(&mut name, e.name.as_str());
            let path = join_device_path(dev_root, e.name.as_str());
            out.push(TtyDevice { path, name });
        }
        assert(tty_views(out@) =~= scan_spec(entries@.subrange(0, i + 1), dev_root@));
        i = i + 1;
    }
    assert(entries@.subrange(0, entries@.len() as int) =~= entries@);
    out
}

} // verus!
