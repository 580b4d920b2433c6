//! Reading the PCI device list that `lspci -mm -nn` prints, and the DRM
//! nodes of a device, into the values a GPU record is made of.
use vstd::prelude::*;
use vstd::string::*;
use crate::text::{
    find, find_from, has_prefix, is_ws, same_text, skip_ws, skip_ws_from, starts_with, trim_end, trim_end_at, trim_spec,
    trim_ws, ws_char,
};

verus! {

/// Whether `c` is a lower-case hexadecimal digit.
pub open spec fn is_hex(c: char) -> bool {
    ('0' <= c && c <= '9') || ('a' <= c && c <= 'f')
}

/// Whether `s` holds `[` four lower-case hex digits `]` at position `k`.
pub open spec fn hex_tag_at(s: Seq<char>, k: int) -> bool {
    0 <= k && k + 6 <= s.len() && s[k] == '[' && is_hex(s[k + 1]) && is_hex(s[k + 2]) && is_hex(
        s[k + 3],
    ) && is_hex(s[k + 4]) && s[k + 5] == ']'
}

/// The first position at or after `i` that is white space (or the end).
pub open spec fn skip_non_ws(s: Seq<char>, i: int) -> int
    decreases s.len() - i,
{
    if i < 0 || i >= s.len() || is_ws(s[i]) {
        i
    } else {
        skip_non_ws(s, i + 1)
    }
}

/// The first position in `lo..hi` where a `[xxxx]` hex tag lies wholly
/// below `hi`, if any.
pub open spec fn find_tag(s: Seq<char>, lo: int, hi: int) -> Option<int>
    decreases hi - lo,
{
    if lo < 0 || lo + 6 > hi {
        None
    } else if hex_tag_at(s, lo) {
        Some(lo)
    } else {
        find_tag(s, lo + 1, hi)
    }
}

/// What follows the device class field of an `lspci -mm -nn` line, read
/// from position `p`: white space, the quoted vendor field holding a
/// `[xxxx]` vendor id, white space, and the quoted, non-empty device name.
/// Gives the vendor id and the raw device name.
pub open spec fn tail_spec(s: Seq<char>, p: int) -> Option<(Seq<char>, Seq<char>)> {
    let w2 = skip_ws(s, p);
    let e = find(s, w2 + 1, '"');
    let w3 = skip_ws(s, e + 1);
    let f = find(s, w3 + 1, '"');
    if !(p <= w2 && w2 > p && w2 < s.len() && s[w2] == '"') {
        None
    } else if e >= s.len() {
        None
    } else if !(w3 > e + 1 && w3 < s.len() && s[w3] == '"') {
        None
    } else if !(f < s.len() && f > w3 + 1) {
        None
    } else {
        match find_tag(s, w2 + 1, e) {
            Some(v) => Some((s.subrange(v + 1, v + 5), s.subrange(w3 + 1, f))),
            None => None,
        }
    }
}

/// The end of the class field: the first quote at or after `k`, reached
/// without crossing a line feed, after which the rest of the line reads as
/// `tail_spec` says.
pub open spec fn class_end(s: Seq<char>, k: int) -> Option<int>
    decreases s.len() - k,
{
    if k < 0 || k >= s.len() || s[k] == '\n' {
        None
    } else if s[k] == '"' && tail_spec(s, k + 1) is Some {
        Some(k)
    } else {
        class_end(s, k + 1)
    }
}

/// A device name with a trailing ` [xxxx]` device id taken off, then trimmed.
pub open spec fn clean_name(n: Seq<char>) -> Seq<char> {
    let len = n.len() as int;
    if len >= 7 && hex_tag_at(n, len - 6) && is_ws(n[len - 7]) {
        trim_spec(n.subrange(0, trim_end(n, len - 6)))
    } else {
        n
    }
}

/// The fields of one `lspci -mm -nn` line: device class id, vendor id,
/// device name (trimmed, without its trailing device id) and PCI address.
///
/// The line is: the address (a run of non-space characters), white space,
/// a quoted class field whose first `[` opens the `[xxxx]` class id, then
/// what `tail_spec` reads after the first fitting closing quote.
pub open spec fn pci_spec(s: Seq<char>) -> Option<(Seq<char>, Seq<char>, Seq<char>, Seq<char>)> {
    let a = skip_non_ws(s, 0);
    let w = skip_ws(s, a);
    let b = find(s, w + 1, '[');
    if !(a > 0 && w > a && w < s.len() && s[w] == '"') {
        None
    } else if !hex_tag_at(s, b) {
        None
    } else {
        match class_end(s, b + 6) {
            Some(q) => {
                let t = tail_spec(s, q + 1)->Some_0;
                Some((s.subrange(b + 1, b + 5), t.0, clean_name(trim_spec(t.1)), s.subrange(0, a)))
            },
            None => None,
        }
    }
}

fn hex_char(c: char) -> (r: bool)
    ensures
        r == is_hex(c),
{
    ('0' <= c && c <= '9') || ('a' <= c && c <= 'f')
}

fn tag_at(s: &str, n: usize, k: usize) -> (r: bool)
    requires
        n as nat == s@.len(),
    ensures
        r == hex_tag_at(s@, k as int),
{
    if k > n || n - k < 6 {
        return false;
    }
    s.get_char(k) == '[' && hex_char(s.get_char(k + 1)) && hex_char(s.get_char(k + 2)) && hex_char(
        s.get_char(k + 3),
    ) && hex_char(s.get_char(k + 4)) && s.get_char(k + 5) == ']'
}

fn skip_non_ws_from(s: &str, n: usize, i: usize) -> (r: usize)
    requires
        n as nat == s@.len(),
        i <= n,
    ensures
        r as int == skip_non_ws(s@, i as int),
        i <= r <= n,
    decreases n - i,
{
    if i >= n || ws_char(s.get_char(i)) {
        i
    } else {
        skip_non_ws_from(s, n, i + 1)
    }
}

fn find_tag_in(s: &str, n: usize, lo: usize, hi: usize) -> (r: Option<usize>)
    requires
        n as nat == s@.len(),
        hi <= n,
    ensures
        match find_tag(s@, lo as int, hi as int) {
            Some(v) => r == Some(v as usize) && lo <= v && v + 6 <= hi && hex_tag_at(s@, v),
            None => r is None,
        },
    decreases hi - lo,
{
    if hi < 6 || lo > hi - 6 {
        None
    } else if tag_at(s, n, lo) {
        Some(lo)
    } else {
        find_tag_in(s, n, lo + 1, hi)
    }
}

fn tail_at(s: &str, n: usize, p: usize) -> (r: Option<(usize, usize, usize)>)
    requires
        n as nat == s@.len(),
        p <= n,
    ensures
        match tail_spec(s@, p as int) {
            Some(t) => r is Some && r->Some_0.0 + 5 <= n && r->Some_0.1 + 1 <= r->Some_0.2 <= n && t.0
                == s@.subrange(r->Some_0.0 + 1, r->Some_0.0 + 5) && t.1 == s@.subrange(
                r->Some_0.1 + 1,
                r->Some_0.2 as int,
            ),
            None => r is None,
        },
{
    let w2 = skip_ws_from(s, n, p);
    if !(w2 > p && w2 < n && s.get_char(w2) == '"') {
        return None;
    }
    let e = find_from(s, n, w2 + 1, '"');
    if e >= n {
        return None;
    }
    let w3 = skip_ws_from(s, n, e + 1);
    if !(w3 > e + 1 && w3 < n && s.get_char(w3) == '"') {
        return None;
    }
    let f = find_from(s, n, w3 + 1, '"');
    if !(f < n && f > w3 + 1) {
        return None;
    }
    match find_tag_in(s, n, w2 + 1, e) {
        Some(v) => Some((v, w3, f)),
        None => None,
    }
}

fn class_end_from(s: &str, n: usize, k: usize) -> (r: Option<usize>)
    requires
        n as nat == s@.len(),
        k <= n,
    ensures
        match class_end(s@, k as int) {
            Some(q) => r == Some(q as usize) && k <= q < n && tail_spec(s@, q + 1) is Some,
            None => r is None,
        },
    decreases n - k,
{
    if k >= n {
        return None;
    }
    let c = s.get_char(k);
    if c == '\n' {
        None
    } else if c == '"' && tail_at(s, n, k + 1).is_some() {
        Some(k)
    } else {
        class_end_from(s, n, k + 1)
    }
}

/// A device name with a trailing white-space-separated `[xxxx]` device id
/// taken off, then trimmed.
pub fn clean_device_name(name: &str) -> (r: String)
    ensures
        r@ == clean_name(name@),
{
    let len = name.unicode_len();
    if len >= 7 && tag_at(name, len, len - 6) && ws_char(name.get_char(len - 7)) {
        let e = trim_end_at(name, len, len - 6);
        trim_ws(name.substring_char(0, e)).to_owned()
    } else {
        name.to_owned()
    }
}

/// Reads one line of `lspci -mm -nn` into its device class id, vendor id,
/// cleaned device name and PCI address; `None` when the line does not have
/// that shape.
pub fn parse_pci_device(line: &str) -> (r: Option<(String, String, String, String)>)
    ensures
        match pci_spec(line@) {
            Some(t) => r is Some && r->Some_0.0@ == t.0 && r->Some_0.1@ == t.1 && r->Some_0.2@ == t.2
                && r->Some_0.3@ == t.3,
            None => r is None,
        },
{
    let n = line.unicode_len();
    let a = skip_non_ws_from(line, n, 0);
    let w = skip_ws_from(line, n, a);
    if !(a > 0 && w > a && w < n && line.get_char(w) == '"') {
        return None;
    }
    let b = find_from(line, n, w + 1, '[');
    if !tag_at(line, n, b) {
        return None;
    }
    match class_end_from(line, n, b + 6) {
        Some(q) => match tail_at(line, n, q + 1) {
            Some(t) => {
                let (v, w3, f) = t;
                let class_id = line.substring_char(b + 1, b + 5).to_owned();
                let vendor_id = line.substring_char(v + 1, v + 5).to_owned();
                let raw_name = trim_ws(line.substring_char(w3 + 1, f));
                let name = clean_device_name(raw_name);
                let addr = line.substring_char(0, a).to_owned();
                Some((class_id, vendor_id, name, addr))
            },
            None => None,
        },
        None => None,
    }
}

/// Whether a PCI class id is that of a display controller: VGA (`0300`),
/// 3D (`0302`) or other (`0380`).
pub open spec fn display_class(c: Seq<char>) -> bool {
    c == "0300"@ || c == "0302"@ || c == "0380"@
}

/// Whether the device of PCI class `class_id` is a GPU.
pub fn is_display_class(class_id: &str) -> (r: bool)
    ensures
        r == display_class(class_id@),
{
    same_text(class_id, "0300") || same_text(class_id, "0302")
        || same_text(class_id, "0380")
}

/// The card and render node paths found among the first `n` entries of a
/// device's DRM directory: the last `card*` and `renderD*` entries seen, the
/// scan stopping once both are known.
pub open spec fn dri_scan(names: Seq<Seq<char>>, n: nat) -> (Seq<char>, Seq<char>)
    decreases n,
{
    if n == 0 || n > names.len() {
        (Seq::empty(), Seq::empty())
    } else {
        let prev = dri_scan(names, (n - 1) as nat);
        let name = names[n - 1];
        if prev.0.len() > 0 && prev.1.len() > 0 {
            prev
        } else if starts_with(name, "card"@) {
            ("/dev/dri/"@ + name, prev.1)
        } else if starts_with(name, "renderD"@) {
            (prev.0, "/dev/dri/"@ + name)
        } else {
            prev
        }
    }
}

/// The device nodes of a PCI device from the entry names of its DRM
/// directory: `/dev/dri/card*` and `/dev/dri/renderD*` (empty when there is
/// none), or `None` when there is no card node.
pub fn dri_nodes(names: &[String]) -> (r: Option<(String, String)>)
    ensures
        ({
            let s = dri_scan(names@.map_values(|x: String| x@), names@.len());
            &&& s.0.len() > 0 ==> r is Some && r->Some_0.0@ == s.0 && r->Some_0.1@ == s.1
            &&& s.0.len() == 0 ==> r is None
        }),
{
    let ghost v = names@.map_values(|x: String| x@);
    let mut card = String::new();
    let mut render = String::new();
    let mut i: usize = 0;
    while i < names.len() && !(card.unicode_len() > 0 && render.unicode_len() > 0)
        invariant
            i <= names@.len(),
            v == names@.map_values(|x: String| x@),
            (card@, render@) == dri_scan(v, i as nat),
        decreases names@.len() - i,
    {
        let name = names[i].as_str();
        proof {
            reveal_strlit("card");
            reveal_strlit("renderD");
        }
        if has_prefix(name, "card") {
            card = "/dev/dri/".to_owned().concat(name);
        } else if has_prefix(name, "renderD") {
            render = "/dev/dri/".to_owned().concat(name);
        }
        i = i + 1;
    }
    proof {
        if i < names@.len() {
            lemma_dri_scan_settled(v, i as nat, names@.len());
        }
    }
    if card.unicode_len() > 0 {
        Some((card, render))
    } else {
        None
    }
}

/// Once both nodes are known, later entries change nothing.
proof fn lemma_dri_scan_settled(names: Seq<Seq<char>>, i: nat, n: nat)
    requires
        i <= n <= names.len(),
        dri_scan(names, i).0.len() > 0,
        dri_scan(names, i).1.len() > 0,
    ensures
        dri_scan(names, n) == dri_scan(names, i),
    decreases n - i,
{
    if n > i {
        lemma_dri_scan_settled(names, i, (n - 1) as nat);
    }
}

} // verus!
