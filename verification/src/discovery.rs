//! Discovery of supported mice among the hidraw nodes of sysfs.
//!
//! Each node of `/sys/class/hidraw` is judged from three things read off the
//! filesystem: its name, the text of its `device/uevent` file and the target
//! of its symlink. A node is a candidate when its `HID_ID=` line names a
//! known (vendor, product) pair and the symlink shows USB Interface 0.
use vstd::prelude::*;

use crate::text;
use vstd::utf8::encode_utf8;

verus! {

/// A device node that may be a supported mouse.
pub struct HidrawMatch {
    pub dev_node: String,
}

/// One entry of `/sys/class/hidraw`, as read from the filesystem.
pub struct HidrawNode {
    /// The entry's file name, such as `hidraw3`.
    pub name: String,
    /// The UTF-8 text of `<entry>/device/uevent`, or `None` where it could not be read.
    pub uevent: Option<Vec<u8>>,
    /// The bytes of the entry's symlink target, or `None` where it could not be read.
    pub link_target: Option<Vec<u8>>,
}

// ---------------------------------------------------------------------------
// Byte-level text helpers
// ---------------------------------------------------------------------------

/// `HID_ID=`
pub open spec fn hid_id_key() -> Seq<u8> {
    seq![72u8, 73u8, 68u8, 95u8, 73u8, 68u8, 61u8]
}

/// `:1.0`, the tail of the USB interface component for Interface 0.
pub open spec fn interface_zero_marker() -> Seq<u8> {
    seq![58u8, 49u8, 46u8, 48u8]
}

/// `hidraw`
pub open spec fn hidraw_prefix() -> Seq<u8> {
    seq![104u8, 105u8, 100u8, 114u8, 97u8, 119u8]
}

pub open spec fn starts_with(s: Seq<u8>, p: Seq<u8>) -> bool {
    p.len() <= s.len() && s.take(p.len() as int) == p
}

/// The index of the first `b` in `s` at or after `from`, or `s.len()` where
/// there is none.
pub open spec fn index_from(s: Seq<u8>, b: u8, from: int) -> int
    decreases s.len() - from,
{
    if from >= s.len() {
        s.len() as int
    } else if s[from] == b {
        from
    } else {
        index_from(s, b, from + 1)
    }
}

pub proof fn lemma_index_from_bounds(s: Seq<u8>, b: u8, from: int)
    requires
        0 <= from <= s.len(),
    ensures
        from <= index_from(s, b, from) <= s.len(),
        index_from(s, b, from) < s.len() ==> s[index_from(s, b, from)] == b,
        forall|k: int| from <= k < index_from(s, b, from) ==> s[k] != b,
    decreases s.len() - from,
{
    if from < s.len() && s[from] != b {
        lemma_index_from_bounds(s, b, from + 1);
    }
}

/// `s` holds `p` as a contiguous run.
pub open spec fn contains_run(s: Seq<u8>, p: Seq<u8>) -> bool {
    exists|i: int| 0 <= i && i + p.len() <= s.len() && #[trigger] s.subrange(i, i + p.len()) == p
}

// ---------------------------------------------------------------------------
// The uevent file
// ---------------------------------------------------------------------------

/// The first line, at or after byte `start`, that starts with `HID_ID=`.
/// Lines end at `\n`; a `\r` just before the `\n` belongs to the line ending,
/// and an empty text after the last `\n` is no line.
pub open spec fn hid_id_line_from(s: Seq<u8>, start: int) -> Option<Seq<u8>>
    decreases s.len() - start,
    via hid_id_line_from_decreases
{
    if start < 0 || start >= s.len() {
        None
    } else {
        let e: int = index_from(s, 10u8, start);
        let raw = s.subrange(start, e);
        let line = if e < s.len() && raw.len() > 0 && raw.last() == 13u8 {
            raw.drop_last()
        } else {
            raw
        };
        if starts_with(line, hid_id_key()) {
            Some(line)
        } else if e < s.len() {
            hid_id_line_from(s, e + 1)
        } else {
            None
        }
    }
}

#[via_fn]
proof fn hid_id_line_from_decreases(s: Seq<u8>, start: int) {
    if 0 <= start < s.len() {
        lemma_index_from_bounds(s, 10u8, start);
    }
}

/// `s` with every leading repetition of `p` removed.
pub open spec fn strip_all_prefix(s: Seq<u8>, p: Seq<u8>) -> Seq<u8>
    decreases s.len(),
{
    if p.len() > 0 && starts_with(s, p) {
        strip_all_prefix(s.skip(p.len() as int), p)
    } else {
        s
    }
}

/// The second and third `:`-separated fields of `v`, where `v` has exactly
/// three fields.
pub open spec fn colon_fields(v: Seq<u8>) -> Option<(Seq<u8>, Seq<u8>)> {
    let c1: int = index_from(v, 58u8, 0);
    let c2: int = index_from(v, 58u8, c1 + 1);
    if c1 < v.len() && c2 < v.len() && index_from(v, 58u8, c2 + 1) == v.len() {
        Some((v.subrange(c1 + 1, c2), v.subrange(c2 + 1, v.len() as int)))
    } else {
        None
    }
}

/// The vendor and product ids that a uevent text declares: its first
/// `HID_ID=` line, with the key stripped, must have three `:`-separated
/// fields, of which the second and third read as hexadecimal `u32`s; each
/// is an id only where its value fits in 16 bits, so that a field such as
/// `00010B05` never passes for vendor `0x0B05`.
pub open spec fn hid_id_of(s: Seq<u8>) -> Option<(u16, u16)> {
    match hid_id_line_from(s, 0) {
        None => None,
        Some(line) => match colon_fields(strip_all_prefix(line, hid_id_key())) {
            None => None,
            Some((vf, pf)) => match (text::hex_u32(vf), text::hex_u32(pf)) {
                (Some(v), Some(p)) => if v <= 0xFFFF && p <= 0xFFFF {
                    Some((v as u16, p as u16))
                } else {
                    None
                },
                _ => None,
            },
        },
    }
}

/// Whether byte `start` of `s` begins a run equal to `p` that ends at or
/// before `end`.
fn has_run_at(s: &[u8], start: usize, end: usize, p: &[u8]) -> (r: bool)
    requires
        start <= end <= s@.len(),
    ensures
        r == (start + p@.len() <= end && s@.subrange(start as int, start + p@.len()) == p@),
{
    if p.len() > end - start {
        return false;
    }
    let mut i: usize = 0;
    while i < p.len()
        invariant
            start + p@.len() <= end <= s@.len(),
            i <= p@.len(),
            forall|k: int| 0 <= k < i ==> s@[start + k] == p@[k],
        decreases p@.len() - i,
    {
        if s[start + i] != p[i] {
            assert(s@.subrange(start as int, start + p@.len())[i as int] != p@[i as int]);
            return false;
        }
        i = i + 1;
    }
    assert(s@.subrange(start as int, start + p@.len()) =~= p@);
    true
}

/// The index of the first `b` in `s` at or after `from`, or `s.len()`.
fn find_byte(s: &[u8], b: u8, from: usize) -> (r: usize)
    requires
        from <= s@.len(),
    ensures
        r == index_from(s@, b, from as int),
        from <= r <= s@.len(),
{
    let mut i: usize = from;
    while i < s.len()
        invariant
            from <= i <= s@.len(),
            index_from(s@, b, from as int) == index_from(s@, b, i as int),
        decreases s@.len() - i,
    {
        if s[i] == b {
            return i;
        }
        i = i + 1;
    }
    i
}

fn hid_id_key_bytes() -> (k: Vec<u8>)
    ensures
        k@ == hid_id_key(),
{
    let k = vec![72u8, 73u8, 68u8, 95u8, 73u8, 68u8, 61u8];
    assert(k@ =~= hid_id_key());
    k
}

proof fn lemma_strip_all_prefix_step(s: Seq<u8>, p: Seq<u8>, lo: int, hi: int)
    requires
        0 <= lo <= hi <= s.len(),
        p.len() > 0,
        lo + p.len() <= hi,
        s.subrange(lo, lo + p.len()) == p,
    ensures
        strip_all_prefix(s.subrange(lo, hi), p) == strip_all_prefix(s.subrange(lo + p.len(), hi), p),
{
    let t = s.subrange(lo, hi);
    assert(t.take(p.len() as int) =~= s.subrange(lo, lo + p.len()));
    assert(t.skip(p.len() as int) =~= s.subrange(lo + p.len(), hi));
}

/// Parse the vendor and product ids out of a uevent text.
pub fn parse_hid_id(s: &[u8]) -> (r: Option<(u16, u16)>)
    ensures
        r == hid_id_of(s@),
{
    let key = hid_id_key_bytes();
    let n: usize = s.len();
    let mut start: usize = 0;
    while start < n
        invariant
            n == s@.len(),
            start <= n,
            key@ == hid_id_key(),
            hid_id_line_from(s@, 0) == hid_id_line_from(s@, start as int),
        decreases n - start,
    {
        let e: usize = find_byte(s, 10u8, start);
        let mut le: usize = e;
        if e < n && le > start && s[le - 1] == 13u8 {
            le = le - 1;
        }
        proof {
            let raw = s@.subrange(start as int, e as int);
            if e < n && raw.len() > 0 && raw.last() == 13u8 {
                assert(raw.drop_last() =~= s@.subrange(start as int, le as int));
            } else {
                assert(raw =~= s@.subrange(start as int, le as int));
            }
            let line = s@.subrange(start as int, le as int);
            if hid_id_key().len() <= line.len() {
                assert(line.take(hid_id_key().len() as int) =~= s@.subrange(
                    start as int,
                    start + hid_id_key().len(),
                ));
            }
        }
        if has_run_at(s, start, le, key.as_slice()) {
            return parse_hid_id_line(s, start, le, &key);
        }
        if e == n {
            return None;
        }
        start = e + 1;
    }
    None
}

/// Parse the ids out of the `HID_ID=` line `s[start..end]`.
fn parse_hid_id_line(s: &[u8], start: usize, end: usize, key: &Vec<u8>) -> (r: Option<(u16, u16)>)
    requires
        start <= end <= s@.len(),
        key@ == hid_id_key(),
    ensures
        r == (match colon_fields(strip_all_prefix(s@.subrange(start as int, end as int), hid_id_key())) {
            None => None,
            Some((vf, pf)) => match (text::hex_u32(vf), text::hex_u32(pf)) {
                (Some(v), Some(p)) => if v <= 0xFFFF && p <= 0xFFFF {
                    Some((v as u16, p as u16))
                } else {
                    None
                },
                _ => None,
            },
        }),
{
    // trim every leading repetition of the key
    let mut lo: usize = start;
    while has_run_at(s, lo, end, key.as_slice())
        invariant
            start <= lo <= end <= s@.len(),
            key@ == hid_id_key(),
            strip_all_prefix(s@.subrange(start as int, end as int), hid_id_key())
                == strip_all_prefix(s@.subrange(lo as int, end as int), hid_id_key()),
        decreases end - lo,
    {
        proof {
            lemma_strip_all_prefix_step(s@, hid_id_key(), lo as int, end as int);
        }
        lo = lo + key.len();
    }
    proof {
        let t = s@.subrange(lo as int, end as int);
        if hid_id_key().len() <= t.len() {
            assert(t.take(hid_id_key().len() as int) =~= s@.subrange(lo as int, lo + hid_id_key().len()));
        }
    }
    let ghost v = s@.subrange(lo as int, end as int);
    assert(strip_all_prefix(v, hid_id_key()) == v);
    // split into exactly three ':'-separated fields
    let sub = &s[lo..end];
    assert(sub@ == v);
    let c1: usize = find_byte(sub, 58u8, 0);
    if c1 >= sub.len() {
        return None;
    }
    let c2: usize = find_byte(sub, 58u8, c1 + 1);
    if c2 >= sub.len() {
        return None;
    }
    let c3: usize = find_byte(sub, 58u8, c2 + 1);
    if c3 != sub.len() {
        return None;
    }
    let vid = text::parse_hex_u32(sub, c1 + 1, c2);
    let pid = text::parse_hex_u32(sub, c2 + 1, sub.len());
    match (vid, pid) {
        (Some(v), Some(p)) => if v <= 0xFFFF && p <= 0xFFFF {
            Some((v as u16, p as u16))
        } else {
            None
        },
        _ => None,
    }
}

// ---------------------------------------------------------------------------
// Judging a node
// ---------------------------------------------------------------------------

/// The device node path of a hidraw entry: `/dev/` and its name.
pub open spec fn dev_path(name: Seq<char>) -> Seq<char> {
    "/dev/"@ + name
}

/// Whether a hidraw entry is a candidate: its uevent declares a known
/// (vendor, product) pair and its symlink target shows USB Interface 0.
pub open spec fn node_is_candidate(node: HidrawNode, known: Seq<(u16, u16)>) -> bool {
    &&& node.uevent is Some
    &&& node.link_target is Some
    &&& hid_id_of(node.uevent->0@) matches Some(id)
    &&& known.contains(id)
    &&& contains_run(node.link_target->0@, interface_zero_marker())
}

/// The order key of a hidraw entry name: its index for `hidraw<digits>`
/// (`u64::MAX` where that overflows), `u64::MAX` for any other name.
pub open spec fn hidraw_key(name: Seq<u8>) -> u64 {
    let digits = name.skip(hidraw_prefix().len() as int);
    if starts_with(name, hidraw_prefix()) && digits.len() > 0 && text::all_decimal(digits) {
        if text::decimal_value(digits) <= u64::MAX {
            text::decimal_value(digits) as u64
        } else {
            u64::MAX
        }
    } else {
        u64::MAX
    }
}

/// Whether `(vid, pid)` is one of the `known` pairs.
pub fn is_known_id(known: &[(u16, u16)], vid: u16, pid: u16) -> (r: bool)
    ensures
        r == known@.contains((vid, pid)),
{
    let mut i: usize = 0;
    while i < known.len()
        invariant
            i <= known@.len(),
            forall|k: int| 0 <= k < i ==> known@[k] != (vid, pid),
        decreases known@.len() - i,
    {
        let (v, p) = known[i];
        if v == vid && p == pid {
            assert(known@[i as int] == (vid, pid));
            return true;
        }
        i = i + 1;
    }
    false
}

/// Whether a symlink target names USB Interface 0: it holds `:1.0`.
pub fn is_interface_zero(target: &[u8]) -> (r: bool)
    ensures
        r == contains_run(target@, interface_zero_marker()),
{
    let marker = vec![58u8, 49u8, 46u8, 48u8];
    assert(marker@ =~= interface_zero_marker());
    let n: usize = target.len();
    if n < 4 {
        return false;
    }
    let mut i: usize = 0;
    while i <= n - 4
        invariant
            n == target@.len(),
            4 <= n,
            i <= n - 3,
            marker@ == interface_zero_marker(),
            forall|k: int| 0 <= k < i ==> #[trigger] target@.subrange(k, k + 4) != interface_zero_marker(),
        decreases n - i,
    {
        if has_run_at(target, i, n, marker.as_slice()) {
            return true;
        }
        i = i + 1;
    }
    assert forall|k: int| 0 <= k && k + 4 <= target@.len() implies #[trigger] target@.subrange(
        k,
        k + 4,
    ) != interface_zero_marker() by {}
    false
}

/// The order key of a hidraw entry name, as `hidraw_key` describes.
pub fn hidraw_index(name: &str) -> (r: u64)
    ensures
        r == hidraw_key(encode_utf8(name@)),
{
    let b = name.as_bytes();
    let prefix = vec![104u8, 105u8, 100u8, 114u8, 97u8, 119u8];
    assert(prefix@ =~= hidraw_prefix());
    let n: usize = b.len();
    proof {
        if hidraw_prefix().len() <= b@.len() {
            assert(b@.take(6) =~= b@.subrange(0, 6));
        }
    }
    if !has_run_at(b, 0, n, prefix.as_slice()) || n == 6 {
        return u64::MAX;
    }
    let ghost digits = b@.skip(6);
    assert(digits =~= b@.subrange(6, n as int));
    let mut i: usize = 6;
    while i < n
        invariant
            6 <= i <= n == b@.len(),
            digits == b@.subrange(6, n as int),
            digits == b@.skip(6),
            b@ == encode_utf8(name@),
            starts_with(b@, hidraw_prefix()),
            forall|k: int| 6 <= k < i ==> text::is_decimal_digit(#[trigger] b@[k]),
        decreases n - i,
    {
        if b[i] < 48 || b[i] > 57 {
            assert(digits[i - 6] == b@[i as int]);
            assert(!text::is_decimal_digit(digits[i - 6]));
            return u64::MAX;
        }
        i = i + 1;
    }
    assert(text::all_decimal(digits)) by {
        assert forall|k: int| 0 <= k < digits.len() implies text::is_decimal_digit(#[trigger] digits[k]) by {
            assert(digits[k] == b@[k + 6]);
        }
    }
    text::saturating_decimal(b, 6, n)
}

/// `/dev/` followed by `name`.
pub fn dev_node_path(name: &str) -> (r: String)
    ensures
        r@ == dev_path(name@),
{
    let mut d = "/dev/".to_owned();
    d.append(name);
    d
}

/// Judge one hidraw entry.
pub fn match_node(node: &HidrawNode, known: &[(u16, u16)]) -> (r: Option<HidrawMatch>)
    ensures
        r is Some <==> node_is_candidate(*node, known@),
        r matches Some(m) ==> m.dev_node@ == dev_path(node.name@),
{
    let uevent = match &node.uevent {
        Some(u) => u,
        None => return None,
    };
    let target = match &node.link_target {
        Some(t) => t,
        None => return None,
    };
    let (vid, pid) = match parse_hid_id(uevent.as_slice()) {
        Some(id) => id,
        None => return None,
    };
    if !is_known_id(known, vid, pid) {
        return None;
    }
    if !is_interface_zero(target.as_slice()) {
        return None;
    }
    Some(HidrawMatch { dev_node: dev_node_path(node.name.as_str()) })
}

/// The order key of a hidraw entry.
pub open spec fn node_key(node: HidrawNode) -> u64 {
    hidraw_key(encode_utf8(node.name@))
}

/// The bytes of a hidraw entry's name.
pub open spec fn node_name(node: HidrawNode) -> Seq<u8> {
    encode_utf8(node.name@)
}

/// Rank `(k1, n1)` comes strictly before rank `(k2, n2)`: a smaller
/// index, or the same index and a name that sorts first.
pub open spec fn rank_before(k1: u64, n1: Seq<u8>, k2: u64, n2: Seq<u8>) -> bool {
    k1 < k2 || (k1 == k2 && text::bytes_lt(n1, n2))
}

/// Entry `a` of `nodes` comes before entry `b`: a smaller hidraw index; the
/// same index and a name that sorts first; or the same index and name and
/// an earlier place in `nodes`.
pub open spec fn listed_before(nodes: Seq<HidrawNode>, a: int, b: int) -> bool {
    ||| rank_before(node_key(nodes[a]), node_name(nodes[a]), node_key(nodes[b]), node_name(nodes[b]))
    ||| node_key(nodes[a]) == node_key(nodes[b]) && node_name(nodes[a]) == node_name(nodes[b]) && a < b
}

proof fn lemma_rank_transitive(k1: u64, n1: Seq<u8>, k2: u64, n2: Seq<u8>, k3: u64, n3: Seq<u8>)
    requires
        rank_before(k1, n1, k2, n2),
        rank_before(k2, n2, k3, n3) || (k2 == k3 && n2 == n3),
    ensures
        rank_before(k1, n1, k3, n3),
{
    if k1 == k2 && k2 == k3 && rank_before(k2, n2, k3, n3) {
        text::lemma_bytes_lt_transitive(n1, n2, n3);
    }
}

proof fn lemma_rank_total(k1: u64, n1: Seq<u8>, k2: u64, n2: Seq<u8>)
    ensures
        rank_before(k1, n1, k2, n2) || rank_before(k2, n2, k1, n1) || (k1 == k2 && n1 == n2),
{
    text::lemma_bytes_lt_total(n1, n2);
}

/// `r` lists, through the positions `pos` into `nodes`, every candidate of
/// `nodes` exactly once, ordered by hidraw index, then by name, then by
/// place in `nodes`.
pub open spec fn lists_candidates_in_order(
    r: Seq<HidrawMatch>,
    nodes: Seq<HidrawNode>,
    known: Seq<(u16, u16)>,
    pos: Seq<int>,
    upto: int,
) -> bool {
    &&& pos.len() == r.len()
    &&& forall|j: int|
        0 <= j < pos.len() ==> {
            &&& 0 <= #[trigger] pos[j] < upto
            &&& node_is_candidate(nodes[pos[j]], known)
            &&& r[j].dev_node@ == dev_path(nodes[pos[j]].name@)
        }
    &&& forall|a: int, b: int| 0 <= a < b < pos.len() ==> listed_before(nodes, #[trigger] pos[a], #[trigger] pos[b])
    &&& forall|k: int| 0 <= k < upto && node_is_candidate(#[trigger] nodes[k], known) ==> pos.contains(k)
}

/// The candidates among `nodes`, ordered by hidraw index and, for equal
/// indices, by name; entries equal in both keep their order in `nodes`.
#[verifier::spinoff_prover]
pub fn select_hidraw_nodes(nodes: &Vec<HidrawNode>, known: &[(u16, u16)]) -> (r: Vec<HidrawMatch>)
    ensures
        exists|pos: Seq<int>| lists_candidates_in_order(r@, nodes@, known@, pos, nodes@.len() as int),
{
    let mut out: Vec<HidrawMatch> = Vec::new();
    let mut keys: Vec<u64> = Vec::new();
    let mut names: Vec<&[u8]> = Vec::new();
    let ghost mut pos: Seq<int> = Seq::empty();
    let mut i: usize = 0;
    while i < nodes.len()
        invariant
            i <= nodes@.len(),
            keys@.len() == out@.len(),
            names@.len() == out@.len(),
            lists_candidates_in_order(out@, nodes@, known@, pos, i as int),
            forall|j: int| 0 <= j < keys@.len() ==> keys@[j] == node_key(nodes@[#[trigger] pos[j]]),
            forall|j: int| 0 <= j < names@.len() ==> names@[j]@ == node_name(nodes@[#[trigger] pos[j]]),
        decreases nodes@.len() - i,
    {
        let node = &nodes[i];
        match match_node(node, known) {
            None => {},
            Some(m) => {
                let key: u64 = hidraw_index(node.name.as_str());
                let name: &[u8] = node.name.as_str().as_bytes();
                assert(key == node_key(nodes@[i as int]) && name@ == node_name(nodes@[i as int]));
                // insert before the first entry that this one comes strictly before
                let mut p: usize = 0;
                while p < keys.len() && !(key < keys[p] || (key == keys[p] && text::bytes_before(
                    name,
                    names[p],
                )))
                    invariant
                        p <= keys@.len(),
                        keys@.len() == names@.len(),
                        forall|a: int| 0 <= a < p ==> !rank_before(key, name@, #[trigger] keys@[a], names@[a]@),
                    decreases keys@.len() - p,
                {
                    p = p + 1;
                }
                let ghost old_pos = pos;
                let ghost old_out = out@;
                let ghost old_keys = keys@;
                let ghost old_names = names@;
                keys.insert(p, key);
                names.insert(p, name);
                out.insert(p, m);
                proof {
                    pos = old_pos.insert(p as int, i as int);
                    old_pos.insert_ensures(p as int, i as int);
                    assert forall|j: int| 0 <= j < pos.len() implies {
                        &&& 0 <= #[trigger] pos[j] < i + 1
                        &&& node_is_candidate(nodes@[pos[j]], known@)
                        &&& out@[j].dev_node@ == dev_path(nodes@[pos[j]].name@)
                    } by {
                        if j > p {
                            assert(pos[j] == old_pos[j - 1]);
                            assert(out@[j] == old_out[j - 1]);
                        } else if j < p {
                            assert(pos[j] == old_pos[j]);
                        }
                    }
                    assert forall|j: int| 0 <= j < keys@.len() implies keys@[j] == node_key(
                        nodes@[#[trigger] pos[j]],
                    ) && names@[j]@ == node_name(nodes@[pos[j]]) by {
                        if j > p {
                            assert(pos[j] == old_pos[j - 1]);
                        } else if j < p {
                            assert(pos[j] == old_pos[j]);
                        }
                    }
                    assert forall|a: int, b: int| 0 <= a < b < pos.len() implies listed_before(
                        nodes@,
                        #[trigger] pos[a],
                        #[trigger] pos[b],
                    ) by {
                        if a < p && b < p {
                            assert(pos[a] == old_pos[a] && pos[b] == old_pos[b]);
                            assert(listed_before(nodes@, old_pos[a], old_pos[b]));
                        } else if a < p && b == p {
                            assert(pos[a] == old_pos[a]);
                            assert(pos[b] == i);
                            assert(keys@[a] == old_keys[a] && names@[a] == old_names[a]);
                            assert(!rank_before(key, name@, old_keys[a], old_names[a]@));
                            assert(old_keys[a] == node_key(nodes@[old_pos[a]]));
                            assert(old_names[a]@ == node_name(nodes@[old_pos[a]]));
                            lemma_rank_total(key, name@, old_keys[a], old_names[a]@);
                            assert(0 <= old_pos[a] < i);
                        } else if a < p && b > p {
                            assert(pos[a] == old_pos[a] && pos[b] == old_pos[b - 1]);
                            assert(listed_before(nodes@, old_pos[a], old_pos[b - 1]));
                        } else if a == p {
                            assert(pos[a] == i);
                            assert(pos[b] == old_pos[b - 1]);
                            assert(p < old_keys.len());
                            assert(rank_before(key, name@, old_keys[p as int], old_names[p as int]@));
                            assert(old_keys[p as int] == node_key(nodes@[old_pos[p as int]]));
                            assert(old_names[p as int]@ == node_name(nodes@[old_pos[p as int]]));
                            let q = old_pos[p as int];
                            let r = old_pos[b - 1];
                            if b - 1 > p {
                                assert(listed_before(nodes@, q, r));
                                lemma_rank_transitive(
                                    key,
                                    name@,
                                    node_key(nodes@[q]),
                                    node_name(nodes@[q]),
                                    node_key(nodes@[r]),
                                    node_name(nodes@[r]),
                                );
                            }
                            assert(rank_before(key, name@, node_key(nodes@[r]), node_name(nodes@[r])));
                        } else {
                            assert(pos[a] == old_pos[a - 1] && pos[b] == old_pos[b - 1]);
                            assert(listed_before(nodes@, old_pos[a - 1], old_pos[b - 1]));
                        }
                    }
                    assert forall|k: int| 0 <= k < i + 1 && node_is_candidate(
                        #[trigger] nodes@[k],
                        known@,
                    ) implies pos.contains(k) by {
                        if k == i {
                            assert(pos[p as int] == i);
                        } else {
                            assert(old_pos.contains(k));
                            let w = choose|w: int| 0 <= w < old_pos.len() && old_pos[w] == k;
                            if w < p {
                                assert(pos[w] == k);
                            } else {
                                assert(pos[w + 1] == k);
                            }
                        }
                    }
                }
            },
        }
        proof {
            if !node_is_candidate(nodes@[i as int], known@) {
                assert forall|k: int| 0 <= k < i + 1 && node_is_candidate(
                    #[trigger] nodes@[k],
                    known@,
                ) implies pos.contains(k) by {}
            }
        }
        i = i + 1;
    }
    out
}

} // verus!
