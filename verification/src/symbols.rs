//! Symbol lookup in the kernel's symbol map, for panic backtraces. The map
//! is the text `nm` prints: one symbol per line, as a hexadecimal address, a
//! kind letter and a name separated by whitespace. A return address is
//! named by the text symbol (kind `T` or `t`) with the highest nonzero
//! address at or below it, and the distance past that symbol's start.
//!
//! The map is read as ASCII: lines end at `\n`, tokens are separated by
//! space, tab, `\n`, vertical tab, form feed and `\r`. A map with a line that
//! lacks three tokens or whose first token is not a hexadecimal `u64`
//! (an optional `+`, then at least one hex digit) names nothing at all.
use vstd::prelude::*;

verus! {

/// The separators between tokens.
pub open spec fn is_space(b: u8) -> bool {
    b == 0x20 || (0x09 <= b && b <= 0x0D)
}

pub open spec fn is_hex(b: u8) -> bool {
    (0x30 <= b && b <= 0x39) || (0x61 <= b && b <= 0x66) || (0x41 <= b && b <= 0x46)
}

/// The value of a hexadecimal digit.
pub open spec fn hex_digit(b: u8) -> nat {
    if 0x30 <= b && b <= 0x39 {
        (b - 0x30) as nat
    } else if 0x61 <= b && b <= 0x66 {
        (b - 0x61 + 10) as nat
    } else if 0x41 <= b && b <= 0x46 {
        (b - 0x41 + 10) as nat
    } else {
        0
    }
}

/// The number written by the digits `s[d..b]`.
pub open spec fn hex_val(s: Seq<u8>, d: int, b: int) -> nat
    decreases b - d,
{
    if b <= d {
        0
    } else {
        hex_val(s, d, b - 1) * 16 + hex_digit(s[b - 1])
    }
}

/// The token `s[a..b]` read as a hexadecimal `u64`.
pub open spec fn hex_value(s: Seq<u8>, a: int, b: int) -> Option<u64> {
    let d = if a < b && s[a] == 0x2B { a + 1 } else { a };
    if d >= b || exists|k: int| d <= k < b && !is_hex(#[trigger] s[k]) {
        None
    } else if hex_val(s, d, b) > u64::MAX {
        None
    } else {
        Some(hex_val(s, d, b) as u64)
    }
}

/// The first position at or after `i` (and before `e`) that is not a
/// separator, or `e`.
pub open spec fn skip_ws(s: Seq<u8>, i: int, e: int) -> int
    decreases e - i,
{
    if i < e && is_space(s[i]) {
        skip_ws(s, i + 1, e)
    } else {
        i
    }
}

/// The end of the token starting at `i` within `[i, e)`.
pub open spec fn word_end(s: Seq<u8>, i: int, e: int) -> int
    decreases e - i,
{
    if i < e && !is_space(s[i]) {
        word_end(s, i + 1, e)
    } else {
        i
    }
}

/// The end of the line starting at `i`: the position of the next `\n`, or
/// the end of the map.
pub open spec fn next_nl(s: Seq<u8>, i: int) -> int
    decreases s.len() - i,
{
    if 0 <= i < s.len() && s[i] != 0x0A {
        next_nl(s, i + 1)
    } else {
        i
    }
}

/// One line of the map, read: the address, and the positions of the kind
/// and of the name in the map.
#[derive(Debug, Clone, Copy, PartialEq, Eq, Structural)]
pub struct MapEntry {
    pub addr: u64,
    pub kind_start: usize,
    pub kind_end: usize,
    pub name_start: usize,
    pub name_end: usize,
}

/// The line `s[i..e]` read as an entry: none unless it has three tokens and
/// the first is a hexadecimal `u64`.
pub open spec fn entry_at(s: Seq<u8>, i: int, e: int) -> Option<MapEntry> {
    let t0s = skip_ws(s, i, e);
    let t0e = word_end(s, t0s, e);
    let t1s = skip_ws(s, t0e, e);
    let t1e = word_end(s, t1s, e);
    let t2s = skip_ws(s, t1e, e);
    let t2e = word_end(s, t2s, e);
    if t0s >= e || hex_value(s, t0s, t0e) is None || t1s >= e || t2s >= e {
        None
    } else {
        Some(
            MapEntry {
                addr: hex_value(s, t0s, t0e)->0,
                kind_start: t1s as usize,
                kind_end: t1e as usize,
                name_start: t2s as usize,
                name_end: t2e as usize,
            },
        )
    }
}

/// A text symbol: the kind is the single letter `T` or `t`.
pub open spec fn is_text_kind(s: Seq<u8>, m: MapEntry) -> bool {
    m.kind_end == m.kind_start + 1 && (s[m.kind_start as int] == 0x54 || s[m.kind_start as int] == 0x74)
}

/// The best symbol so far, `(address, name position)`, after also reading
/// entry `m`: a text symbol replaces it when its address is at or below
/// `addr` and above the best address so far.
pub open spec fn better(s: Seq<u8>, addr: u64, best: (u64, Option<(usize, usize)>), m: MapEntry) -> (
    u64,
    Option<(usize, usize)>,
) {
    if is_text_kind(s, m) && m.addr <= addr && m.addr > best.0 {
        (m.addr, Some((m.name_start, m.name_end)))
    } else {
        best
    }
}

/// Reading the lines from position `i` on, starting from `best`: the best
/// symbol at the end, or none if some line cannot be read.
pub open spec fn scan_from(s: Seq<u8>, addr: u64, i: int, best: (u64, Option<(usize, usize)>)) -> Option<
    (u64, Option<(usize, usize)>),
>
    decreases s.len() - i,
{
    if i < 0 || i >= s.len() {
        Some(best)
    } else {
        let e = next_nl(s, i);
        match entry_at(s, i, e) {
            None => None,
            Some(m) => {
                proof {
                    lemma_next_nl_bounds(s, i);
                }
                if e < s.len() {
                    scan_from(s, addr, e + 1, better(s, addr, best, m))
                } else {
                    Some(better(s, addr, best, m))
                }
            },
        }
    }
}

/// The symbol naming `addr` in the map `s`, and how far past its start
/// `addr` lies.
pub open spec fn lookup_spec(s: Seq<u8>, addr: u64) -> Option<(Seq<u8>, u64)> {
    match scan_from(s, addr, 0, (0, None)) {
        Some((best_addr, Some((ns, ne)))) => Some((s.subrange(ns as int, ne as int), (addr - best_addr) as u64)),
        _ => None,
    }
}

pub proof fn lemma_next_nl_bounds(s: Seq<u8>, i: int)
    requires
        0 <= i <= s.len(),
    ensures
        i <= next_nl(s, i) <= s.len(),
        next_nl(s, i) < s.len() ==> s[next_nl(s, i)] == 0x0A,
    decreases s.len() - i,
{
    if i < s.len() && s[i] != 0x0A {
        lemma_next_nl_bounds(s, i + 1);
    }
}

fn next_newline(map: &[u8], i: usize) -> (r: usize)
    requires
        i <= map@.len(),
    ensures
        r == next_nl(map@, i as int),
        i <= r <= map@.len(),
{
    let len = map.len();
    let mut j = i;
    while j < len && map[j] != 0x0A
        invariant
            len == map@.len(),
            i <= j <= len,
            next_nl(map@, i as int) == next_nl(map@, j as int),
        decreases len - j,
    {
        j = j + 1;
    }
    j
}

fn skip_space(map: &[u8], i: usize, e: usize) -> (r: usize)
    requires
        i <= e <= map@.len(),
    ensures
        r == skip_ws(map@, i as int, e as int),
        i <= r <= e,
{
    let mut j = i;
    while j < e && (map[j] == 0x20 || (0x09 <= map[j] && map[j] <= 0x0D))
        invariant
            e <= map@.len(),
            i <= j <= e,
            skip_ws(map@, i as int, e as int) == skip_ws(map@, j as int, e as int),
        decreases e - j,
    {
        j = j + 1;
    }
    j
}

fn token_end(map: &[u8], i: usize, e: usize) -> (r: usize)
    requires
        i <= e <= map@.len(),
    ensures
        r == word_end(map@, i as int, e as int),
        i <= r <= e,
{
    let mut j = i;
    while j < e && !(map[j] == 0x20 || (0x09 <= map[j] && map[j] <= 0x0D))
        invariant
            e <= map@.len(),
            i <= j <= e,
            word_end(map@, i as int, e as int) == word_end(map@, j as int, e as int),
        decreases e - j,
    {
        j = j + 1;
    }
    j
}

/// Digits added on the right never make the number smaller.
proof fn lemma_hex_val_mono(s: Seq<u8>, d: int, k: int, m: int)
    requires
        d <= k <= m,
    ensures
        hex_val(s, d, k) <= hex_val(s, d, m),
    decreases m - k,
{
    if k < m {
        lemma_hex_val_mono(s, d, k, m - 1);
    }
}

fn digit_value(c: u8) -> (r: u8)
    ensures
        r == hex_digit(c),
{
    if 0x30 <= c && c <= 0x39 {
        c - 0x30
    } else if 0x61 <= c && c <= 0x66 {
        c - 0x61 + 10
    } else if 0x41 <= c && c <= 0x46 {
        c - 0x41 + 10
    } else {
        0
    }
}

/// Reads the token `map[a..b]` as a hexadecimal `u64`.
fn parse_hex(map: &[u8], a: usize, b: usize) -> (r: Option<u64>)
    requires
        a <= b <= map@.len(),
    ensures
        r == hex_value(map@, a as int, b as int),
{
    let ghost s = map@;
    let d = if a < b && map[a] == 0x2B { a + 1 } else { a };
    if d >= b {
        return None;
    }
    let mut k = d;
    let mut acc: u64 = 0;
    while k < b
        invariant
            s == map@,
            b <= s.len(),
            d <= k <= b,
            d < b,
            d as int == (if a < b && s[a as int] == 0x2B { a + 1 } else { a as int }),
            forall|j: int| d <= j < k ==> is_hex(#[trigger] s[j]),
            acc == hex_val(s, d as int, k as int),
        decreases b - k,
    {
        let c = map[k];
        if !((0x30 <= c && c <= 0x39) || (0x61 <= c && c <= 0x66) || (0x41 <= c && c <= 0x46)) {
            return None;
        }
        let next: u128 = (acc as u128) * 16 + (digit_value(c) as u128);
        assert(next == hex_val(s, d as int, (k + 1) as int));
        if next > 0xFFFF_FFFF_FFFF_FFFFu128 {
            proof {
                lemma_hex_val_mono(s, d as int, (k + 1) as int, b as int);
            }
            return None;
        }
        acc = next as u64;
        k = k + 1;
    }
    Some(acc)
}

/// Reads the line `map[i..e]` as an entry.
fn parse_entry(map: &[u8], i: usize, e: usize) -> (r: Option<MapEntry>)
    requires
        i <= e <= map@.len(),
    ensures
        r == entry_at(map@, i as int, e as int),
        r matches Some(m) ==> i <= m.kind_start <= m.kind_end <= m.name_start <= m.name_end <= e
            && m.kind_start < e && m.name_start < e,
{
    let t0s = skip_space(map, i, e);
    let t0e = token_end(map, t0s, e);
    let t1s = skip_space(map, t0e, e);
    let t1e = token_end(map, t1s, e);
    let t2s = skip_space(map, t1e, e);
    let t2e = token_end(map, t2s, e);
    if t0s >= e {
        return None;
    }
    let addr = match parse_hex(map, t0s, t0e) {
        None => {
            return None;
        },
        Some(v) => v,
    };
    if t1s >= e || t2s >= e {
        return None;
    }
    Some(MapEntry { addr, kind_start: t1s, kind_end: t1e, name_start: t2s, name_end: t2e })
}

/// Finds the symbol that `addr` lies in: the text symbol of the map with
/// the highest nonzero address at or below `addr` (the first such line
/// when several share it), given back as its name and the distance of
/// `addr` past it; none when no text symbol lies at or below `addr`, or
/// when a line of the map cannot be read.
pub fn lookup_symbol(map: &[u8], addr: u64) -> (r: Option<(&[u8], u64)>)
    ensures
        match lookup_spec(map@, addr) {
            Some((name, offset)) => r matches Some((n, o)) && n@ == name && o == offset,
            None => r is None,
        },
{
    let len = map.len();
    let ghost s = map@;
    let mut i: usize = 0;
    let mut best_addr: u64 = 0;
    let mut best: Option<(usize, usize)> = None;
    while i < len
        invariant
            s == map@,
            len == s.len(),
            i <= len,
            best_addr <= addr,
            best matches Some((ns, ne)) ==> ns <= ne <= len,
            scan_from(s, addr, 0, (0, None)) == scan_from(s, addr, i as int, (best_addr, best)),
        decreases len - i,
    {
        let e = next_newline(map, i);
        let m = match parse_entry(map, i, e) {
            None => {
                return None;
            },
            Some(m) => m,
        };
        let text = m.kind_end == m.kind_start + 1 && (map[m.kind_start] == 0x54 || map[m.kind_start] == 0x74);
        if text && m.addr <= addr && m.addr > best_addr {
            best_addr = m.addr;
            best = Some((m.name_start, m.name_end));
        }
        if e >= len {
            i = len;
        } else {
            i = e + 1;
        }
    }
    match best {
        Some((ns, ne)) => Some((vstd::slice::slice_subrange(map, ns, ne), addr - best_addr)),
        None => None,
    }
}

/// Position `i` starts a line of the map.
pub open spec fn line_start(s: Seq<u8>, i: int) -> bool {
    0 <= i < s.len() && (i == 0 || s[i - 1] == 0x0A)
}

/// The text symbol on the line starting at `i`, if the line holds one.
pub open spec fn text_entry(s: Seq<u8>, i: int) -> Option<MapEntry> {
    let m = entry_at(s, i, next_nl(s, i));
    if m is Some && is_text_kind(s, m->0) {
        m
    } else {
        None
    }
}

/// No line ends between `i` and the end of its line.
proof fn lemma_no_nl_before(s: Seq<u8>, i: int)
    requires
        0 <= i <= s.len(),
    ensures
        forall|k: int| i <= k < next_nl(s, i) ==> s[k] != 0x0A,
    decreases s.len() - i,
{
    if i < s.len() && s[i] != 0x0A {
        lemma_no_nl_before(s, i + 1);
    }
}

/// What reading the lines from `i` on keeps: the best symbol is a text
/// symbol of a line read so far, at or below `addr`, and no text symbol
/// read so far lies above it and at or below `addr`.
proof fn lemma_scan_best(s: Seq<u8>, addr: u64, i: int, best: (u64, Option<(usize, usize)>))
    requires
        0 <= i,
        i >= s.len() || line_start(s, i),
        best.0 <= addr,
        best.1 is None ==> best.0 == 0,
        best.1 matches Some(p) ==> exists|j: int|
            0 <= j < i && line_start(s, j) && (#[trigger] text_entry(s, j) matches Some(m) && m.addr == best.0
                && m.addr > 0 && (m.name_start, m.name_end) == p),
        forall|j: int|
            0 <= j < i && line_start(s, j) ==> (#[trigger] text_entry(s, j) matches Some(m) ==> (m.addr <= addr
                ==> m.addr <= best.0)),
    ensures
        scan_from(s, addr, i, best) matches Some(r) ==> {
            &&& r.0 <= addr
            &&& r.1 is None ==> r.0 == 0
            &&& r.1 matches Some(p) ==> exists|j: int|
                line_start(s, j) && (#[trigger] text_entry(s, j) matches Some(m) && m.addr == r.0 && m.addr > 0
                    && (m.name_start, m.name_end) == p)
            &&& forall|j: int|
                line_start(s, j) ==> (#[trigger] text_entry(s, j) matches Some(m) ==> (m.addr <= addr ==> m.addr
                    <= r.0))
        },
    decreases s.len() - i,
{
    if i >= s.len() {
        return;
    }
    let e = next_nl(s, i);
    lemma_next_nl_bounds(s, i);
    lemma_no_nl_before(s, i);
    match entry_at(s, i, e) {
        None => {},
        Some(m) => {
            let best2 = better(s, addr, best, m);
            assert forall|j: int| 0 <= j < e + 1 && line_start(s, j) implies (#[trigger] text_entry(s, j) matches Some(
                m2,
            ) ==> (m2.addr <= addr ==> m2.addr <= best2.0)) by {
                if i < j {
                    assert(s[j - 1] != 0x0A);
                }
            }
            if let Some(p) = best2.1 {
                if best2 != best {
                    assert(text_entry(s, i) == Some(m));
                } else {
                    let j = choose|j: int|
                        0 <= j < i && line_start(s, j) && (#[trigger] text_entry(s, j) matches Some(m) && m.addr
                            == best.0 && m.addr > 0 && (m.name_start, m.name_end) == p);
                    assert(0 <= j < e + 1 && line_start(s, j) && (text_entry(s, j) matches Some(m3) && m3.addr
                        == best2.0));
                }
            }
            if e < s.len() {
                lemma_scan_best(s, addr, e + 1, best2);
            } else {
                assert forall|j: int| line_start(s, j) implies (#[trigger] text_entry(s, j) matches Some(m2) ==> (
                m2.addr <= addr ==> m2.addr <= best2.0)) by {
                    assert(0 <= j < e + 1);
                }
            }
        },
    }
}

/// The symbol found for `addr` is a text symbol of the map with a nonzero
/// address at or below `addr`, `addr` lies the given distance past it, and
/// no text symbol of the map lies above it and at or below `addr`.
pub proof fn law_lookup_finds_closest(s: Seq<u8>, addr: u64)
    requires
        lookup_spec(s, addr) is Some,
    ensures
        ({
            let (name, offset) = lookup_spec(s, addr)->0;
            &&& offset <= addr
            &&& exists|i: int|
                line_start(s, i) && (#[trigger] text_entry(s, i) matches Some(m) && m.addr == addr - offset
                    && m.addr > 0 && s.subrange(m.name_start as int, m.name_end as int) == name)
            &&& forall|i: int|
                line_start(s, i) ==> (#[trigger] text_entry(s, i) matches Some(m) ==> (m.addr <= addr ==> m.addr
                    <= addr - offset))
        }),
{
    lemma_scan_best(s, addr, 0, (0, None));
}

} // verus!
