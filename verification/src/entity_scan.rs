//! Finding players and their companions in the client's memory, by name.

use vstd::prelude::*;

use crate::code;
use crate::code::read_u32_le;
use crate::code::zero_at;
use crate::text;
use crate::text::from_chars;
use crate::text::same_chars;
use crate::text::starts_with;
use crate::text::text_of;
use crate::text::to_chars;
use crate::text::trim;
use crate::text::trim_bounds;

verus! {

/// The word at the start of every object of the players' class.
pub const PLAYER_VFPTR: u32 = 0x008D_C08C;

/// Where the address of the player's own object stands.
pub const G_PLAYER_PTR: u32 = 0x00C2_D2B8;

/// Offset of the number under which an object is a target.
pub const OFFSET_TARGET_ID: u32 = 0x0C;

/// Offsets of the addresses of an object's names.
pub const OFFSET_NAME_PTRS: [u32; 3] = [0x60, 0x64, 0x6C];

/// How many bytes of a name are read.
pub const NAME_BUF_LEN: usize = 64;

/// Where the search starts.
pub const HEAP_SCAN_START: u32 = 0x0100_0000;

/// Where the search ends.
pub const HEAP_SCAN_END: u32 = 0x7FFF_0000;

/// Most bytes of a region that are read.
pub const MAX_REGION_READ: usize = 0x100_0000;

/// Bytes by which the search goes on where a region cannot be told.
pub const PAGE: u32 = 0x1000;

/// An object that was found.
#[derive(Debug)]
pub struct ScannedEntity {
    pub addr: u32,
    pub target_id: u32,
    /// The name by which it was found.
    pub name: String,
}

/// The names of an object.
#[derive(Debug)]
pub struct EntityNames {
    pub addr: u32,
    pub target_id: u32,
    pub names: [Option<String>; 3],
}

/// Whether name number `i` of an object is, trimmed, the one that is looked for.
pub open spec fn named(e: EntityNames, i: int, needle: Seq<char>) -> bool {
    e.names@[i] matches Some(n) && text::trimmed(n@) == needle
}

/// The first name of an object that is the one looked for.
pub open spec fn exact_name(e: EntityNames, needle: Seq<char>) -> Option<int> {
    if named(e, 0, needle) {
        Some(0)
    } else if named(e, 1, needle) {
        Some(1)
    } else if named(e, 2, needle) {
        Some(2)
    } else {
        None
    }
}

/// Whether the text that is looked for starts with name number `i`; a name of less
/// than two characters does not count.
pub open spec fn leads(e: EntityNames, i: int, needle: Seq<char>) -> bool {
    e.names@[i] matches Some(n) && text::trimmed(n@).len() >= 2 && text::has_prefix(
        needle,
        text::trimmed(n@),
    )
}

/// The first name of an object with which the text that is looked for starts.
pub open spec fn leading_name(e: EntityNames, needle: Seq<char>) -> Option<int> {
    if leads(e, 0, needle) {
        Some(0)
    } else if leads(e, 1, needle) {
        Some(1)
    } else if leads(e, 2, needle) {
        Some(2)
    } else {
        None
    }
}

/// Object, target and name that a search gives.
pub type Hit = (u32, u32, Seq<char>);

/// The first of several objects, other than the player's own, with a name that is
/// the one looked for.
pub open spec fn first_exact(list: Seq<EntityNames>, local: u32, needle: Seq<char>) -> Option<Hit>
    decreases list.len(),
{
    if list.len() == 0 {
        None
    } else {
        match first_exact(list.drop_last(), local, needle) {
            Some(hit) => Some(hit),
            None => {
                let e = list.last();
                match exact_name(e, needle) {
                    Some(i) => if e.addr != local {
                        Some((e.addr, e.target_id, (e.names@[i]->0)@))
                    } else {
                        None
                    },
                    None => None,
                }
            },
        }
    }
}

/// The first of several objects, other than the player's own, with a name that the
/// text looked for starts with.
pub open spec fn first_leading(
    list: Seq<EntityNames>,
    local: u32,
    needle: Seq<char>,
) -> Option<Hit>
    decreases list.len(),
{
    if list.len() == 0 {
        None
    } else {
        match first_leading(list.drop_last(), local, needle) {
            Some(hit) => Some(hit),
            None => {
                let e = list.last();
                match leading_name(e, needle) {
                    Some(i) => if e.addr != local {
                        Some((e.addr, e.target_id, text::trimmed((e.names@[i]->0)@)))
                    } else {
                        None
                    },
                    None => None,
                }
            },
        }
    }
}

/// What is found: the player's own object, where the name is the player's; else an
/// object of exactly that name; else an object with whose name the text starts.
pub open spec fn found(
    local: Option<EntityNames>,
    list: Seq<EntityNames>,
    needle: Seq<char>,
) -> Option<Hit> {
    let local_addr = match local {
        Some(e) => e.addr,
        None => 0,
    };
    let own = match local {
        Some(e) => match exact_name(e, needle) {
            Some(i) => Some((e.addr, e.target_id, (e.names@[i]->0)@)),
            None => None,
        },
        None => None,
    };
    match own {
        Some(hit) => Some(hit),
        None => match first_exact(list, local_addr, needle) {
            Some(hit) => Some(hit),
            None => first_leading(list, local_addr, needle),
        },
    }
}

/// The player's own name always finds the player.
pub proof fn own_name_finds_oneself(local: EntityNames, list: Seq<EntityNames>, needle: Seq<char>)
    requires
        exact_name(local, needle) is Some,
    ensures
        found(Some(local), list, needle) is Some,
        (found(Some(local), list, needle)->0).0 == local.addr,
{
}

/// An object of exactly the name goes before any object with whose name the text
/// starts.
pub proof fn exact_goes_before_leading(
    list: Seq<EntityNames>,
    local: u32,
    needle: Seq<char>,
    i: int,
)
    requires
        0 <= i < list.len(),
        list[i].addr != local,
        exact_name(list[i], needle) is Some,
    ensures
        first_exact(list, local, needle) is Some,
    decreases list.len(),
{
    if i < list.len() - 1 {
        assert(list.drop_last()[i] == list[i]);
        exact_goes_before_leading(list.drop_last(), local, needle, i);
    }
}

fn find_exact(e: &EntityNames, needle: &[char]) -> (r: Option<usize>)
    ensures
        match r {
            Some(i) => i < 3 && exact_name(*e, needle@) == Some(i as int),
            None => exact_name(*e, needle@) is None,
        },
{
    let mut i: usize = 0;
    while i < 3
        invariant
            i <= 3,
            forall|k: int| 0 <= k < i ==> !named(*e, k, needle@),
        decreases 3 - i,
    {
        if let Some(n) = &e.names[i] {
            let t: String = trim(n.as_str());
            let tc: Vec<char> = to_chars(t.as_str());
            if same_chars(tc.as_slice(), needle) {
                assert(named(*e, i as int, needle@));
                return Some(i);
            }
        }
        assert(!named(*e, i as int, needle@));
        i += 1;
    }
    assert(!named(*e, 0, needle@) && !named(*e, 1, needle@) && !named(*e, 2, needle@));
    None
}

fn find_leading(e: &EntityNames, needle: &[char]) -> (r: Option<usize>)
    ensures
        match r {
            Some(i) => i < 3 && leading_name(*e, needle@) == Some(i as int),
            None => leading_name(*e, needle@) is None,
        },
{
    let mut i: usize = 0;
    while i < 3
        invariant
            i <= 3,
            forall|k: int| 0 <= k < i ==> !leads(*e, k, needle@),
        decreases 3 - i,
    {
        if let Some(n) = &e.names[i] {
            let t: String = trim(n.as_str());
            let tc: Vec<char> = to_chars(t.as_str());
            if tc.len() >= 2 && starts_with(needle, tc.as_slice()) {
                assert(leads(*e, i as int, needle@));
                return Some(i);
            }
        }
        assert(!leads(*e, i as int, needle@));
        i += 1;
    }
    assert(!leads(*e, 0, needle@) && !leads(*e, 1, needle@) && !leads(*e, 2, needle@));
    None
}

fn hit_of(e: &EntityNames, i: usize, trimmed: bool) -> (r: ScannedEntity)
    requires
        i < 3,
        e.names@[i as int] is Some,
    ensures
        r.addr == e.addr,
        r.target_id == e.target_id,
        r.name@ == if trimmed {
            text::trimmed((e.names@[i as int]->0)@)
        } else {
            (e.names@[i as int]->0)@
        },
{
    let name: String = match &e.names[i] {
        Some(n) => if trimmed {
            trim(n.as_str())
        } else {
            text_of(n.as_str())
        },
        None => String::new(),
    };
    ScannedEntity { addr: e.addr, target_id: e.target_id, name }
}

/// What an object that was found comes to.
pub open spec fn hit_view(r: Option<ScannedEntity>) -> Option<Hit> {
    match r {
        Some(e) => Some((e.addr, e.target_id, e.name@)),
        None => None,
    }
}

/// No name was given.
#[derive(Debug, Clone, Copy, PartialEq, Eq, Structural)]
pub struct EmptyName;

/// Looks for an object by name: `local` is the player's own object, if there is
/// one, and `candidates` are all objects of the players' class.
pub fn find_entity_by_name(
    query: &str,
    local: Option<&EntityNames>,
    candidates: &Vec<EntityNames>,
) -> (r: Result<Option<ScannedEntity>, EmptyName>)
    ensures
        match r {
            Err(_) => text::trimmed(query@).len() == 0,
            Ok(hit) => text::trimmed(query@).len() > 0 && hit_view(hit) == found(
                match local {
                    Some(e) => Some(*e),
                    None => None,
                },
                candidates@,
                text::trimmed(query@),
            ),
        },
{
    let all: Vec<char> = to_chars(query);
    let (lo, hi) = trim_bounds(all.as_slice());
    let needle: &[char] = vstd::slice::slice_subrange(all.as_slice(), lo, hi);
    if needle.len() == 0 {
        return Err(EmptyName);
    }
    let local_addr: u32 = match local {
        Some(e) => e.addr,
        None => 0,
    };
    if let Some(e) = local {
        if let Some(i) = find_exact(e, needle) {
            return Ok(Some(hit_of(e, i, false)));
        }
    }
    let ghost own = match local {
        Some(e) => Some(*e),
        None => None,
    };
    let mut k: usize = 0;
    assert(candidates@.take(0).len() == 0);
    while k < candidates.len()
        invariant
            k <= candidates@.len(),
            needle@ == text::trimmed(query@),
            needle@.len() > 0,
            own == match local {
                Some(e) => Some(*e),
                None => None,
            },
            local_addr == match own {
                Some(e) => e.addr,
                None => 0,
            },
            own matches Some(e) ==> exact_name(e, needle@) is None,
            first_exact(candidates@.take(k as int), local_addr, needle@) is None,
        decreases candidates@.len() - k,
    {
        assert(candidates@.take(k + 1).drop_last() =~= candidates@.take(k as int));
        assert(candidates@.take(k + 1).last() == candidates@[k as int]);
        let e: &EntityNames = &candidates[k];
        if e.addr != local_addr {
            if let Some(i) = find_exact(e, needle) {
                let hit: ScannedEntity = hit_of(e, i, false);
                proof {
                    first_exact_is_stable(candidates@, local_addr, needle@, k + 1);
                }
                return Ok(Some(hit));
            }
        }
        k += 1;
    }
    assert(candidates@.take(candidates@.len() as int) =~= candidates@);
    let mut m: usize = 0;
    while m < candidates.len()
        invariant
            m <= candidates@.len(),
            needle@ == text::trimmed(query@),
            needle@.len() > 0,
            own == match local {
                Some(e) => Some(*e),
                None => None,
            },
            local_addr == match own {
                Some(e) => e.addr,
                None => 0,
            },
            own matches Some(e) ==> exact_name(e, needle@) is None,
            first_exact(candidates@, local_addr, needle@) is None,
            first_leading(candidates@.take(m as int), local_addr, needle@) is None,
        decreases candidates@.len() - m,
    {
        assert(candidates@.take(m + 1).drop_last() =~= candidates@.take(m as int));
        assert(candidates@.take(m + 1).last() == candidates@[m as int]);
        let e: &EntityNames = &candidates[m];
        if e.addr != local_addr {
            if let Some(i) = find_leading(e, needle) {
                let hit: ScannedEntity = hit_of(e, i, true);
                proof {
                    first_leading_is_stable(candidates@, local_addr, needle@, m + 1);
                }
                return Ok(Some(hit));
            }
        }
        m += 1;
    }
    assert(candidates@.take(candidates@.len() as int) =~= candidates@);
    Ok(None)
}

proof fn first_exact_is_stable(list: Seq<EntityNames>, local: u32, needle: Seq<char>, n: int)
    requires
        0 <= n <= list.len(),
        first_exact(list.take(n), local, needle) is Some,
    ensures
        first_exact(list, local, needle) == first_exact(list.take(n), local, needle),
    decreases list.len(),
{
    if n < list.len() {
        assert(list.drop_last().take(n) =~= list.take(n));
        first_exact_is_stable(list.drop_last(), local, needle, n);
    } else {
        assert(list.take(n) =~= list);
    }
}

proof fn first_leading_is_stable(list: Seq<EntityNames>, local: u32, needle: Seq<char>, n: int)
    requires
        0 <= n <= list.len(),
        first_leading(list.take(n), local, needle) is Some,
    ensures
        first_leading(list, local, needle) == first_leading(list.take(n), local, needle),
    decreases list.len(),
{
    if n < list.len() {
        assert(list.drop_last().take(n) =~= list.take(n));
        first_leading_is_stable(list.drop_last(), local, needle, n);
    } else {
        assert(list.take(n) =~= list);
    }
}

/// The addresses of the first `n` words of a region at which an object starts.
pub open spec fn object_starts(base: u32, buf: Seq<u8>, n: int) -> Seq<u32>
    decreases n,
{
    if n <= 0 {
        Seq::empty()
    } else {
        let at = (n - 1) * 4;
        let before = object_starts(base, buf, n - 1);
        let addr = ((base + at) % 0x1_0000_0000) as u32;
        if code::from_le32(buf.subrange(at, at + 4)) == PLAYER_VFPTR && addr % 4 == 0 {
            before.push(addr)
        } else {
            before
        }
    }
}

/// The objects that start in a region.
pub fn scan_region(region_base: u32, buf: &[u8]) -> (r: Vec<u32>)
    requires
        buf@.len() <= MAX_REGION_READ,
    ensures
        r@ == object_starts(region_base, buf@, buf@.len() as int / 4),
{
    let mut hits: Vec<u32> = Vec::new();
    let mut i: usize = 0;
    let len: usize = buf.len();
    while i + 4 <= len
        invariant
            len == buf@.len(),
            len <= MAX_REGION_READ,
            i % 4 == 0,
            i <= len,
            hits@ == object_starts(region_base, buf@, i as int / 4),
        decreases len - i,
    {
        let ghost n = i as int / 4;
        assert(i + 4 == (n + 1) * 4);
        if read_u32_le(buf, i) == PLAYER_VFPTR {
            let entity_addr: u32 = region_base.wrapping_add(i as u32);
            if entity_addr % 4 == 0 {
                hits.push(entity_addr);
            }
        }
        i += 4;
    }
    assert(i as int / 4 == len as int / 4);
    hits
}

/// Where the search goes on.
pub open spec fn scan_goes_on(addr: u32, region: Option<(u32, u32)>) -> int {
    match region {
        Some((base, size)) => {
            let next = (base + size) % 0x1_0000_0000;
            if next > addr {
                next
            } else {
                addr + PAGE
            }
        },
        None => addr + PAGE,
    }
}

/// Where the search goes on after a region, or after a page where nothing could be
/// told.
pub fn next_scan_addr(addr: u32, region: Option<(u32, u32)>) -> (r: u32)
    requires
        addr < HEAP_SCAN_END,
    ensures
        r > addr,
        r == scan_goes_on(addr, region),
{
    match region {
        Some((base, size)) => {
            let next: u32 = base.wrapping_add(size);
            if next > addr {
                next
            } else {
                addr + PAGE
            }
        },
        None => addr + PAGE,
    }
}

/// Bytes that are to be read of a region.
pub open spec fn read_size(committed: bool, readable: bool, size: usize) -> Option<usize> {
    if committed && readable && size > 0 {
        Some(
            if size < MAX_REGION_READ {
                size
            } else {
                MAX_REGION_READ
            },
        )
    } else {
        None
    }
}

/// Bytes that are to be read of a region.
pub fn region_read_size(committed: bool, readable: bool, size: usize) -> (r: Option<usize>)
    ensures
        r == read_size(committed, readable, size),
{
    if committed && readable && size > 0 {
        Some(
            if size < MAX_REGION_READ {
                size
            } else {
                MAX_REGION_READ
            },
        )
    } else {
        None
    }
}

/// Whether every byte is a printable ASCII character.
pub open spec fn printable(s: Seq<u8>) -> bool {
    forall|i: int| 0 <= i < s.len() ==> 0x20 <= #[trigger] s[i] < 0x7F
}

/// The text of ASCII bytes.
pub open spec fn ascii_text(s: Seq<u8>) -> Seq<char> {
    Seq::new(s.len(), |i: int| s[i] as char)
}

/// Whether nothing in a text could be decoded.
pub open spec fn all_replaced(s: Seq<char>) -> bool {
    forall|i: int| 0 <= i < s.len() ==> #[trigger] s[i] == '\u{FFFD}'
}

/// The name in bytes.
pub open spec fn name_in(bytes: Seq<u8>, decoded: Seq<char>) -> Option<Seq<char>> {
    let name = code::until_zero(bytes);
    if name.len() == 0 {
        None
    } else if printable(name) {
        Some(ascii_text(name))
    } else if all_replaced(decoded) {
        None
    } else {
        Some(decoded)
    }
}

/// The name in the bytes that were read; `decoded` is what their part before the
/// first zero decodes to, for names that are not plain ASCII.
pub fn decode_name_at(raw: Option<&[u8]>, decoded: &str) -> (r: Option<String>)
    ensures
        (match r {
            Some(s) => Some(s@),
            None => None,
        }) == match raw {
            None => None,
            Some(bytes) => name_in(bytes@, decoded@),
        },
{
    match raw {
        None => None,
        Some(bytes) => {
            let n: usize = zero_at(bytes);
            if n == 0 {
                return None;
            }
            let ghost name = code::until_zero(bytes@);
            let mut plain: Vec<char> = Vec::new();
            let mut i: usize = 0;
            while i < n
                invariant
                    i <= n <= bytes@.len(),
                    name == bytes@.take(n as int),
                    plain@ == ascii_text(bytes@.take(i as int)),
                    printable(bytes@.take(i as int)),
                    n > 0,
                    raw == Some(bytes),
                    name == code::until_zero(bytes@),
                decreases n - i,
            {
                let b: u8 = bytes[i];
                assert(name[i as int] == b);
                if b < 0x20 || b >= 0x7F {
                    assert(!printable(name));
                    let chars: Vec<char> = to_chars(decoded);
                    if only_replaced(chars.as_slice()) {
                        return None;
                    }
                    return Some(text_of(decoded));
                }
                plain.push(b as char);
                assert(plain@ =~= ascii_text(bytes@.take(i + 1)));
                assert forall|k: int| 0 <= k < i + 1 implies 0x20 <= #[trigger] bytes@.take(
                    i + 1,
                )[k] < 0x7F by {
                    if k < i {
                        assert(bytes@.take(i + 1)[k] == bytes@.take(i as int)[k]);
                    }
                }
                i += 1;
            }
            Some(from_chars(plain.as_slice()))
        },
    }
}

fn only_replaced(v: &[char]) -> (r: bool)
    ensures
        r == all_replaced(v@),
{
    let mut i: usize = 0;
    while i < v.len()
        invariant
            i <= v@.len(),
            forall|k: int| 0 <= k < i ==> #[trigger] v@[k] == '\u{FFFD}',
        decreases v@.len() - i,
    {
        if v[i] != '\u{FFFD}' {
            return false;
        }
        i += 1;
    }
    true
}

} // verus!
