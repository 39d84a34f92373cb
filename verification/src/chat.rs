//! Lines in the chat window.

use vstd::prelude::*;

use crate::code;
use crate::code::push_bytes;
use crate::code::push_u32;
use crate::code::start;
use crate::hook;
use crate::hook::Patch;

verus! {

broadcast use crate::code::group_code_len;

pub const CHAT_BUFFER_BASE: u32 = 0x0099_6D00;

pub const CHAT_INDEX_ADDR: u32 = 0x0098_0EA0;

pub const CHAT_ENTRY_SIZE: u32 = 0x126;

pub const CHAT_RING_SIZE: u32 = 150;

pub const CHAT_DISPATCH_FN: u32 = 0x0043_7500;

/// Longest text that a chat line holds; one byte is left for the zero at its end.
pub const CHAT_TEXT_MAX: usize = 95;

// Colors as RGB565.

pub const BLUE: u16 = 0x72DA;

pub const YELLOW: u16 = 0xFEC9;

pub const GREEN_PALETTE: u16 = 0x87CA;

pub const PURPLE: u16 = 0xF314;

pub const WHITE: u16 = 0xFF96;

pub const RED: u16 = 0xF800;

pub const GREEN: u16 = 0x07E0;

/// One entry of the chat ring: the text (cut to [`CHAT_TEXT_MAX`] bytes, filled up
/// with zeros to 0x60 bytes), the color, a source of 0xFFFF, then zeros.
pub open spec fn chat_entry(text: Seq<u8>, color: u16) -> Seq<u8> {
    Seq::new(
        0x126,
        |i: int|
            if i < 95 && i < text.len() {
                text[i]
            } else if i == 0x60 {
                (color % 256) as u8
            } else if i == 0x61 {
                (color / 256) as u8
            } else if i == 0x62 || i == 0x63 {
                0xFFu8
            } else {
                0u8
            },
    )
}

/// The address of a slot of the chat ring.
pub open spec fn chat_slot(index: u32) -> int {
    CHAT_BUFFER_BASE + index * CHAT_ENTRY_SIZE
}

/// The slot after a slot of the ring is in the ring, and differs from it.
pub proof fn ring_goes_around(index: u32)
    requires
        index < CHAT_RING_SIZE,
    ensures
        (index + 1) % (CHAT_RING_SIZE as int) < CHAT_RING_SIZE,
        (index + 1) % (CHAT_RING_SIZE as int) != index,
        chat_slot(index) + CHAT_ENTRY_SIZE <= CHAT_BUFFER_BASE + CHAT_RING_SIZE * CHAT_ENTRY_SIZE,
{
}

/// The two writes that put a line into the ring.
pub open spec fn line_writes(index: u32, text: Seq<u8>, color: u16) -> Seq<(u32, Seq<u8>)> {
    seq![
        (chat_slot(index) as u32, chat_entry(text, color)),
        (CHAT_INDEX_ADDR, code::le32(((index + 1) % (CHAT_RING_SIZE as int)) as u32)),
    ]
}

/// The two writes that put a line into the ring where `index` is the next free
/// slot: the entry, then the new index.  `None` where `index` is not a slot.
pub fn push_chat_line(index: u32, text_bytes: &[u8], color: u16) -> (r: Option<Vec<Patch>>)
    ensures
        r is Some <==> index < CHAT_RING_SIZE,
        r matches Some(w) ==> hook::patch_views(w@) == line_writes(index, text_bytes@, color),
{
    if index >= CHAT_RING_SIZE {
        return None;
    }
    let slot_addr: u32 = CHAT_BUFFER_BASE + index * CHAT_ENTRY_SIZE;
    let mut entry: Vec<u8> = Vec::new();
    while entry.len() < 0x126
        invariant
            entry@.len() <= 0x126,
            forall|k: int|
                0 <= k < entry@.len() ==> entry@[k] == chat_entry(text_bytes@, color)[k],
        decreases 0x126 - entry@.len(),
    {
        let i: usize = entry.len();
        let byte: u8 = if i < CHAT_TEXT_MAX && i < text_bytes.len() {
            text_bytes[i]
        } else if i == 0x60 {
            (color % 256) as u8
        } else if i == 0x61 {
            (color / 256) as u8
        } else if i == 0x62 || i == 0x63 {
            0xFF
        } else {
            0
        };
        entry.push(byte);
    }
    assert(entry@ =~= chat_entry(text_bytes@, color));
    let new_index: u32 = (index + 1) % CHAT_RING_SIZE;
    let index_bytes: Vec<u8> = code::u32_bytes(new_index);
    let writes: Vec<Patch> = vec![
        Patch { addr: slot_addr, bytes: entry },
        Patch { addr: CHAT_INDEX_ADDR, bytes: index_bytes },
    ];
    assert(hook::patch_views(writes@) =~= line_writes(index, text_bytes@, color));
    Some(writes)
}

/// Calls the function that shows a chat line and scrolls to it.
pub open spec fn chat_dispatch_code(text_addr: u32, src_id: u16, color: u16) -> Seq<u8> {
    let c = [
        0x68u8, 0x00, 0x00, 0x00, 0x00, // push 0
        0x6A, 0xFF, // push -1: the channel
        0x68, // push color
    ]@;
    let c = code::put32(c, color as u32);
    let c = code::put(c, [0x68u8]@);  // push src_id
    let c = code::put32(c, src_id as u32);
    let c = code::put(c, [0x68u8]@);  // push text_addr
    let c = code::put32(c, text_addr);
    let c = code::put(c, [0xB8u8]@);  // mov eax, ChatDispatch
    let c = code::put32(c, CHAT_DISPATCH_FN);
    let c = code::put(c, [
        0xFFu8, 0xD0, // call eax
        0x83, 0xC4, 0x14, // add esp, 0x14
        0x33, 0xC0, // xor eax, eax
        0xC2, 0x04, 0x00, // ret 4
    ]@);
    c
}

/// Code that shows the text at `text_addr` as a chat line.
pub fn build_chat_dispatch_shellcode(text_addr: u32, src_id: u16, color: u16) -> (sc: Vec<u8>)
    ensures
        sc@ == chat_dispatch_code(text_addr, src_id, color),
        sc@.len() == 37,
{
    let mut sc: Vec<u8> = start(&[
        0x68, 0x00, 0x00, 0x00, 0x00, // push 0
        0x6A, 0xFF, // push -1: the channel
        0x68, // push color
    ]);
    push_u32(&mut sc, color as u32);
    push_bytes(&mut sc, &[0x68]);  // push src_id
    push_u32(&mut sc, src_id as u32);
    push_bytes(&mut sc, &[0x68]);  // push text_addr
    push_u32(&mut sc, text_addr);
    push_bytes(&mut sc, &[0xB8]);  // mov eax, ChatDispatch
    push_u32(&mut sc, CHAT_DISPATCH_FN);
    push_bytes(&mut sc, &[
        0xFF, 0xD0, // call eax
        0x83, 0xC4, 0x14, // add esp, 0x14
        0x33, 0xC0, // xor eax, eax
        0xC2, 0x04, 0x00, // ret 4
    ]);
    sc
}

/// The writes that bring a chat line and the code that shows it into the memory at
/// `base`, and the address of that code.
#[derive(Debug)]
pub struct DispatchPlan {
    pub writes: Vec<Patch>,
    pub entry: u32,
}

/// Room that a chat line needs in the client: the text, its zero, and the code.
pub fn dispatch_room(text_bytes: &[u8]) -> (r: usize)
    requires
        text_bytes@.len() + 65 <= usize::MAX,
    ensures
        r == text_bytes@.len() + 65,
{
    text_bytes.len() + 1 + 64
}

/// The text goes to `base`, with a zero behind it, the code that shows it behind
/// that.
pub fn push_chat_via_dispatch(base: u32, text_bytes: &[u8], src_id: u16, color: u16) -> (plan:
    DispatchPlan)
    requires
        base + text_bytes@.len() + 65 <= u32::MAX,
    ensures
        plan.entry == base + text_bytes@.len() + 1,
        hook::patch_views(plan.writes@) == seq![
            (base, code::put(text_bytes@, [0u8]@)),
            (plan.entry, chat_dispatch_code(base, src_id, color)),
        ],
{
    let mut text: Vec<u8> = start(text_bytes);
    push_bytes(&mut text, &[0]);
    let entry: u32 = base + text.len() as u32;
    let sc: Vec<u8> = build_chat_dispatch_shellcode(base, src_id, color);
    let ghost text_view = text@;
    let ghost sc_view = sc@;
    let writes: Vec<Patch> = vec![
        Patch { addr: base, bytes: text },
        Patch { addr: entry, bytes: sc },
    ];
    assert(hook::patch_views(writes@) =~= seq![(base, text_view), (entry, sc_view)]);
    DispatchPlan { writes, entry }
}

/// The line that tells that the assistant is running: a color code, the name, and
/// three Chinese characters in Big5.
pub const STARTED_LINE: [u8; 20] = [
    0x5C, 0x46, 0x32, 0x4C, 0x69, 0x6E, 0x48, 0x65, 0x6C, 0x70, 0x65, 0x72, 0x5A, 0x2D, 0xB0, 0xF5,
    0xA6, 0xE6, 0xA4, 0xA4,
];

/// Shows [`STARTED_LINE`] in green.
pub fn push_lhx_started(base: u32) -> (plan: DispatchPlan)
    requires
        base + 85 <= u32::MAX,
    ensures
        plan.entry == base + 21,
        hook::patch_views(plan.writes@) == seq![
            (base, code::put(STARTED_LINE@, [0u8]@)),
            (plan.entry, chat_dispatch_code(base, 0xFFFF, GREEN)),
        ],
{
    push_chat_via_dispatch(base, &STARTED_LINE, 0xFFFF, GREEN)
}

} // verus!
