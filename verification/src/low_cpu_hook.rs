//! Letting the client sleep while nobody plays.
//!
//! The client polls `PeekMessageA` without pause.  The start of that function is
//! redirected to a detour that sleeps 50 ms where there was no message, the game
//! does not have the focus and no key is held down.

use vstd::prelude::*;

use crate::code;
use crate::code::distance;
use crate::code::emit_call32;
use crate::code::emit_jump8;
use crate::code::push_bytes;
use crate::code::push_u32;
use crate::code::start;
use crate::hook;
use crate::hook::build_hook_patch;
use crate::hook::bytes_of;
use crate::hook::Patch;

verus! {

broadcast use crate::code::group_code_len;

pub const SLEEP_MS_WHEN_UNFOCUSED: u8 = 50;

pub const CODECAVE_SIZE: u32 = 0x7A;

pub const TRAMPOLINE_OFFSET: u32 = 0x60;

pub const DATA_GET_FG: u32 = 0x6A;

pub const DATA_SLEEP: u32 = 0x6E;

pub const DATA_GAME_HWND: u32 = 0x72;

pub const DATA_GET_ASYNC_KEY_STATE: u32 = 0x76;

pub const PEEK_PROLOGUE_LEN: usize = 5;

pub const SCAN_LOOP: u32 = 47;

pub const ANY_KEY_DOWN: u32 = 80;

pub const SKIP_SLEEP: u32 = 81;

pub const RET: u32 = 83;

/// The detour: calls the real function, and sleeps where it found no message, the
/// game is not in the foreground and no key is held.
pub open spec fn detour_code(cave: u32) -> Seq<u8> {
    let c = [
        0xFFu8, 0x74, 0x24, 0x14, // push [esp+0x14]
        0xFF, 0x74, 0x24, 0x14, // push [esp+0x14]
        0xFF, 0x74, 0x24, 0x14, // push [esp+0x14]
        0xFF, 0x74, 0x24, 0x14, // push [esp+0x14]
        0xFF, 0x74, 0x24, 0x14, // push [esp+0x14]
    ]@;
    let c = code::call(c, TRAMPOLINE_OFFSET as int);  // the real PeekMessageA
    let c = code::put(c, [0x85u8, 0xC0]@);  // test eax, eax
    let c = code::jump8(c, 0x75, RET as int);  // a message is there
    let c = code::put(c, [0xFFu8, 0x15]@);  // call [GetForegroundWindow]
    let c = code::put32(c, (cave + DATA_GET_FG) as u32);
    let c = code::put(c, [0x3Bu8, 0x05]@);  // cmp eax, [game_hwnd]
    let c = code::put32(c, (cave + DATA_GAME_HWND) as u32);
    let c = code::jump8(c, 0x74, SKIP_SLEEP as int);  // the game has the focus
    let c = code::put(c, [
        0x53u8, // push ebx
        0x31, 0xDB, // xor ebx, ebx
        0x43, // inc ebx: the first key
    ]@);
    // scan_loop:
    let c = code::put(c, [
        0x53u8, // push ebx
        0xFF, 0x15, // call [GetAsyncKeyState]
    ]@);
    let c = code::put32(c, (cave + DATA_GET_ASYNC_KEY_STATE) as u32);
    let c = code::put(c, [0x66u8, 0xA9, 0x00, 0x80]@);  // test ax, 0x8000
    let c = code::jump8(c, 0x75, ANY_KEY_DOWN as int);
    let c = code::put(c, [
        0x43u8, // inc ebx
        0x81, 0xFB, 0xFF, 0x00, 0x00, 0x00, // cmp ebx, 0xFF
    ]@);
    let c = code::jump8(c, 0x7C, SCAN_LOOP as int);
    let c = code::put(c, [
        0x5Bu8, // pop ebx
        0x6A, SLEEP_MS_WHEN_UNFOCUSED, // push 50
        0xFF, 0x15, // call [Sleep]
    ]@);
    let c = code::put32(c, (cave + DATA_SLEEP) as u32);
    let c = code::jump8(c, 0xEB, SKIP_SLEEP as int);
    // any_key_down:
    let c = code::put(c, [0x5Bu8]@);  // pop ebx
    // skip_sleep:
    let c = code::put(c, [0x33u8, 0xC0]@);  // xor eax, eax
    // ret:
    let c = code::put(c, [
        0xC2u8, 0x14, 0x00, // ret 0x14
        0x90, 0x90, 0x90, 0x90, 0x90, 0x90, 0x90, 0x90, 0x90, 0x90, // up to the trampoline
    ]@);
    c
}

/// Emits [`detour_code`].
fn emit_detour(cave: u32) -> (sc: Vec<u8>)
    requires
        cave + CODECAVE_SIZE <= u32::MAX,
    ensures
        sc@ == detour_code(cave),
        sc@.len() == 96,
{
    let mut sc: Vec<u8> = start(&[
        0xFF, 0x74, 0x24, 0x14, // push [esp+0x14]
        0xFF, 0x74, 0x24, 0x14, // push [esp+0x14]
        0xFF, 0x74, 0x24, 0x14, // push [esp+0x14]
        0xFF, 0x74, 0x24, 0x14, // push [esp+0x14]
        0xFF, 0x74, 0x24, 0x14, // push [esp+0x14]
    ]);
    emit_call32(&mut sc, TRAMPOLINE_OFFSET);  // the real PeekMessageA
    push_bytes(&mut sc, &[0x85, 0xC0]);  // test eax, eax
    emit_jump8(&mut sc, 0x75, RET);  // a message is there
    push_bytes(&mut sc, &[0xFF, 0x15]);  // call [GetForegroundWindow]
    push_u32(&mut sc, cave + DATA_GET_FG);
    push_bytes(&mut sc, &[0x3B, 0x05]);  // cmp eax, [game_hwnd]
    push_u32(&mut sc, cave + DATA_GAME_HWND);
    emit_jump8(&mut sc, 0x74, SKIP_SLEEP);  // the game has the focus
    push_bytes(&mut sc, &[
        0x53, // push ebx
        0x31, 0xDB, // xor ebx, ebx
        0x43, // inc ebx: the first key
    ]);
    assert(sc@.len() == SCAN_LOOP);
    push_bytes(&mut sc, &[
        0x53, // push ebx
        0xFF, 0x15, // call [GetAsyncKeyState]
    ]);
    push_u32(&mut sc, cave + DATA_GET_ASYNC_KEY_STATE);
    push_bytes(&mut sc, &[0x66, 0xA9, 0x00, 0x80]);  // test ax, 0x8000
    emit_jump8(&mut sc, 0x75, ANY_KEY_DOWN);
    push_bytes(&mut sc, &[
        0x43, // inc ebx
        0x81, 0xFB, 0xFF, 0x00, 0x00, 0x00, // cmp ebx, 0xFF
    ]);
    emit_jump8(&mut sc, 0x7C, SCAN_LOOP);
    push_bytes(&mut sc, &[
        0x5B, // pop ebx
        0x6A, SLEEP_MS_WHEN_UNFOCUSED, // push 50
        0xFF, 0x15, // call [Sleep]
    ]);
    push_u32(&mut sc, cave + DATA_SLEEP);
    emit_jump8(&mut sc, 0xEB, SKIP_SLEEP);
    assert(sc@.len() == ANY_KEY_DOWN);
    push_bytes(&mut sc, &[0x5B]);  // pop ebx
    assert(sc@.len() == SKIP_SLEEP);
    push_bytes(&mut sc, &[0x33, 0xC0]);  // xor eax, eax
    assert(sc@.len() == RET);
    push_bytes(&mut sc, &[
        0xC2, 0x14, 0x00, // ret 0x14
        0x90, 0x90, 0x90, 0x90, 0x90, 0x90, 0x90, 0x90, 0x90, 0x90, // up to the trampoline
    ]);
    sc
}

/// The bytes that the patch replaces, a jump behind them, and the addresses and
/// the window that the detour needs.
pub open spec fn trampoline_code(
    cave: u32,
    peek: u32,
    get_fg: u32,
    sleep: u32,
    get_async_key_state: u32,
    game_hwnd: u32,
    prologue: Seq<u8>,
) -> Seq<u8> {
    let c = code::put(prologue, [0xE9u8]@);
    let c = code::put32(c, code::rel32(cave + DATA_GET_FG, peek + 5));
    let c = code::put32(c, get_fg);
    let c = code::put32(c, sleep);
    let c = code::put32(c, game_hwnd);
    code::put32(c, get_async_key_state)
}

/// Everything that the cave holds.
pub open spec fn cave_code(
    cave: u32,
    peek: u32,
    get_fg: u32,
    sleep: u32,
    get_async_key_state: u32,
    game_hwnd: u32,
    prologue: Seq<u8>,
) -> Seq<u8> {
    code::put(
        detour_code(cave),
        trampoline_code(cave, peek, get_fg, sleep, get_async_key_state, game_hwnd, prologue),
    )
}

/// Builds the contents of a cave at `cave`.
pub fn build_shellcode(
    cave: u32,
    peek: u32,
    get_fg: u32,
    sleep: u32,
    get_async_key_state: u32,
    game_hwnd: u32,
    prologue: &[u8; 5],
) -> (sc: Vec<u8>)
    requires
        cave + CODECAVE_SIZE <= u32::MAX,
        peek + 5 <= u32::MAX,
    ensures
        sc@ == cave_code(
            cave,
            peek,
            get_fg,
            sleep,
            get_async_key_state,
            game_hwnd,
            prologue@,
        ),
        sc@.len() == CODECAVE_SIZE,
{
    let mut sc: Vec<u8> = emit_detour(cave);
    let mut tail: Vec<u8> = start(prologue);
    push_bytes(&mut tail, &[0xE9]);
    push_u32(&mut tail, distance(cave + DATA_GET_FG, peek + 5));
    push_u32(&mut tail, get_fg);
    push_u32(&mut tail, sleep);
    push_u32(&mut tail, game_hwnd);
    push_u32(&mut tail, get_async_key_state);
    push_bytes(&mut sc, tail.as_slice());
    sc
}

/// What has to be remembered of an installed hook.
#[derive(Debug)]
pub struct HookState {
    pub codecave_addr: u32,
    pub peek_addr: u32,
    pub original_prologue: [u8; 5],
}

/// The writes that put the hook in, in order, and the state to keep.
#[derive(Debug)]
pub struct InstallPlan {
    pub writes: Vec<Patch>,
    pub state: HookState,
}

/// Whether the hook is in.
pub fn is_installed(state: &Option<HookState>) -> (r: bool)
    ensures
        r == (*state is Some),
{
    state.is_some()
}

/// Whether the start of the function is long enough and not a jump that somebody
/// else put there, so that it can be moved to the trampoline.
pub open spec fn usable(prologue: Seq<u8>) -> bool {
    prologue.len() == 5 && prologue[0] != 0xE9 && prologue[0] != 0xEB
}

/// The function starts with a jump that somebody else put there.
#[derive(Debug, Clone, Copy, PartialEq, Eq, Structural)]
pub struct AlreadyHooked;

/// Whether the start of the function is long enough and not a jump that somebody
/// else put there.
pub fn prologue_is_usable(prologue: &[u8]) -> (r: bool)
    ensures
        r == usable(prologue@),
{
    prologue.len() == PEEK_PROLOGUE_LEN && prologue[0] != 0xE9 && prologue[0] != 0xEB
}

/// The writes that put a hook of this state in, in order.
pub open spec fn install_writes(
    state: HookState,
    get_fg: u32,
    sleep: u32,
    get_async_key_state: u32,
    game_hwnd: u32,
) -> Seq<(u32, Seq<u8>)> {
    seq![
        (
            state.codecave_addr,
            cave_code(
                state.codecave_addr,
                state.peek_addr,
                get_fg,
                sleep,
                get_async_key_state,
                game_hwnd,
                state.original_prologue@,
            ),
        ),
        (state.peek_addr, hook::hook_patch(state.peek_addr, state.codecave_addr, 5)),
    ]
}

/// The writes that put the hook in: the cave first, then the start of the
/// function.  There are none where the hook is in; a function that somebody else has
/// hooked is left alone.
pub fn install(
    state: &Option<HookState>,
    cave: u32,
    peek: u32,
    get_fg: u32,
    sleep: u32,
    get_async_key_state: u32,
    game_hwnd: u32,
    prologue: &[u8; 5],
) -> (r: Result<Option<InstallPlan>, AlreadyHooked>)
    requires
        *state is None ==> cave + CODECAVE_SIZE <= u32::MAX && peek + 5 <= u32::MAX,
    ensures
        r is Err <==> *state is None && !usable(prologue@),
        r matches Ok(None) <==> *state is Some,
        r matches Ok(Some(plan)) ==> {
            &&& hook::patch_views(plan.writes@) == install_writes(
                plan.state,
                get_fg,
                sleep,
                get_async_key_state,
                game_hwnd,
            )
            &&& plan.state == (HookState {
                codecave_addr: cave,
                peek_addr: peek,
                original_prologue: *prologue,
            })
        },
{
    if is_installed(state) {
        return Ok(None);
    }
    if !prologue_is_usable(prologue.as_slice()) {
        return Err(AlreadyHooked);
    }
    let sc: Vec<u8> = build_shellcode(
        cave,
        peek,
        get_fg,
        sleep,
        get_async_key_state,
        game_hwnd,
        prologue,
    );
    let jump: Vec<u8> = build_hook_patch::<5>(peek, cave);
    let ghost code_view = sc@;
    let writes: Vec<Patch> = vec![
        Patch { addr: cave, bytes: sc },
        Patch { addr: peek, bytes: jump },
    ];
    assert(hook::patch_views(writes@) =~= seq![
        (cave, code_view),
        (peek, hook::hook_patch(peek, cave, 5)),
    ]);
    Ok(
        Some(
            InstallPlan {
                writes,
                state: HookState {
                    codecave_addr: cave,
                    peek_addr: peek,
                    original_prologue: *prologue,
                },
            },
        ),
    )
}

/// Taking the hook out gives the function the start back that it had before the hook
/// went in.
pub proof fn removal_undoes_the_hook(
    state: HookState,
    get_fg: u32,
    sleep: u32,
    get_async_key_state: u32,
    game_hwnd: u32,
    mem: Map<u32, Seq<u8>>,
)
    requires
        mem[state.peek_addr] == state.original_prologue@,
    ensures
        hook::after_writes(
            hook::after_writes(
                mem,
                install_writes(state, get_fg, sleep, get_async_key_state, game_hwnd),
            ),
            seq![(state.peek_addr, state.original_prologue@)],
        )[state.peek_addr] == mem[state.peek_addr],
{
    reveal_with_fuel(hook::after_writes, 3);
}

/// The write that takes the hook out, if it is in; the hook counts as out from now on.
pub fn uninstall(state: &mut Option<HookState>) -> (r: Option<Patch>)
    ensures
        *final(state) == hook::after_uninstall(*old(state)),
        match *old(state) {
            Some(s) => r matches Some(p) && p@ == (s.peek_addr, s.original_prologue@),
            None => r is None,
        },
{
    match state.take() {
        Some(s) => Some(Patch { addr: s.peek_addr, bytes: bytes_of(&s.original_prologue) }),
        None => None,
    }
}

} // verus!
