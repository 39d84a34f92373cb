//! Redirecting a stretch of code into a code cave, and putting it back.

use vstd::prelude::*;

use crate::code::distance;
use crate::code::push_bytes;
use crate::code::push_u32;
use crate::code::same_bytes;
use crate::code::start;

verus! {

/// What stands at a hook site.
#[derive(Debug, Clone, Copy, PartialEq, Eq, Structural)]
pub enum HookBytes {
    Original,
    Patched,
    Unexpected,
}

/// Bytes that belong at an address: the original bytes of a hook site, or bytes
/// to write.
#[derive(Debug, Clone)]
pub struct Patch {
    pub addr: u32,
    pub bytes: Vec<u8>,
}

impl View for Patch {
    type V = (u32, Seq<u8>);

    open spec fn view(&self) -> (u32, Seq<u8>) {
        (self.addr, self.bytes@)
    }
}

/// The address and the bytes of each entry.
pub open spec fn patch_views(patches: Seq<Patch>) -> Seq<(u32, Seq<u8>)> {
    Seq::new(patches.len(), |i: int| patches[i]@)
}

/// A hook site that is to get its original bytes back if it still holds `patch`.
#[derive(Debug, Clone)]
pub struct Restore {
    pub addr: u32,
    pub original: Vec<u8>,
    pub patch: Vec<u8>,
}

impl View for Restore {
    type V = (u32, Seq<u8>, Seq<u8>);

    open spec fn view(&self) -> (u32, Seq<u8>, Seq<u8>) {
        (self.addr, self.original@, self.patch@)
    }
}

/// Address, original and patch of each entry.
pub open spec fn restore_views(restores: Seq<Restore>) -> Seq<(u32, Seq<u8>, Seq<u8>)> {
    Seq::new(restores.len(), |i: int| restores[i]@)
}

/// What is to be done with a hook site when a hook is taken out.
#[derive(Debug, Clone, Copy, PartialEq, Eq, Structural)]
pub enum RestoreAction {
    /// The original bytes stand there already.
    AlreadyOriginal,
    /// The hook's own patch stands there: write the original bytes over it.
    WriteOriginal,
    /// Something else stands there: leave it alone.
    Refuse,
}

/// `E9 rel32` from `hook_addr` to `target`, filled up with `nop` to `len` bytes.
pub open spec fn hook_patch(hook_addr: u32, target: u32, len: nat) -> Seq<u8> {
    [0xE9u8]@ + crate::code::le32(crate::code::rel32(hook_addr + 5, target as int)) + Seq::new(
        (len - 5) as nat,
        |i: int| 0x90u8,
    )
}

/// What `bytes` are, at a site with these original bytes and perhaps a patch.
pub open spec fn classified(bytes: Seq<u8>, original: Seq<u8>, patch: Option<Seq<u8>>) -> HookBytes {
    if bytes == original {
        HookBytes::Original
    } else if patch == Some(bytes) {
        HookBytes::Patched
    } else {
        HookBytes::Unexpected
    }
}

/// What is to be done with a site that holds `bytes`.
pub open spec fn restore_of(bytes: Seq<u8>, original: Seq<u8>, patch: Seq<u8>) -> RestoreAction {
    match classified(bytes, original, Some(patch)) {
        HookBytes::Original => RestoreAction::AlreadyOriginal,
        HookBytes::Patched => RestoreAction::WriteOriginal,
        HookBytes::Unexpected => RestoreAction::Refuse,
    }
}

/// What stands at the site after the action has been carried out.
pub open spec fn site_after(action: RestoreAction, bytes: Seq<u8>, original: Seq<u8>) -> Seq<u8> {
    match action {
        RestoreAction::WriteOriginal => original,
        _ => bytes,
    }
}

/// A patch is as long as the stretch it replaces, and its jump leads to the
/// target.
pub proof fn hook_patch_lands(hook_addr: u32, target: u32, len: nat)
    requires
        len >= 5,
    ensures
        hook_patch(hook_addr, target, len).len() == len,
        hook_patch(hook_addr, target, len)[0] == 0xE9,
        (hook_addr + 5 + crate::code::from_le32(
            hook_patch(hook_addr, target, len).subrange(1, 5),
        )) % 0x1_0000_0000 == target,
        forall|i: int| 5 <= i < len ==> hook_patch(hook_addr, target, len)[i] == 0x90,
{
    let rel = crate::code::rel32(hook_addr + 5, target as int);
    crate::code::le32_round_trip(rel);
    assert(hook_patch(hook_addr, target, len).subrange(1, 5) =~= crate::code::le32(rel));
    crate::code::rel32_lands(hook_addr + 5, target as int);
}

/// Taking out a hook gives a site that still holds the hook's patch its original
/// bytes back, leaves a site that holds them alone, and never overwrites bytes
/// that are neither.
pub proof fn restore_undoes_patch(original: Seq<u8>, patch: Seq<u8>, other: Seq<u8>)
    requires
        other != original,
        other != patch,
    ensures
        site_after(restore_of(patch, original, patch), patch, original) == original,
        site_after(restore_of(original, original, patch), original, original) == original,
        site_after(restore_of(other, original, patch), other, original) == other,
{
}

/// What stands at each address after these writes, in order; `mem` says what stood
/// there before.
pub open spec fn after_writes(mem: Map<u32, Seq<u8>>, writes: Seq<(u32, Seq<u8>)>) -> Map<
    u32,
    Seq<u8>,
>
    decreases writes.len(),
{
    if writes.len() == 0 {
        mem
    } else {
        after_writes(mem.insert(writes[0].0, writes[0].1), writes.drop_first())
    }
}

/// Writes can be made in two goes.
pub proof fn writes_follow_each_other(
    mem: Map<u32, Seq<u8>>,
    first: Seq<(u32, Seq<u8>)>,
    second: Seq<(u32, Seq<u8>)>,
)
    ensures
        after_writes(mem, first + second) == after_writes(after_writes(mem, first), second),
    decreases first.len(),
{
    if first.len() == 0 {
        assert(first + second =~= second);
    } else {
        assert((first + second).drop_first() =~= first.drop_first() + second);
        writes_follow_each_other(
            mem.insert(first[0].0, first[0].1),
            first.drop_first(),
            second,
        );
    }
}

/// What stands at each address after these sites were put back, in order.
pub open spec fn after_restores(
    mem: Map<u32, Seq<u8>>,
    sites: Seq<(u32, Seq<u8>, Seq<u8>)>,
) -> Map<u32, Seq<u8>>
    decreases sites.len(),
{
    if sites.len() == 0 {
        mem
    } else {
        let (addr, original, patch) = sites[0];
        let action = restore_of(mem[addr], original, patch);
        after_restores(
            mem.insert(addr, site_after(action, mem[addr], original)),
            sites.drop_first(),
        )
    }
}

/// The state of a hook after an attempt to put it in: `new` is the state that the
/// attempt gave, `None` where it failed.  A hook that is in stays as it is.
pub open spec fn after_install<S>(state: Option<S>, new: Option<S>) -> Option<S> {
    match state {
        Some(_) => state,
        None => new,
    }
}

/// The state of a hook after it was taken out.
pub open spec fn after_uninstall<S>(state: Option<S>) -> Option<S> {
    None
}

/// A call that puts a hook in (with the state that it gave, if it succeeded) or takes it
/// out.
pub enum HookCall<S> {
    Install(Option<S>),
    Uninstall,
}

/// The state of a hook after these calls, the first one first.
pub open spec fn after_calls<S>(calls: Seq<HookCall<S>>) -> Option<S>
    decreases calls.len(),
{
    if calls.len() == 0 {
        None
    } else {
        match calls.last() {
            HookCall::Install(new) => after_install(after_calls(calls.drop_last()), new),
            HookCall::Uninstall => after_uninstall(after_calls(calls.drop_last())),
        }
    }
}

/// Whether call `i` put the hook in, or would have, and nothing took it out since.
pub open spec fn stands_since<S>(calls: Seq<HookCall<S>>, i: int) -> bool {
    &&& 0 <= i < calls.len()
    &&& calls[i] matches HookCall::Install(new) && new is Some
    &&& forall|k: int| i < k < calls.len() ==> !(#[trigger] calls[k] is Uninstall)
}

/// A hook is out at first, in after an attempt that succeeded, as before after one that
/// failed, and out after it was taken out; while it is in, an attempt to put it in
/// changes nothing.  So it is in exactly where an attempt has succeeded since it was
/// last taken out.
pub proof fn state_follows_the_calls<S>(calls: Seq<HookCall<S>>, new: S)
    ensures
        after_calls(Seq::<HookCall<S>>::empty()) is None,
        after_calls(calls.push(HookCall::Install(Some(new)))) is Some,
        after_calls(calls.push(HookCall::Install(None))) == after_calls(calls),
        after_calls(calls) is Some ==> after_calls(calls.push(HookCall::Install(Some(new))))
            == after_calls(calls),
        after_calls(calls.push(HookCall::Uninstall)) is None,
        after_calls(calls) is Some <==> exists|i: int| stands_since(calls, i),
    decreases calls.len(),
{
    assert(calls.push(HookCall::Install(Some(new))).drop_last() =~= calls);
    assert(calls.push(HookCall::Install(None)).drop_last() =~= calls);
    assert(calls.push(HookCall::Uninstall).drop_last() =~= calls);
    if calls.len() > 0 {
        let rest = calls.drop_last();
        let n = rest.len() as int;
        state_follows_the_calls(rest, new);
        if after_calls(calls) is Some {
            if after_calls(rest) is Some {
                let i = choose|i: int| stands_since(rest, i);
                assert forall|k: int| i < k < calls.len() implies !(#[trigger] calls[k]
                    is Uninstall) by {
                    if k < n {
                        assert(!(rest[k] is Uninstall));
                    }
                }
                assert(calls[i] == rest[i]);
                assert(stands_since(calls, i));
            } else {
                assert(stands_since(calls, n));
            }
        }
        if exists|i: int| stands_since(calls, i) {
            let i = choose|i: int| stands_since(calls, i);
            if i < n {
                assert(!(calls[n] is Uninstall));
                assert(calls[i] == rest[i]);
                assert forall|k: int| i < k < rest.len() implies !(#[trigger] rest[k]
                    is Uninstall) by {
                    assert(!(calls[k] is Uninstall));
                }
                assert(stands_since(rest, i));
            }
        }
    }
}

/// Keeps the state that an attempt to put a hook in gave, `None` where a write failed.
pub fn settle_install<S>(state: &mut Option<S>, new: Option<S>)
    ensures
        *final(state) == after_install(*old(state), new),
{
    if state.is_none() {
        *state = new;
    }
}

/// A patch of `N` bytes that redirects `hook_addr` to `target`.
pub fn build_hook_patch<const N: usize>(hook_addr: u32, target: u32) -> (patch: Vec<u8>)
    requires
        N >= 5,
    ensures
        patch@ == hook_patch(hook_addr, target, N as nat),
        patch@.len() == N,
{
    let next: u32 = hook_addr.wrapping_add(5);
    proof {
        if hook_addr + 5 > u32::MAX {
            vstd::arithmetic::div_mod::lemma_mod_add_multiples_vanish(
                target - (hook_addr + 5),
                0x1_0000_0000,
            );
        }
    }
    let mut patch: Vec<u8> = start(&[0xE9]);
    push_u32(&mut patch, distance(next, target));
    proof {
        reveal(crate::code::put);
        reveal(crate::code::le32);
    }
    let ghost head = patch@;
    while patch.len() < N
        invariant
            N >= 5,
            head.len() == 5,
            5 <= patch@.len() <= N,
            patch@ == head + Seq::new((patch@.len() - 5) as nat, |i: int| 0x90u8),
        decreases N - patch@.len(),
    {
        patch.push(0x90);
        assert(patch@ =~= head + Seq::new((patch@.len() - 5) as nat, |i: int| 0x90u8));
    }
    patch
}

/// Tells the original bytes of a site, the patch and anything else apart.
pub fn classify_hook_bytes(bytes: &[u8], original: &[u8], patch: Option<&[u8]>) -> (r: HookBytes)
    ensures
        r == classified(
            bytes@,
            original@,
            match patch {
                Some(p) => Some(p@),
                None => None,
            },
        ),
{
    if same_bytes(bytes, original) {
        return HookBytes::Original;
    }
    match patch {
        Some(p) => if same_bytes(bytes, p) {
            HookBytes::Patched
        } else {
            HookBytes::Unexpected
        },
        None => HookBytes::Unexpected,
    }
}

/// Decides what to do with a site that holds `bytes` when its hook is taken out.
pub fn restore_action(bytes: &[u8], site: &Restore) -> (r: RestoreAction)
    ensures
        r == restore_of(bytes@, site.original@, site.patch@),
{
    match classify_hook_bytes(bytes, site.original.as_slice(), Some(site.patch.as_slice())) {
        HookBytes::Original => RestoreAction::AlreadyOriginal,
        HookBytes::Patched => RestoreAction::WriteOriginal,
        HookBytes::Unexpected => RestoreAction::Refuse,
    }
}

/// Whether a site still holds its original bytes, so that a hook may go in.
pub fn holds_original(bytes: &[u8], site: &Patch) -> (r: bool)
    ensures
        r == (bytes@ == site.bytes@),
{
    same_bytes(bytes, site.bytes.as_slice())
}

/// A copy of the bytes in `s`.
pub fn bytes_of(s: &[u8]) -> (r: Vec<u8>)
    ensures
        r@ == s@,
{
    start(s)
}

} // verus!
