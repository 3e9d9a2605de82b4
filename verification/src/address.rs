//! The addresses that the avatar key protocol reacts to.

use vstd::prelude::*;
use crate::chars::to_chars;

verus! {

/// The code of `c`, with an upper-case ASCII letter taken for its lower-case one.
pub open spec fn folded(c: char) -> u32 {
    if 'A' <= c && c <= 'Z' {
        (c as u32 + 32) as u32
    } else {
        c as u32
    }
}

/// Whether `a` and `b` are the same text but for the case of ASCII letters.
pub open spec fn same_ignoring_ascii_case(a: Seq<char>, b: Seq<char>) -> bool {
    a.len() == b.len() && forall|i: int| 0 <= i < a.len() ==> folded(#[trigger] a[i]) == folded(b[i])
}

/// Whether `text` begins with `prefix`.
pub open spec fn starts_with(text: Seq<char>, prefix: Seq<char>) -> bool {
    prefix.len() <= text.len() && text.take(prefix.len() as int) == prefix
}

/// The address that announces a change of avatar.
pub open spec fn avatar_change_address() -> Seq<char> {
    "/avatar/change"@
}

/// What every address of an avatar parameter begins with.
pub open spec fn parameter_prefix() -> Seq<char> {
    "/avatar/parameters/"@
}

/// What an address means to the avatar key protocol.
#[derive(Clone, Copy, Debug, PartialEq, Eq, Structural)]
pub enum AddressKind {
    /// A change of avatar: the address is `/avatar/change` in any case of letters.
    AvatarChange,
    /// An avatar parameter: the address begins with `/avatar/parameters/`.
    Parameter,
    /// Anything else.
    Other,
}

/// What `addr` means to the avatar key protocol.
pub open spec fn address_kind(addr: Seq<char>) -> AddressKind {
    if same_ignoring_ascii_case(addr, avatar_change_address()) {
        AddressKind::AvatarChange
    } else if starts_with(addr, parameter_prefix()) {
        AddressKind::Parameter
    } else {
        AddressKind::Other
    }
}

fn fold_char(c: char) -> (code: u32)
    ensures
        code == folded(c),
{
    if 'A' <= c && c <= 'Z' {
        c as u32 + 32
    } else {
        c as u32
    }
}

/// Whether `a` and `b` are the same text but for the case of ASCII letters.
pub fn eq_ignoring_ascii_case(a: &Vec<char>, b: &Vec<char>) -> (same: bool)
    ensures
        same == same_ignoring_ascii_case(a@, b@),
{
    if a.len() != b.len() {
        return false;
    }
    let mut i: usize = 0;
    while i < a.len()
        invariant
            i <= a.len(),
            a.len() == b.len(),
            forall|k: int| 0 <= k < i ==> folded(#[trigger] a@[k]) == folded(b@[k]),
        decreases a.len() - i,
    {
        if fold_char(a[i]) != fold_char(b[i]) {
            return false;
        }
        i += 1;
    }
    true
}

/// Whether `text` begins with `prefix`.
pub fn has_prefix(text: &Vec<char>, prefix: &Vec<char>) -> (yes: bool)
    ensures
        yes == starts_with(text@, prefix@),
{
    if prefix.len() > text.len() {
        return false;
    }
    let mut i: usize = 0;
    while i < prefix.len()
        invariant
            i <= prefix.len() <= text.len(),
            forall|k: int| 0 <= k < i ==> text@[k] == prefix@[k],
        decreases prefix.len() - i,
    {
        if text[i] != prefix[i] {
            proof {
                assert(text@.take(prefix@.len() as int)[i as int] == text@[i as int]);
            }
            return false;
        }
        i += 1;
    }
    proof {
        assert(text@.take(prefix@.len() as int) =~= prefix@);
    }
    true
}

/// What `addr` means to the avatar key protocol.
pub fn classify(addr: &str) -> (kind: AddressKind)
    ensures
        kind == address_kind(addr@),
{
    let chars = to_chars(addr);
    let change = to_chars("/avatar/change");
    let prefix = to_chars("/avatar/parameters/");
    if eq_ignoring_ascii_case(&chars, &change) {
        AddressKind::AvatarChange
    } else if has_prefix(&chars, &prefix) {
        AddressKind::Parameter
    } else {
        AddressKind::Other
    }
}

/// The address of the avatar parameter `name`.
pub fn parameter_address(name: &str) -> (addr: String)
    ensures
        addr@ == parameter_prefix() + name@,
{
    let prefix: String = "/avatar/parameters/".to_owned();
    prefix.concat(name)
}

} // verus!
