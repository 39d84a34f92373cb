//! Settings of each character, kept in a file that bears the character's name.

use vstd::prelude::*;

use crate::code;
use crate::code::zero_at;
use crate::settings::AuxSettings;
use crate::text;
use crate::text::from_chars;
use crate::text::is_blank;
use crate::text::text_of;
use crate::text::to_chars;
use crate::text::trim;

verus! {

/// How many bytes of a character's name are read.
pub const NAME_MAX_BYTES: usize = 32;

/// Offset of the address of the name in the player's object.
pub const NAME_OFFSET: u32 = 0x60;

/// What a file's name ends with.
pub const FILE_SUFFIX: &'static str = ".json";

/// Whether a character is one of the control characters of Unicode.
pub open spec fn is_control(c: char) -> bool {
    let n = c as u32;
    n <= 0x1F || 0x7F <= n <= 0x9F
}

/// Whether a character cannot stand in a file's name.
pub open spec fn is_forbidden(c: char) -> bool {
    c == '<' || c == '>' || c == ':' || c == '"' || c == '/' || c == '\\' || c == '|' || c == '?'
        || c == '*' || is_control(c)
}

/// A name with an underscore for each character that cannot stand in a file's name.
pub open spec fn sanitized(name: Seq<char>) -> Seq<char> {
    Seq::new(
        name.len(),
        |i: int|
            if is_forbidden(name[i]) {
                '_'
            } else {
                name[i]
            },
    )
}

/// A name with an underscore for each character that cannot stand in a file's name.
pub fn sanitize_filename(name: &str) -> (r: String)
    ensures
        r@ == sanitized(name@),
{
    let v: Vec<char> = to_chars(name);
    let mut out: Vec<char> = Vec::new();
    let mut i: usize = 0;
    while i < v.len()
        invariant
            i <= v@.len(),
            out@ == sanitized(v@.take(i as int)),
        decreases v@.len() - i,
    {
        let c: char = v[i];
        let n: u32 = c as u32;
        let control: bool = n <= 0x1F || (0x7F <= n && n <= 0x9F);
        if c == '<' || c == '>' || c == ':' || c == '"' || c == '/' || c == '\\' || c == '|' || c
            == '?' || c == '*' || control {
            out.push('_');
        } else {
            out.push(c);
        }
        assert(out@ =~= sanitized(v@.take(i + 1)));
        i += 1;
    }
    assert(v@.take(v@.len() as int) =~= v@);
    from_chars(out.as_slice())
}

/// A sanitized name holds nothing that is forbidden, and sanitizing it again changes
/// nothing.
pub proof fn sanitized_is_clean(name: Seq<char>)
    ensures
        forall|i: int| 0 <= i < sanitized(name).len() ==> !is_forbidden(#[trigger] sanitized(name)[i]),
        sanitized(sanitized(name)) == sanitized(name),
{
    assert(sanitized(sanitized(name)) =~= sanitized(name));
}

/// The name of a character's file.
pub fn profile_file_name(name: &str) -> (r: String)
    ensures
        r@ == sanitized(name@) + FILE_SUFFIX@,
{
    let mut r: String = sanitize_filename(name);
    crate::text::push_text(&mut r, FILE_SUFFIX);
    r
}

/// The player's name, where there is one.
pub open spec fn name_read(
    player_obj: Option<u32>,
    name_ptr: Option<u32>,
    raw: Option<Seq<u8>>,
    decoded: Seq<char>,
) -> Option<Seq<char>> {
    if player_obj is None || player_obj->0 == 0 || name_ptr is None || name_ptr->0 == 0
        || raw is None || code::until_zero(raw->0).len() == 0 || text::trimmed(decoded).len() == 0 {
        None
    } else {
        Some(text::trimmed(decoded))
    }
}

/// The player's name: `raw` is what was read of it, `decoded` what its part before the
/// first zero decodes to.  There is none where nothing could be read, or nothing but
/// white space.
pub fn read_player_name(
    player_obj: Option<u32>,
    name_ptr: Option<u32>,
    raw: Option<&[u8]>,
    decoded: &str,
) -> (r: Option<String>)
    ensures
        (match r {
            Some(n) => Some(n@),
            None => None,
        }) == name_read(
            player_obj,
            name_ptr,
            match raw {
                Some(bytes) => Some(bytes@),
                None => None,
            },
            decoded@,
        ),
{
    match player_obj {
        None => return None,
        Some(p) => if p == 0 {
            return None;
        },
    }
    match name_ptr {
        None => return None,
        Some(p) => if p == 0 {
            return None;
        },
    }
    match raw {
        None => None,
        Some(bytes) => {
            if zero_at(bytes) == 0 {
                return None;
            }
            if is_blank(decoded) {
                return None;
            }
            Some(trim(decoded))
        },
    }
}

/// What was found of a character's file.
pub enum StoredProfile {
    /// It is not even known where the file would stand.
    NoPlace,
    /// There is no file, it cannot be read, or makes no sense.
    Nothing,
    Settings(AuxSettings),
}

/// The settings of a character: those of the file, else none; they bear the
/// character's name where there is a place for a file.
pub fn load(name: &str, stored: StoredProfile) -> (r: AuxSettings)
    ensures
        match stored {
            StoredProfile::NoPlace => r.blank() && r.current_profile@.len() == 0,
            StoredProfile::Nothing => r.blank() && r.current_profile@ == name@,
            StoredProfile::Settings(s) => r.current_profile@ == name@ && r == (AuxSettings {
                current_profile: r.current_profile,
                ..s
            }),
        },
{
    match stored {
        StoredProfile::NoPlace => AuxSettings::default(),
        StoredProfile::Nothing => {
            let mut s: AuxSettings = AuxSettings::default();
            s.current_profile = text_of(name);
            s
        },
        StoredProfile::Settings(s) => {
            let mut s: AuxSettings = s;
            s.current_profile = text_of(name);
            s
        },
    }
}

} // verus!
