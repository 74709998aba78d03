//! Request validation for the exec endpoints: container id shape and
//! command-vector checks.

use vstd::prelude::*;

verus! {

use crate::text::chars_of;

/// A character allowed in a container id: ASCII letters, digits, `_`, `.`
/// and `-`.
pub open spec fn id_char(c: char) -> bool {
    ('a' <= c && c <= 'z') || ('A' <= c && c <= 'Z') || ('0' <= c && c <= '9') || c == '_' || c
        == '.' || c == '-'
}

/// A well-formed container id: 1 to 64 characters, each from the allowed
/// class.
pub open spec fn valid_container_id(s: Seq<char>) -> bool {
    1 <= s.len() <= 64 && forall|i: int| 0 <= i < s.len() ==> id_char(#[trigger] s[i])
}

/// Accepts exactly the well-formed container ids.
pub fn validate_container_id(id: &str) -> (r: Result<(), &'static str>)
    ensures
        r is Ok <==> valid_container_id(id@),
        r matches Err(m) ==> m@ == "Invalid container ID format"@,
{
    let cs = chars_of(id);
    if cs.len() < 1 || cs.len() > 64 {
        return Err("Invalid container ID format");
    }
    let mut i: usize = 0;
    while i < cs.len()
        invariant
            cs@ == id@,
            i <= cs@.len(),
            forall|j: int| 0 <= j < i ==> id_char(#[trigger] cs@[j]),
        decreases cs@.len() - i,
    {
        let c = cs[i];
        let ok = ('a' <= c && c <= 'z') || ('A' <= c && c <= 'Z') || ('0' <= c && c <= '9') || c
            == '_' || c == '.' || c == '-';
        if !ok {
            return Err("Invalid container ID format");
        }
        i = i + 1;
    }
    Ok(())
}

/// Accepts any non-empty command vector and rejects the empty one.
pub fn validate_command(cmd: &[String]) -> (r: Result<(), &'static str>)
    ensures
        r is Ok <==> cmd@.len() > 0,
        r matches Err(m) ==> m@ == "Command cannot be empty"@,
{
    if cmd.len() == 0 {
        Err("Command cannot be empty")
    } else {
        Ok(())
    }
}

} // verus!
