//! What the agent remembers across restarts, as values: its non-secret settings, the stored form
//! of the mesh secret, and the validation of a stored identity key. Reading and writing the files is
//! the host program's part.

use crate::identity::PeerIdentity;
use crate::text::{lemma_trim_idempotent, str_trim, trim};
use vstd::string::StrSliceExecFns;
use vstd::prelude::*;

verus! {

/// The mesh port used when no configuration was saved.
pub const DEFAULT_AGENT_PORT: u16 = 7777;

/// Agent settings that are not secret (safe to read, log and share).
#[derive(Debug, Clone)]
pub struct AgentConfig {
    pub port: u16,
    pub name: String,
    pub can_actuate: bool,
    pub manual_hosts: Vec<String>,
}

impl Default for AgentConfig {
    fn default() -> (c: Self)
        ensures
            c.port == DEFAULT_AGENT_PORT,
            c.name@ == "screen-hop"@,
            c.can_actuate,
            c.manual_hosts@.len() == 0,
    {
        AgentConfig { port: DEFAULT_AGENT_PORT, name: "screen-hop".to_owned(), can_actuate: true, manual_hosts: Vec::new() }
    }
}

/// The stored form of a mesh secret: surrounding whitespace removed.
pub fn secret_to_store(secret: &str) -> (stored: String)
    ensures
        stored@ == trim(secret@),
{
    str_trim(secret)
}

/// A saved secret loads back as it was stored: the stored form is the trimmed secret, and
/// loading trims it again, which changes nothing; so loading gives the trimmed secret, or nothing
/// when it is blank.
pub proof fn lemma_secret_round_trip(secret: Seq<char>)
    ensures
        trim(trim(secret)) == trim(secret),
{
    lemma_trim_idempotent(secret);
}

/// The mesh secret held in a stored text: its trimmed form, or nothing when that is empty.
pub fn secret_from_text(text: &str) -> (secret: Option<String>)
    ensures
        match secret {
            Some(s) => s@ == trim(text@) && s@.len() > 0,
            None => trim(text@).len() == 0,
        },
{
    let s = str_trim(text);
    if s.as_str().unicode_len() == 0 {
        None
    } else {
        Some(s)
    }
}

/// The identity held in a stored key: exactly 32 bytes, else none (a missing or malformed key).
pub fn identity_from_bytes(bytes: &[u8]) -> (id: Option<PeerIdentity>)
    ensures
        match id {
            Some(i) => bytes@.len() == 32 && i.secret() == bytes@,
            None => bytes@.len() != 32,
        },
{
    if bytes.len() != 32 {
        return None;
    }
    let mut key = [0u8; 32];
    let mut i: usize = 0;
    while i < 32
        invariant
            bytes@.len() == 32,
            i <= 32,
            forall|k: int| 0 <= k < i ==> key@[k] == bytes@[k],
        decreases 32 - i,
    {
        key.set(i, bytes[i]);
        i = i + 1;
    }
    assert(key@ =~= bytes@);
    Some(PeerIdentity::from_secret_bytes(&key))
}

} // verus!
