//! What the relay is started with.
use vstd::prelude::*;

verus! {

/// The settings of one relay.
#[derive(Debug, Clone)]
pub struct Config {
    /// The mesh key used to authenticate with other relays.
    pub meshkey: Option<String>,
    /// List of other relays with which we should create a mesh.
    pub mesh_peers: Vec<String>,
    /// The address to listen on.
    pub listen_on: String,
}

impl Config {
    /// The mesh peers to dial: all that are listed where there is a mesh key, and none
    /// where there is no key to present to them.
    pub fn peers_to_dial(&self) -> (peers: &[String])
        ensures
            peers@ == if self.meshkey is Some {
                self.mesh_peers@
            } else {
                Seq::<String>::empty()
            },
    {
        let all = self.mesh_peers.as_slice();
        if self.meshkey.is_some() {
            all
        } else {
            let none = vstd::slice::slice_subrange(all, 0, 0);
            none
        }
    }
}

/// Whether a byte is ASCII white space: a blank, a tab, a line feed, a form feed or a
/// carriage return.
pub open spec fn is_space(byte: u8) -> bool {
    byte == 0x20 || byte == 0x09 || byte == 0x0a || byte == 0x0c || byte == 0x0d
}

/// Where `content` without the white space at its ends starts and ends: everything in front
/// of `start` and from `end` on is white space, and what lies between neither starts nor
/// ends with white space.
pub fn trimmed(content: &[u8]) -> (range: (usize, usize))
    ensures
        range.0 <= range.1 <= content@.len(),
        forall|i: int| 0 <= i < range.0 ==> is_space(content@[i]),
        forall|i: int| range.1 <= i < content@.len() ==> is_space(content@[i]),
        range.0 < range.1 ==> !is_space(content@[range.0 as int]) && !is_space(
            content@[range.1 - 1],
        ),
{
    let mut start: usize = 0;
    while start < content.len() && byte_is_space(content[start])
        invariant
            start <= content@.len(),
            forall|i: int| 0 <= i < start ==> is_space(content@[i]),
        decreases content@.len() - start,
    {
        start = start + 1;
    }
    let mut end: usize = content.len();
    while end > start && byte_is_space(content[end - 1])
        invariant
            start <= end <= content@.len(),
            forall|i: int| end <= i < content@.len() ==> is_space(content@[i]),
        decreases end,
    {
        end = end - 1;
    }
    (start, end)
}

/// Whether a byte is ASCII white space.
pub fn byte_is_space(byte: u8) -> (space: bool)
    ensures
        space == is_space(byte),
{
    byte == 0x20 || byte == 0x09 || byte == 0x0a || byte == 0x0c || byte == 0x0d
}

} // verus!
