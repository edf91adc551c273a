//! Messages carried by the simulated network.
//!
//! The kernel treats a message as opaque; it only asks for its size (for
//! traffic accounting) and for semantically equal copies (for
//! duplication and snapshots).  `JsonMessage` is the concrete message type
//! used by the test harnesses: a tag plus a serialized payload.

use vstd::prelude::*;

verus! {

use vstd::string::{StrSliceExecFns, StringExecFns, StringSliceAdditionalSpecFns};

/// What a user message type must offer the simulator.
///
/// `duplicate` must return a semantically equal copy; the network uses it
/// when the duplication fault fires and the checker uses it when it
/// snapshots mailboxes.
pub trait Message: Sized {
    /// The size of the message in bytes, used for traffic accounting.
    fn size(&self) -> u64;

    /// A semantically equal copy of the message.
    fn duplicate(&self) -> (r: Self)
        ensures
            r == *self,
    ;

    /// Degrade the payload in place; the network calls this when its
    /// corruption gate fires.  What degradation means is the message
    /// type's own affair, and doing nothing is acceptable.
    fn corrupt(&mut self);

    /// A short text standing for the message on a trace line.
    fn label(&self) -> String;
}

/// A message with a type tag and a serialized payload.
pub struct JsonMessage {
    pub tip: String,
    pub data: String,
}

/// The result of blanking every quoted word of a serialized payload; what
/// message corruption leaves of it.
pub uninterp spec fn blanked(s: Seq<char>) -> Seq<char>;

/// Relies on `regex::Regex::replace_all` with the pattern `"\w+"`: every
/// quoted word of `s` is replaced by an empty quoted string.  The result
/// depends on the characters of `s` alone.
#[verifier::external_body]
fn blank_quoted_words(s: &str) -> (r: String)
    ensures
        r@ == blanked(s@),
{
    match regex::Regex::new("\"\\w+\"") {
        Ok(re) => re.replace_all(s, "\"\"").into_owned(),
        Err(_) => s.to_string(),
    }
}

impl JsonMessage {
    pub fn new(tip: &str, data: &str) -> (r: JsonMessage)
        ensures
            r.tip@ == tip@,
            r.data@ == data@,
    {
        JsonMessage { tip: tip.to_owned(), data: data.to_owned() }
    }

}

impl Message for JsonMessage {
    /// The payload's length in bytes.  On an ASCII payload — every
    /// payload the library itself produces — bytes and characters
    /// coincide, and that case is pinned exactly; the UTF-8 encoding
    /// itself has no public spec-level name to state the general case
    /// against.
    fn size(&self) -> (r: u64)
        ensures
            (vstd::string::string_is_ascii(&self.data) && self.data@.len() <= usize::MAX)
                ==> r == self.data@.len(),
    {
        let s = self.data.as_str();
        let n = s.len();
        proof {
            broadcast use vstd::string::is_ascii_spec_bytes;

            if vstd::string::string_is_ascii(&self.data) {
                assert(vstd::string::is_ascii(s));
                assert(s.spec_bytes() =~= Seq::new(s@.len(), |i: int| s@.index(i) as u8));
            }
        }
        n as u64
    }

    fn duplicate(&self) -> (r: JsonMessage)
        ensures
            r == *self,
    {
        JsonMessage { tip: self.tip.clone(), data: self.data.clone() }
    }

    /// Degrade the payload in place: every quoted word is blanked, so
    /// field names and string values are lost while the shape remains.
    fn corrupt(&mut self)
        ensures
            final(self).tip == old(self).tip,
            final(self).data@ == blanked(old(self).data@),
    {
        self.data = blank_quoted_words(self.data.as_str());
    }

    fn label(&self) -> (r: String)
        ensures
            r@ == self.tip@ + " "@ + self.data@,
    {
        let mut out = self.tip.clone();
        out.append(" ");
        out.append(self.data.as_str());
        out
    }
}

} // verus!
