//! Configuration of the handshake: extra headers and offered subprotocols.
//!
//! The transport-level options (TLS roots, identities, protocol versions)
//! and the connect step itself belong to the embedding application; what is
//! kept here is the data the verified handshake consumes.

use vstd::prelude::*;
use vstd::string::StringExecFns;

verus! {

/// A builder used to customize the WebSocket handshake: handshake headers
/// and subprotocols can be added and removed.
#[derive(Debug)]
pub struct WebSocketBuilder {
    /// Extra headers to send in the handshake, in insertion order
    pub additional_handshake_headers: Vec<(String, String)>,
    /// Subprotocols to offer, in insertion order
    pub subprotocols: Vec<String>,
}

impl WebSocketBuilder {
    /// A builder with no extra headers and no subprotocols.
    pub fn new() -> (r: Self)
        ensures
            r.additional_handshake_headers@.len() == 0,
            r.subprotocols@.len() == 0,
    {
        WebSocketBuilder { additional_handshake_headers: Vec::new(), subprotocols: Vec::new() }
    }

    /// Adds a header to be sent in the WebSocket handshake.
    pub fn add_header(&mut self, header_name: &str, header_value: &str)
        ensures
            final(self).additional_handshake_headers@.len() == old(
                self,
            ).additional_handshake_headers@.len() + 1,
            final(self).additional_handshake_headers@.last().0@ == header_name@,
            final(self).additional_handshake_headers@.last().1@ == header_value@,
            final(self).additional_handshake_headers@.drop_last() == old(
                self,
            ).additional_handshake_headers@,
            final(self).subprotocols == old(self).subprotocols,
    {
        self.additional_handshake_headers.push(
            (String::from_str(header_name), String::from_str(header_value)),
        );
        proof {
            assert(self.additional_handshake_headers@.drop_last() =~= old(
                self,
            ).additional_handshake_headers@);
        }
    }

    /// Removes every header of the given name from those to be sent in the
    /// WebSocket handshake.
    pub fn remove_header(&mut self, header_name: &str)
        ensures
            final(self).additional_handshake_headers@ == old(
                self,
            ).additional_handshake_headers@.filter(
                |header: (String, String)| header.0@ != header_name@,
            ),
            final(self).subprotocols == old(self).subprotocols,
    {
        let ghost keep = |header: (String, String)| header.0@ != header_name@;
        let mut out: Vec<(String, String)> = Vec::new();
        let mut i: usize = 0;
        while i < self.additional_handshake_headers.len()
            invariant
                i <= self.additional_handshake_headers@.len(),
                self.additional_handshake_headers == old(self).additional_handshake_headers,
                keep == (|header: (String, String)| header.0@ != header_name@),
                out@ == self.additional_handshake_headers@.take(i as int).filter(keep),
            decreases self.additional_handshake_headers@.len() - i,
        {
            let header = &self.additional_handshake_headers[i];
            proof {
                reveal(Seq::filter);
                assert(self.additional_handshake_headers@.take(i + 1).drop_last()
                    =~= self.additional_handshake_headers@.take(i as int));
                assert(self.additional_handshake_headers@.take(i + 1).last() == *header);
            }
            if !crate::bytes::str_eq(header.0.as_str(), header_name) {
                out.push((header.0.clone(), header.1.clone()));
            }
            i += 1;
        }
        proof {
            assert(self.additional_handshake_headers@.take(
                self.additional_handshake_headers@.len() as int,
            ) =~= self.additional_handshake_headers@);
        }
        self.additional_handshake_headers = out;
    }

    /// Adds a subprotocol to the list offered in the WebSocket handshake.
    /// The server may select one; a selected subprotocol is reported after
    /// the handshake.
    pub fn add_subprotocol(&mut self, subprotocol: &str)
        ensures
            final(self).subprotocols@.len() == old(self).subprotocols@.len() + 1,
            final(self).subprotocols@.last()@ == subprotocol@,
            final(self).subprotocols@.drop_last() == old(self).subprotocols@,
            final(self).additional_handshake_headers == old(self).additional_handshake_headers,
    {
        self.subprotocols.push(String::from_str(subprotocol));
        proof {
            assert(self.subprotocols@.drop_last() =~= old(self).subprotocols@);
        }
    }

    /// Removes every occurrence of the given subprotocol from the list
    /// offered in the WebSocket handshake.
    pub fn remove_subprotocol(&mut self, subprotocol: &str)
        ensures
            final(self).subprotocols@ == old(self).subprotocols@.filter(
                |offered: String| offered@ != subprotocol@,
            ),
            final(self).additional_handshake_headers == old(self).additional_handshake_headers,
    {
        let ghost keep = |offered: String| offered@ != subprotocol@;
        let mut out: Vec<String> = Vec::new();
        let mut i: usize = 0;
        while i < self.subprotocols.len()
            invariant
                i <= self.subprotocols@.len(),
                self.subprotocols == old(self).subprotocols,
                keep == (|offered: String| offered@ != subprotocol@),
                out@ == self.subprotocols@.take(i as int).filter(keep),
            decreases self.subprotocols@.len() - i,
        {
            let offered = &self.subprotocols[i];
            proof {
                reveal(Seq::filter);
                assert(self.subprotocols@.take(i + 1).drop_last() =~= self.subprotocols@.take(
                    i as int,
                ));
                assert(self.subprotocols@.take(i + 1).last() == *offered);
            }
            if !crate::bytes::str_eq(offered.as_str(), subprotocol) {
                out.push(offered.clone());
            }
            i += 1;
        }
        proof {
            assert(self.subprotocols@.take(self.subprotocols@.len() as int)
                =~= self.subprotocols@);
        }
        self.subprotocols = out;
    }
}

} // verus!
