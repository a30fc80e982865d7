//! What the caller asks for: which ports to recover, and how.

use vstd::prelude::*;

verus! {

/// A request to recover a list of ports.
///
/// The ports are worked on in the order given, and in the same order in every
/// phase. A list that names a port twice is invalid: it is refused when the
/// recovery starts, before any register is touched. An empty list is valid
/// and recovers nothing.
#[derive(Debug, PartialEq, Eq)]
pub struct RecoveryRequest {
    /// The ports to recover.
    pub ports: Vec<u8>,
    /// Whether reset is asserted and released once more on every port after
    /// all erases are complete and before the protection status is read.
    pub reset_after_erase: bool,
    /// How many times the erase status of one port may be read before its
    /// erase is given up as timed out.
    pub max_polls: u32,
}

/// The mathematical content of a [`RecoveryRequest`].
pub struct RequestView {
    pub ports: Seq<u8>,
    pub reset_after_erase: bool,
    pub max_polls: nat,
}

impl View for RecoveryRequest {
    type V = RequestView;

    open spec fn view(&self) -> RequestView {
        RequestView {
            ports: self.ports@,
            reset_after_erase: self.reset_after_erase,
            max_polls: self.max_polls as nat,
        }
    }
}

impl RecoveryRequest {
    /// A request for `ports` with the given options.
    pub fn new(ports: Vec<u8>, reset_after_erase: bool, max_polls: u32) -> (request: RecoveryRequest)
        ensures
            request.ports == ports,
            request.reset_after_erase == reset_after_erase,
            request.max_polls == max_polls,
    {
        RecoveryRequest { ports, reset_after_erase, max_polls }
    }

    /// Whether no port is named twice.
    pub fn has_distinct_ports(&self) -> (distinct: bool)
        ensures
            distinct == self@.ports.no_duplicates(),
    {
        let n = self.ports.len();
        let mut j: usize = 0;
        while j < n
            invariant
                n == self.ports.len(),
                j <= n,
                forall|a: int, b: int| 0 <= a < b < j ==> self.ports[a] != self.ports[b],
            decreases n - j,
        {
            let mut i: usize = 0;
            while i < j
                invariant
                    n == self.ports.len(),
                    j < n,
                    i <= j,
                    forall|a: int| 0 <= a < i ==> self.ports[a] != self.ports[j as int],
                decreases j - i,
            {
                if self.ports[i] == self.ports[j] {
                    return false;
                }
                i = i + 1;
            }
            j = j + 1;
        }
        true
    }
}

} // verus!
