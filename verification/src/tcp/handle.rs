//! Decisions of the loop that drives a software TCP adapter on behalf of
//! its connection handles; the loop itself, with its channels and awaits,
//! runs outside the library.
use vstd::prelude::*;

use crate::tcp::adapter::{ConnectionFault, ConnectionStatus};

verus! {

/// The connections to close after a round of packet processing, in order:
/// each one whose status is an error, with whether its handle is told of
/// the error (every error but the peer closing the connection).
pub open spec fn closings(statuses: Seq<(u16, ConnectionStatus)>) -> Seq<(u16, bool)>
    decreases statuses.len(),
{
    if statuses.len() == 0 {
        Seq::empty()
    } else {
        let rest = closings(statuses.drop_last());
        match statuses.last().1 {
            ConnectionStatus::Error(kind) => rest.push((statuses.last().0, kind != ConnectionFault::UnexpectedEof)),
            _ => rest,
        }
    }
}

/// Which connections to close, given each open handle's port and status:
/// those whose status is an error, each with whether the error is sent to
/// its handle before it is closed.
pub fn close_decisions(statuses: &Vec<(u16, ConnectionStatus)>) -> (r: Vec<(u16, bool)>)
    ensures
        r@ == closings(statuses@),
{
    let mut out: Vec<(u16, bool)> = Vec::new();
    let mut i: usize = 0;
    while i < statuses.len()
        invariant
            i <= statuses@.len(),
            out@ == closings(statuses@.take(i as int)),
        decreases statuses@.len() - i,
    {
        assert(statuses@.take(i + 1).drop_last() =~= statuses@.take(i as int));
        assert(statuses@.take(i + 1).last() == statuses@[i as int]);
        let (port, status) = statuses[i];
        match status {
            ConnectionStatus::Error(kind) => {
                let report = match kind {
                    ConnectionFault::UnexpectedEof => false,
                    _ => true,
                };
                out.push((port, report));
            },
            _ => {},
        }
        i = i + 1;
    }
    assert(statuses@.take(statuses@.len() as int) =~= statuses@);
    out
}

} // verus!
