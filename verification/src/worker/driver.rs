//! The channel over which a worker's end is reported.

use vstd::prelude::*;

verus! {

/// An end of the channel has been taken already.
#[derive(Debug, Clone, Copy, PartialEq, Eq, Structural)]
pub enum AlreadyConsumed {
    Sender,
    Receiver,
}

impl AlreadyConsumed {
    pub open spec fn text(self) -> Seq<char> {
        match self {
            AlreadyConsumed::Sender => "termination_event_tx already been consumed"@,
            AlreadyConsumed::Receiver => "termination_event_rx already been consumed"@,
        }
    }

    pub fn message(&self) -> (r: String)
        ensures
            r@ == self.text(),
    {
        match self {
            AlreadyConsumed::Sender => "termination_event_tx already been consumed".to_owned(),
            AlreadyConsumed::Receiver => "termination_event_rx already been consumed".to_owned(),
        }
    }
}

/// The two ends of the channel, each of which is taken once.
#[derive(Debug)]
pub struct BaseCx<S, R> {
    pub termination_event_tx: Option<S>,
    pub termination_event_rx: Option<R>,
}

impl<S, R> BaseCx<S, R> {
    pub fn new(tx: S, rx: R) -> (r: BaseCx<S, R>)
        ensures
            r.termination_event_tx == Some(tx),
            r.termination_event_rx == Some(rx),
    {
        BaseCx { termination_event_tx: Some(tx), termination_event_rx: Some(rx) }
    }

    pub fn take_termination_event_sender(&mut self) -> (r: Result<S, AlreadyConsumed>)
        ensures
            *final(self) == (BaseCx { termination_event_tx: None, ..*old(self) }),
            r == match old(self).termination_event_tx {
                Some(tx) => Ok::<S, AlreadyConsumed>(tx),
                None => Err::<S, AlreadyConsumed>(AlreadyConsumed::Sender),
            },
    {
        match self.termination_event_tx.take() {
            Some(tx) => Ok(tx),
            None => Err(AlreadyConsumed::Sender),
        }
    }

    pub fn take_termination_event_receiver(&mut self) -> (r: Result<R, AlreadyConsumed>)
        ensures
            *final(self) == (BaseCx { termination_event_rx: None, ..*old(self) }),
            r == match old(self).termination_event_rx {
                Some(rx) => Ok::<R, AlreadyConsumed>(rx),
                None => Err::<R, AlreadyConsumed>(AlreadyConsumed::Receiver),
            },
    {
        match self.termination_event_rx.take() {
            Some(rx) => Ok(rx),
            None => Err(AlreadyConsumed::Receiver),
        }
    }
}

} // verus!
