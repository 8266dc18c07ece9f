//! Download progress as the download collaborator reports it.
use vstd::prelude::*;

verus! {

/// The transports a download may use.
#[derive(Debug, Clone, Copy, PartialEq, Eq)]
pub enum Backend {
    Curl,
}

/// What a download reports while it runs.
#[derive(Debug, Clone, PartialEq, Eq)]
pub enum Event {
    /// The size the server announced.
    DownloadContentLengthReceived(u64),
    /// A chunk of the body arrived.
    DownloadDataReceived(Vec<u8>),
}

/// How far a download has come.
#[derive(Debug, Clone, Copy, PartialEq, Eq)]
pub struct Progress {
    /// The announced size, if any.
    pub total: Option<u64>,
    /// Bytes received so far (it stops growing at `u64::MAX`).
    pub received: u64,
}

impl Progress {
    /// A download that has not started.
    pub fn new() -> (r: Progress)
        ensures
            r.total is None,
            r.received == 0,
    {
        Progress { total: None, received: 0 }
    }

    /// Takes in one event.
    pub fn handle(&mut self, event: &Event)
        ensures
            match *event {
                Event::DownloadContentLengthReceived(n) => final(self).total == Some(n)
                    && final(self).received == old(self).received,
                Event::DownloadDataReceived(d) => final(self).total == old(self).total
                    && final(self).received == if old(self).received + d@.len() > u64::MAX {
                    u64::MAX as int
                } else {
                    old(self).received + d@.len()
                },
            },
    {
        match event {
            Event::DownloadContentLengthReceived(n) => {
                self.total = Some(*n);
            },
            Event::DownloadDataReceived(d) => {
                let len = d.len() as u64;
                self.received = self.received.saturating_add(len);
            },
        }
    }
}

} // verus!
