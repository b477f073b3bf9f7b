//! Values exchanged with the LocalSend protocol core: peers, offered files and
//! the events that drive the application state.
use vstd::prelude::*;

pub mod actor;
pub mod adapter;
pub mod discovery;
pub mod receive;
pub mod send;

pub use adapter::NodeConfig;
pub use send::{Upload, UploadContent};

verus! {

/// A peer that speaks the protocol over HTTPS.
#[derive(Debug)]
pub struct Device {
    pub fingerprint: String,
    pub alias: String,
    pub model: String,
    pub host: String,
    pub port: u16,
}

impl Clone for Device {
    fn clone(&self) -> (r: Self)
        ensures
            r == *self,
    {
        Device {
            fingerprint: self.fingerprint.clone(),
            alias: self.alias.clone(),
            model: self.model.clone(),
            host: self.host.clone(),
            port: self.port,
        }
    }
}

/// One file of an offer, as both sides describe it.
#[derive(Debug)]
pub struct OfferedFile {
    pub name: String,
    pub size: u64,
    pub mime: String,
}

impl Clone for OfferedFile {
    fn clone(&self) -> (r: Self)
        ensures
            r == *self,
    {
        OfferedFile { name: self.name.clone(), size: self.size, mime: self.mime.clone() }
    }
}

/// What the network side reports to the application.
#[derive(Debug)]
#[allow(inconsistent_fields)]
pub enum TransferEvent {
    DiscoveryActive(bool),
    DeviceFound(Device),
    DeviceLost(String),
    NetworkError(String),
    IncomingRequest { id: String, peer: Device, files: Vec<OfferedFile> },
    Started { id: String, peer: String, sending: bool, files: Vec<OfferedFile>, total: u64 },
    Accepted { id: String },
    Progress { id: String, transferred: u64, total: u64 },
    ReceivedText { id: String, text: String },
    Completed { id: String, paths: Vec<std::path::PathBuf> },
    Cancelled { id: String },
    Failed { id: String, error: String },
}

/// Copies a list of offered files, element by element.
pub fn clone_files(files: &Vec<OfferedFile>) -> (r: Vec<OfferedFile>)
    ensures
        r@ == files@,
{
    let mut r: Vec<OfferedFile> = Vec::new();
    let mut i: usize = 0;
    while i < files.len()
        invariant
            i <= files.len(),
            r@ =~= files@.subrange(0, i as int),
        decreases files.len() - i,
    {
        r.push(files[i].clone());
        i += 1;
    }
    assert(files@.subrange(0, files.len() as int) =~= files@);
    r
}

} // verus!
