use vstd::prelude::*;
use crate::slot::{hash_slot, key_slot};

verus! {

/// A command as callers hand it over: its name, the key it addresses (if any),
/// its other arguments, and whether a replica may serve it.
#[derive(Clone, Debug)]
pub struct Command {
    pub name: String,
    pub key: Option<Vec<u8>>,
    pub args: Vec<Vec<u8>>,
    pub use_replica: bool,
}

impl Command {
    /// A command with no arguments beyond its key, meant for a primary.
    pub fn new(name: &str, key: Option<Vec<u8>>) -> (r: Command)
        ensures
            r.name@ == name@,
            r.key == key,
            r.args@.len() == 0,
            !r.use_replica,
    {
        Command { name: name.to_owned(), key, args: Vec::new(), use_replica: false }
    }
}

/// The slot a command's key hashes to, if it has a key.
pub open spec fn command_slot(c: Command) -> Option<u16> {
    match c.key {
        Some(k) => Some(key_slot(k@)),
        None => None,
    }
}

/// A command while the router owns it: the command, its hash slot, how often it
/// was redirected or resent, and how often it was retried after a transient
/// error. `id` names the caller waiting for its result.
#[derive(Debug)]
pub struct Envelope {
    pub id: u64,
    pub command: Command,
    pub slot: Option<u16>,
    pub redirections: u32,
    pub attempts: u32,
}

impl Envelope {
    /// Wraps `command`, computing its slot, with no redirection or retry spent.
    pub fn new(id: u64, command: Command) -> (r: Envelope)
        ensures
            r.id == id,
            r.command == command,
            r.slot == command_slot(command),
            r.redirections == 0,
            r.attempts == 0,
    {
        let slot = match &command.key {
            Some(k) => Some(hash_slot(k.as_slice())),
            None => None,
        };
        Envelope { id, command, slot, redirections: 0, attempts: 0 }
    }

    /// Whether the command may be served by a replica.
    pub fn use_replica(&self) -> (r: bool)
        ensures
            r == self.command.use_replica,
    {
        self.command.use_replica
    }
}

} // verus!
