//! Stores that keep messages of level 2 while their exchange is under way.

use vstd::prelude::*;
use std::collections::HashMap;
use crate::error::StorageError;
use crate::msg::{Message, MessageView};
use crate::proto::PacketIdentifier;

verus! {

broadcast use vstd::std_specs::hash::group_hash_axioms;

/// A store of messages, each kept under its packet identifier.
///
/// A store may fail at any call; a call that fails leaves the contents as
/// they were.
pub trait Store: Send {
    /// The messages that the store holds, by packet identifier.
    spec fn contents(&self) -> Map<u16, MessageView>;

    /// Keeps a message under its packet identifier.
    fn put(&mut self, message: Box<Message>) -> (r: Result<(), StorageError>)
        requires
            message.pid is Some,
        ensures
            r is Ok ==> final(self).contents() == old(self).contents().insert(
                message@.key(),
                message@,
            ),
            r is Err ==> final(self).contents() == old(self).contents(),
    ;

    /// The message kept under `pid`.
    fn get(&mut self, pid: PacketIdentifier) -> (r: Result<Box<Message>, StorageError>)
        ensures
            final(self).contents() == old(self).contents(),
            r matches Ok(message) ==> old(self).contents().contains_key(pid.0) && message@ == old(
                self,
            ).contents()[pid.0],
    ;

    /// Drops what is kept under `pid`, if anything.
    fn delete(&mut self, pid: PacketIdentifier) -> (r: Result<(), StorageError>)
        ensures
            r is Ok ==> final(self).contents() == old(self).contents().remove(pid.0),
            r is Err ==> final(self).contents() == old(self).contents(),
    ;
}

/// A store in memory, which is lost when the program ends.
pub struct MemoryStorage {
    messages: HashMap<u16, Box<Message>>,
}

impl MemoryStorage {
    /// An empty store.
    pub fn new() -> (r: MemoryStorage)
        ensures
            r.contents() == Map::<u16, MessageView>::empty(),
    {
        let r = MemoryStorage { messages: HashMap::new() };
        r
    }
}

impl Store for MemoryStorage {
    closed spec fn contents(&self) -> Map<u16, MessageView> {
        self.messages@.map_values(|m: Box<Message>| m@)
    }

    /// Keeps a message under its packet identifier. This store never fails.
    fn put(&mut self, message: Box<Message>) -> (r: Result<(), StorageError>)
        ensures
            r is Ok,
    {
        let pid = match message.pid {
            Some(pid) => pid,
            None => {
                return Err(StorageError::Unavailable);
            },
        };
        self.messages.insert(pid.0, message);
        Ok(())
    }

    /// The message kept under `pid`; `NotFound` if there is none.
    fn get(&mut self, pid: PacketIdentifier) -> (r: Result<Box<Message>, StorageError>)
        ensures
            old(self).contents().contains_key(pid.0) ==> r is Ok,
            !old(self).contents().contains_key(pid.0) ==> r == Err::<Box<Message>, StorageError>(
                StorageError::NotFound(pid),
            ),
    {
        match self.messages.get(&pid.0) {
            Some(message) => Ok(message.duplicate()),
            None => Err(StorageError::NotFound(pid)),
        }
    }

    /// Drops what is kept under `pid`, if anything. This store never fails.
    fn delete(&mut self, pid: PacketIdentifier) -> (r: Result<(), StorageError>)
        ensures
            r is Ok,
    {
        self.messages.remove(&pid.0);
        Ok(())
    }
}

} // verus!
