//! The answer and status types of the messenger contract.
use vstd::prelude::*;

verus! {

/// The answers to a request to add an account as a contact.
#[derive(Debug, Clone, Copy, PartialEq, Eq, Structural)]
pub enum AddContactResponse {
    /// The account does not speak the messenger protocol.
    InvalidAccount,
    /// The account has blocked requests from us.
    Blocked,
    /// Ignored: we are contacts already.
    AlreadyConnected,
    /// The request came without a sufficient deposit.
    InsufficientDeposit,
    /// Accepted and waiting for an answer.
    Pending,
    /// Accepted: we are now contacts of one another.
    Accepted,
}

/// The answers to accepting a contact request.
#[derive(Debug, Clone, Copy, PartialEq, Eq, Structural)]
pub enum AcceptContactResponse {
    /// The account does not speak the messenger protocol.
    InvalidAccount,
    /// There was no pending request from the account.
    UnknownAccount,
    /// The account has blocked us.
    Blocked,
    /// Ignored: we are contacts already.
    AlreadyConnected,
    /// The contact was added.
    Accepted,
}

/// The answers to a message sent to another account.
#[derive(Debug, Clone, Copy, PartialEq, Eq, Structural)]
pub enum MessageResponse {
    InvalidAccount,
    Blocked,
    NotConnected,
    InsufficientDeposit,
    Received,
}

/// Whether a received message has been read.
#[derive(Debug, Clone, Copy, PartialEq, Eq, Structural)]
pub enum MessageStatus {
    Read,
    Unread,
}

/// Another account as the contract sees it.
#[derive(Debug, Clone, Copy, PartialEq, Eq, Structural)]
pub enum AccountStatus {
    /// No record of the account.
    Unknown,
    /// We sent it a contact request and have no answer yet.
    SentPendingRequest,
    /// It sent us a contact request that we have not accepted yet.
    ReceivedPendingRequest,
    /// We have blocked it.
    Blocked,
    /// A contact, free to exchange messages with.
    Contact,
}

/// The sections of the contract's storage.
#[derive(Debug, Clone, Copy, PartialEq, Eq, Structural)]
pub enum StoragePrefix {
    Accounts,
    Messages,
    MessageStatuses(MessageStatus),
    LastReceivedMessage,
    PendingContacts,
}

} // verus!
