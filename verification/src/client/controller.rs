//! The client's session controller.
//!
//! The controller is a state machine with three modes. `Initial`: there is
//! no session. `Syncing`: a handshake is under way. `Synced`: the session is
//! authenticated, and listings, downloads and deletions may be asked for.
//! The controller takes a message, changes its state and says what to do
//! next; it does nothing itself. Whoever runs it performs the action and
//! hands the outcome back as the next message.

use crate::client::config::Config;
use crate::client::data::Entries;
use crate::client::data::SharedCipher;
use crate::client::error::Error;
use crate::client::handshake::STATUS_FORBIDDEN;
use crate::client::handshake::STATUS_OK;
use crate::envelope::decode_envelope;
use crate::envelope::EncryptedMessage;
use crate::identity::SessionIdentity;
use crate::wire::decode_index;
use crate::wire::encodable;
use crate::wire::encode_index;
use crate::wire::lemma_decode_index;
use crate::wire::Recording;
use vstd::prelude::*;
use vstd::slice::slice_to_vec;

verus! {

/// Where a host listens.
#[derive(Debug, Clone, Copy, PartialEq, Eq, Structural)]
pub struct ServerAddress {
    /// The host's IP address as a 128-bit number.
    pub ip: SessionIdentity,
    /// The host's port.
    pub port: u16,
}

/// What a request to the host gave.
#[derive(Debug, Clone)]
pub struct Response {
    /// The HTTP status of the answer.
    pub status: u16,
    /// The body of the answer.
    pub body: Vec<u8>,
}

/// The mode of the controller.
#[derive(Debug, Clone, Copy, PartialEq, Eq, Structural)]
pub enum Mode {
    /// No session.
    Initial,
    /// A handshake is under way.
    Syncing,
    /// The session is authenticated.
    Synced,
}

/// What happened.
pub enum Message {
    /// The user edited the address. The second part is the address that the
    /// text reads as, if it reads as one.
    SocketAddrInputUpdate(String, Option<ServerAddress>),
    /// The user asked to connect.
    SyncEvent,
    /// A handshake ended.
    SyncAttempt(Result<SharedCipher, Error>),
    /// A listing ended.
    SyncOutput(Result<Entries, Error>),
    /// The user asked for a fresh listing.
    SyncRefresh,
    /// The user asked to disconnect, or cancelled.
    Return,
    /// The user asked for the video of a recording.
    Download(u64),
    /// The user asked to delete a recording.
    Delete(u64),
    /// A download or a deletion ended.
    Finished(()),
}

/// What to do next.
pub enum Action {
    /// Nothing.
    Nothing,
    /// Run a handshake with the host at the address, proving the password,
    /// if the configuration held one for the host.
    Authenticate(ServerAddress, Option<Vec<u8>>),
    /// Ask the host at the address for the recording index.
    Synchronize(ServerAddress, SharedCipher),
    /// Ask the host at the address for the video of the recording.
    Download(u64, ServerAddress, SharedCipher),
    /// Ask the host at the address to delete the recording.
    Delete(u64, ServerAddress),
    /// Tell the user of the failure.
    Report(Error),
}

/// The client's session controller.
pub struct Laptev {
    /// The configuration of the client.
    pub config: Config,
    /// The mode the controller is in.
    pub mode: Mode,
    /// The address as the user typed it.
    pub socket_address: String,
    /// The address that the text reads as, if it reads as one.
    pub address: Option<ServerAddress>,
    /// The session cipher, while there is a session.
    pub cipher: Option<SharedCipher>,
    /// The recordings the host listed.
    pub entries: Entries,
}

impl Laptev {
    /// The key of the session cipher, while there is one.
    pub open spec fn key(&self) -> Option<Seq<u8>> {
        match self.cipher {
            Some(cipher) => Some(cipher@),
            None => None,
        }
    }

    /// The controller is in its initial mode and holds nothing of a
    /// session.
    pub open spec fn is_idle(&self) -> bool {
        &&& self.mode == Mode::Initial
        &&& self.cipher is None
        &&& self.entries@ == Seq::<Recording>::empty()
    }

    /// The controller holds what it takes to talk to a host within a
    /// session: it is synced, knows the address and has the cipher.
    pub open spec fn is_ready(&self) -> bool {
        &&& self.mode == Mode::Synced
        &&& self.address is Some
        &&& self.cipher is Some
    }

    /// What holds of a controller that was driven by messages alone: in the
    /// initial mode it holds nothing of a session, and it is synced only
    /// with a cipher.
    pub open spec fn wf(&self) -> bool {
        &&& self.mode == Mode::Initial ==> self.is_idle()
        &&& self.mode == Mode::Synced ==> self.cipher is Some
    }

    /// A controller in its initial mode, with the address `:12675` typed in,
    /// which reads as no address.
    pub fn new(config: Config) -> (controller: Laptev)
        ensures
            controller.wf(),
            controller.is_idle(),
            controller.config == config,
            controller.address is None,
            controller.socket_address@ == ":12675"@,
    {
        Laptev {
            config,
            mode: Mode::Initial,
            socket_address: ":12675".to_owned(),
            address: None,
            cipher: None,
            entries: Entries::new(),
        }
    }

    /// The address to talk to, or `InvalidSocketAddr` when what the user
    /// typed reads as none.
    pub fn get_socket_address(&self) -> (r: Result<ServerAddress, Error>)
        ensures
            match r {
                Ok(address) => self.address == Some(address),
                Err(e) => e == Error::InvalidSocketAddr && self.address is None,
            },
    {
        match self.address {
            Some(address) => Ok(address),
            None => Err(Error::InvalidSocketAddr),
        }
    }

    /// Drops the session: back to the initial mode, without cipher and
    /// without recordings. The address and the configuration stay.
    pub fn clear(&mut self)
        ensures
            final(self).is_idle(),
            final(self).config == old(self).config,
            final(self).socket_address == old(self).socket_address,
            final(self).address == old(self).address,
    {
        self.mode = Mode::Initial;
        self.cipher = None;
        self.entries.clear();
    }

    /// Takes a message, changes the state and says what to do next.
    ///
    /// - An edit of the address changes the address and nothing else.
    /// - A request to connect starts a handshake when the controller is in
    ///   its initial mode and the address is valid. With an invalid address
    ///   the failure is reported and nothing changes.
    /// - The end of a handshake, while syncing, either stores the cipher,
    ///   makes the controller synced and asks for the first listing, or
    ///   drops everything and reports the failure.
    /// - The end of a listing, while synced, either shows the recordings, or
    ///   drops everything and reports the failure.
    /// - A request for a fresh listing, while ready, empties the list and
    ///   asks for a listing within the same session.
    /// - A request to download or delete, while ready, asks for just that
    ///   and changes nothing.
    /// - A request to disconnect drops everything, whatever the mode.
    /// - Every other message is ignored.
    pub fn update(&mut self, message: Message) -> (action: Action)
        ensures
            final(self).config == old(self).config,
            old(self).wf() ==> final(self).wf(),
            action is Download || action is Delete ==> old(self).is_ready() && *final(self)
                == *old(self),
            action is Synchronize ==> final(self).cipher is Some,
            match message {
                Message::SocketAddrInputUpdate(text, address) => {
                    &&& action is Nothing
                    &&& final(self).socket_address == text
                    &&& final(self).address == address
                    &&& final(self).mode == old(self).mode
                    &&& final(self).cipher == old(self).cipher
                    &&& final(self).entries == old(self).entries
                },
                Message::SyncEvent => if old(self).mode != Mode::Initial {
                    *final(self) == *old(self) && action is Nothing
                } else if old(self).address is None {
                    *final(self) == *old(self) && action == Action::Report(Error::InvalidSocketAddr)
                } else {
                    &&& *final(self) == (Laptev { mode: Mode::Syncing, ..*old(self) })
                    &&& action matches Action::Authenticate(address, password)
                    &&& Some(address) == old(self).address
                    &&& password is Some <==> old(self).config.entries@.contains_key(address.ip)
                    &&& password is Some ==> password->0@ == old(self).config.entries@[address.ip]@
                },
                Message::SyncAttempt(outcome) => if old(self).mode != Mode::Syncing {
                    *final(self) == *old(self) && action is Nothing
                } else {
                    match outcome {
                        Ok(cipher) => if old(self).address is Some {
                            &&& *final(self) == (Laptev {
                                mode: Mode::Synced,
                                cipher: Some(cipher),
                                ..*old(self)
                            })
                            &&& action == Action::Synchronize(old(self).address->0, cipher)
                        } else {
                            &&& final(self).is_idle()
                            &&& final(self).socket_address == old(self).socket_address
                            &&& final(self).address == old(self).address
                            &&& action == Action::Report(Error::InvalidSocketAddr)
                        },
                        Err(e) => {
                            &&& final(self).is_idle()
                            &&& final(self).socket_address == old(self).socket_address
                            &&& final(self).address == old(self).address
                            &&& action == Action::Report(e)
                        },
                    }
                },
                Message::SyncOutput(outcome) => if old(self).mode != Mode::Synced
                    || old(self).cipher is None {
                    *final(self) == *old(self) && action is Nothing
                } else {
                    match outcome {
                        Ok(entries) => {
                            &&& *final(self) == (Laptev { entries: entries, ..*old(self) })
                            &&& action is Nothing
                        },
                        Err(e) => {
                            &&& final(self).is_idle()
                            &&& final(self).socket_address == old(self).socket_address
                            &&& final(self).address == old(self).address
                            &&& action == Action::Report(e)
                        },
                    }
                },
                Message::SyncRefresh => if old(self).is_ready() {
                    &&& final(self).mode == Mode::Synced
                    &&& final(self).entries@ == Seq::<Recording>::empty()
                    &&& final(self).cipher == old(self).cipher
                    &&& final(self).socket_address == old(self).socket_address
                    &&& final(self).address == old(self).address
                    &&& action == Action::Synchronize(old(self).address->0, old(self).cipher->0)
                } else {
                    *final(self) == *old(self) && action is Nothing
                },
                Message::Return => {
                    &&& final(self).is_idle()
                    &&& final(self).socket_address == old(self).socket_address
                    &&& final(self).address == old(self).address
                    &&& action is Nothing
                },
                Message::Download(id) => {
                    &&& *final(self) == *old(self)
                    &&& if old(self).is_ready() {
                        action == Action::Download(id, old(self).address->0, old(self).cipher->0)
                    } else {
                        action is Nothing
                    }
                },
                Message::Delete(id) => {
                    &&& *final(self) == *old(self)
                    &&& if old(self).is_ready() {
                        action == Action::Delete(id, old(self).address->0)
                    } else {
                        action is Nothing
                    }
                },
                Message::Finished(_) => *final(self) == *old(self) && action is Nothing,
            },
    {
        match message {
            Message::SocketAddrInputUpdate(text, address) => {
                self.socket_address = text;
                self.address = address;
                Action::Nothing
            },
            Message::SyncEvent => {
                if self.mode != Mode::Initial {
                    return Action::Nothing;
                }
                match self.get_socket_address() {
                    Ok(address) => {
                        self.mode = Mode::Syncing;
                        let password = match self.config.password_for(address.ip) {
                            Some(found) => Some(slice_to_vec(found.as_slice())),
                            None => None,
                        };
                        Action::Authenticate(address, password)
                    },
                    Err(e) => Action::Report(e),
                }
            },
            Message::SyncAttempt(outcome) => {
                if self.mode != Mode::Syncing {
                    return Action::Nothing;
                }
                match outcome {
                    Ok(cipher) => match self.get_socket_address() {
                        Ok(address) => {
                            self.cipher = Some(cipher);
                            self.mode = Mode::Synced;
                            Action::Synchronize(address, cipher)
                        },
                        Err(e) => {
                            self.clear();
                            Action::Report(e)
                        },
                    },
                    Err(e) => {
                        self.clear();
                        Action::Report(e)
                    },
                }
            },
            Message::SyncOutput(outcome) => {
                if self.mode != Mode::Synced || self.cipher.is_none() {
                    return Action::Nothing;
                }
                match outcome {
                    Ok(entries) => {
                        self.entries = entries;
                        Action::Nothing
                    },
                    Err(e) => {
                        self.clear();
                        Action::Report(e)
                    },
                }
            },
            Message::SyncRefresh => {
                if self.mode != Mode::Synced {
                    return Action::Nothing;
                }
                match (self.address, &self.cipher) {
                    (Some(address), Some(cipher)) => {
                        let cipher = *cipher;
                        self.entries.clear();
                        Action::Synchronize(address, cipher)
                    },
                    _ => Action::Nothing,
                }
            },
            Message::Return => {
                self.clear();
                Action::Nothing
            },
            Message::Download(id) => {
                if self.mode != Mode::Synced {
                    return Action::Nothing;
                }
                match (self.address, &self.cipher) {
                    (Some(address), Some(cipher)) => Action::Download(id, address, *cipher),
                    _ => Action::Nothing,
                }
            },
            Message::Delete(id) => {
                if self.mode != Mode::Synced {
                    return Action::Nothing;
                }
                match (self.address, &self.cipher) {
                    (Some(address), Some(_)) => Action::Delete(id, address),
                    _ => Action::Nothing,
                }
            },
            Message::Finished(_) => Action::Nothing,
        }
    }
}

/// The plaintext that a served answer carries for the holder of `key`, if
/// `plaintext` is it: the answer has status 200 and its body is an envelope
/// that carries `plaintext` sealed under `key`.
pub open spec fn answer_opens_to(
    response: Option<&Response>,
    key: Seq<u8>,
    plaintext: Seq<u8>,
) -> bool {
    &&& response is Some
    &&& response->0.status == STATUS_OK
    &&& decode_envelope(response->0.body@) is Some
    &&& decode_envelope(response->0.body@)->0.is_sealing_of(key, plaintext)
}

/// The failure that an answer stands for, if it stands for one before its
/// body is opened: no answer, a refusal, any status but 200, or a body that
/// is no envelope.
pub open spec fn answer_failure(response: Option<&Response>) -> Option<Error> {
    match response {
        None => Some(Error::ServerNotResponding),
        Some(answer) => if answer.status == STATUS_FORBIDDEN {
            Some(Error::Forbidden)
        } else if answer.status != STATUS_OK {
            Some(Error::Internal)
        } else if decode_envelope(answer.body@) is None {
            Some(Error::DecodeFailure)
        } else {
            None
        },
    }
}

/// Opens the host's answer to a request within a session.
///
/// The answer gives a plaintext exactly when it has status 200 and its body
/// is an envelope that carries that plaintext sealed under the session key.
/// Otherwise the failure is, in this order: `ServerNotResponding` without an
/// answer, `Forbidden` for status 403, `Internal` for any other status but
/// 200, `DecodeFailure` for a body that is no envelope, and `AuthFailure`
/// for an envelope that does not open under the session key.
pub fn open_answer(response: Option<&Response>, cipher: &SharedCipher) -> (r: Result<
    Vec<u8>,
    Error,
>)
    ensures
        match r {
            Ok(plaintext) => answer_opens_to(response, cipher@, plaintext@),
            Err(e) => match answer_failure(response) {
                Some(failure) => e == failure,
                None => e == Error::AuthFailure && forall|p: Seq<u8>|
                    !answer_opens_to(response, cipher@, p),
            },
        },
        forall|p: Seq<u8>| #[trigger]
            answer_opens_to(response, cipher@, p) ==> r is Ok && r->Ok_0@ == p,
{
    let answer = match response {
        Some(answer) => answer,
        None => {
            return Err(Error::ServerNotResponding);
        },
    };
    if answer.status == STATUS_FORBIDDEN {
        return Err(Error::Forbidden);
    }
    if answer.status != STATUS_OK {
        return Err(Error::Internal);
    }
    let message = match EncryptedMessage::try_from_bytes(answer.body.as_slice()) {
        Ok(message) => message,
        Err(_) => {
            return Err(Error::DecodeFailure);
        },
    };
    match message.try_decrypt(cipher.key()) {
        Ok(plaintext) => Ok(plaintext),
        Err(_) => Err(Error::AuthFailure),
    }
}

impl Laptev {
    /// Reads the host's answer to a request for the recording index.
    ///
    /// Gives the recordings exactly when the answer opens, as `open_answer`
    /// says, to an index on the wire. An answer that does not open fails as
    /// `open_answer` says, and one that opens to something else fails with
    /// `DecodeFailure`. An answer that carries the encoding of an index
    /// gives that index.
    pub fn sync(response: Option<&Response>, cipher: &SharedCipher) -> (r: Result<Entries, Error>)
        ensures
            match r {
                Ok(entries) => exists|plaintext: Seq<u8>| #[trigger]
                    answer_opens_to(response, cipher@, plaintext) && decode_index(plaintext)
                        == Some(entries@),
                Err(e) => match answer_failure(response) {
                    Some(failure) => e == failure,
                    None => (e == Error::AuthFailure && forall|p: Seq<u8>|
                        !answer_opens_to(response, cipher@, p)) || (e == Error::DecodeFailure
                        && exists|plaintext: Seq<u8>| #[trigger]
                        answer_opens_to(response, cipher@, plaintext) && decode_index(plaintext)
                            is None),
                },
            },
            forall|index: Seq<Recording>|
                encodable(index) && #[trigger] answer_opens_to(
                    response,
                    cipher@,
                    encode_index(index),
                ) ==> r is Ok && r->Ok_0@ == index,
    {
        let plaintext = match open_answer(response, cipher) {
            Ok(plaintext) => plaintext,
            Err(e) => {
                return Err(e);
            },
        };
        proof {
            assert forall|index: Seq<Recording>|
                encodable(index) && #[trigger] answer_opens_to(
                    response,
                    cipher@,
                    encode_index(index),
                ) implies decode_index(plaintext@) == Some(index) by {
                lemma_decode_index(index, Seq::empty());
                assert(encode_index(index) + Seq::<u8>::empty() =~= encode_index(index));
            }
        }
        Entries::from_bytes(plaintext.as_slice())
    }

    /// Reads the host's answer to a request for a video, and gives the
    /// bytes to store.
    ///
    /// Gives the video exactly when the answer opens to it, as `open_answer`
    /// says, and fails as `open_answer` says otherwise: of an answer that
    /// was tampered with nothing is given.
    pub fn download(response: Option<&Response>, cipher: &SharedCipher) -> (r: Result<
        Vec<u8>,
        Error,
    >)
        ensures
            match r {
                Ok(video) => answer_opens_to(response, cipher@, video@),
                Err(e) => match answer_failure(response) {
                    Some(failure) => e == failure,
                    None => e == Error::AuthFailure && forall|p: Seq<u8>|
                        !answer_opens_to(response, cipher@, p),
                },
            },
            forall|p: Seq<u8>| #[trigger]
                answer_opens_to(response, cipher@, p) ==> r is Ok && r->Ok_0@ == p,
    {
        open_answer(response, cipher)
    }

    /// Reads the status of the host's answer to a request to delete a
    /// recording, if there was an answer: fine for status 200,
    /// `ServerNotResponding` without an answer, `Forbidden` for status 403
    /// and `Internal` for any other.
    pub fn delete(status: Option<u16>) -> (r: Result<(), Error>)
        ensures
            r is Ok <==> status == Some(STATUS_OK),
            r matches Err(e) ==> e == (match status {
                None => Error::ServerNotResponding,
                Some(code) => if code == STATUS_FORBIDDEN {
                    Error::Forbidden
                } else {
                    Error::Internal
                },
            }),
    {
        match status {
            None => Err(Error::ServerNotResponding),
            Some(code) => {
                if code == STATUS_OK {
                    Ok(())
                } else if code == STATUS_FORBIDDEN {
                    Err(Error::Forbidden)
                } else {
                    Err(Error::Internal)
                }
            },
        }
    }
}

} // verus!
