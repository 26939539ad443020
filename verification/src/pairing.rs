//! The pairing of a bot with the user who is to receive its messages: the
//! operator is shown a number and sends it to the bot; the chat from which
//! the number arrives becomes the recipient.

use rand::Rng;
use vstd::prelude::*;
use vstd::string::StringExecFns;
use crate::error::ErrorKind;
use crate::text::{decimal, decimal_string};

verus! {

/// Pairing codes are drawn from the numbers below this one.
pub const PAIRING_CODES: u32 = 99_999;

/// `Rng::gen_range` of rand, on the generator of the current thread: a
/// number from 0 up to, and not including, `high`. It panics where the range
/// is empty, so `high` must not be 0. Which number comes is left open.
#[verifier::external_body]
fn random_below(high: u32) -> (n: u32)
    requires
        high > 0,
    ensures
        n < high,
{
    rand::thread_rng().gen_range(0, high)
}

/// A message that arrived at the bot. `text` is `None` where the message
/// is not a text message.
#[derive(Debug, Clone, PartialEq, Eq)]
pub struct IncomingMessage {
    pub chat_id: i64,
    pub first_name: String,
    pub text: Option<String>,
}

/// An `IncomingMessage` in the contracts.
pub struct Incoming {
    pub chat_id: i64,
    pub first_name: Seq<char>,
    pub text: Option<Seq<char>>,
}

impl View for IncomingMessage {
    type V = Incoming;

    open spec fn view(&self) -> Incoming {
        Incoming {
            chat_id: self.chat_id,
            first_name: self.first_name@,
            text: match self.text {
                Some(t) => Some(t@),
                None => None,
            },
        }
    }
}

/// What the caller is to do after an update.
#[derive(Debug, Clone, PartialEq, Eq)]
pub enum PairingAction {
    /// Go on listening.
    Continue,
    /// A text arrived that is not the code: note whose it was, and go on
    /// listening.
    WrongNumber { first_name: String },
    /// The code arrived: tell the chat so with `text`, and stop listening.
    Confirm { chat_id: i64, text: String },
}

/// A `PairingAction` in the contracts.
pub enum PairingDecision {
    Continue,
    WrongNumber { first_name: Seq<char> },
    Confirm { chat_id: i64, text: Seq<char> },
}

impl View for PairingAction {
    type V = PairingDecision;

    open spec fn view(&self) -> PairingDecision {
        match *self {
            PairingAction::Continue => PairingDecision::Continue,
            PairingAction::WrongNumber { first_name } => PairingDecision::WrongNumber {
                first_name: first_name@,
            },
            PairingAction::Confirm { chat_id, text } => PairingDecision::Confirm {
                chat_id,
                text: text@,
            },
        }
    }
}

/// A pairing in the contracts.
pub struct PairingState {
    pub token: Seq<char>,
    pub code: u32,
    pub user_id: Option<i64>,
}

/// What an update decides: a text that reads as the code in decimal
/// notation pairs its chat; any other text is a wrong number; anything
/// else is passed over.
pub open spec fn decided(code: u32, update: Option<Incoming>) -> PairingDecision {
    match update {
        Some(message) => match message.text {
            Some(text) => if text == decimal(code as nat) {
                PairingDecision::Confirm { chat_id: message.chat_id, text: "correct number!"@ }
            } else {
                PairingDecision::WrongNumber { first_name: message.first_name }
            },
            None => PairingDecision::Continue,
        },
        None => PairingDecision::Continue,
    }
}

/// The state after an update: the chat that sent the code is bound.
pub open spec fn updated(state: PairingState, update: Option<Incoming>) -> PairingState {
    match decided(state.code, update) {
        PairingDecision::Confirm { chat_id, text } => PairingState {
            token: state.token,
            code: state.code,
            user_id: Some(chat_id),
        },
        _ => state,
    }
}

/// An update in the contracts.
pub open spec fn update_view(update: Option<IncomingMessage>) -> Option<Incoming> {
    match update {
        Some(message) => Some(message@),
        None => None,
    }
}

/// A pairing under way.
#[derive(Debug)]
pub struct Pairing {
    token: String,
    code: u32,
    user_id: Option<i64>,
}

impl View for Pairing {
    type V = PairingState;

    closed spec fn view(&self) -> PairingState {
        PairingState { token: self.token@, code: self.code, user_id: self.user_id }
    }
}

impl Pairing {
    /// A pairing for `token` with a code drawn at random.
    pub fn start(token: &str) -> (pairing: Pairing)
        ensures
            pairing@.token == token@,
            pairing@.code < PAIRING_CODES,
            pairing@.user_id is None,
    {
        Pairing::with_code(token, random_below(PAIRING_CODES))
    }

    /// A pairing for `token` with the given code.
    pub fn with_code(token: &str, code: u32) -> (pairing: Pairing)
        ensures
            pairing@ == (PairingState { token: token@, code, user_id: None }),
    {
        Pairing { token: String::from_str(token), code, user_id: None }
    }

    /// The code.
    pub fn code(&self) -> (code: u32)
        ensures
            code == self@.code,
    {
        self.code
    }

    /// The code as the operator is to send it.
    pub fn code_text(&self) -> (text: String)
        ensures
            text@ == decimal(self@.code as nat),
    {
        decimal_string(self.code as u64)
    }

    /// The chat that sent the code, once one has.
    pub fn user_id(&self) -> (user_id: Option<i64>)
        ensures
            user_id == self@.user_id,
    {
        self.user_id
    }

    /// Takes one update from the service, which may hold a message, and
    /// says what to do next.
    pub fn on_update(&mut self, update: Option<IncomingMessage>) -> (action: PairingAction)
        ensures
            action@ == decided(old(self)@.code, update_view(update)),
            final(self)@ == updated(old(self)@, update_view(update)),
    {
        match update {
            Some(message) => match message.text {
                Some(text) => {
                    if text == self.code_text() {
                        self.user_id = Some(message.chat_id);
                        PairingAction::Confirm {
                            chat_id: message.chat_id,
                            text: String::from_str("correct number!"),
                        }
                    } else {
                        PairingAction::WrongNumber { first_name: message.first_name }
                    }
                },
                None => PairingAction::Continue,
            },
            None => PairingAction::Continue,
        }
    }

    /// Ends the pairing: the token and the chat that sent the code, or an
    /// error where none did.
    pub fn finish(self) -> (paired: Result<(String, i64), ErrorKind>)
        ensures
            match paired {
                Ok((token, user_id)) => token@ == self@.token && self@.user_id == Some(user_id),
                Err(error) => self@.user_id is None && error is UserIdEmpty,
            },
    {
        match self.user_id {
            Some(user_id) => Ok((self.token, user_id)),
            None => Err(ErrorKind::UserIdEmpty),
        }
    }
}

} // verus!
