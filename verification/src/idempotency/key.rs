use vstd::prelude::*;

verus! {

/// A key must be shorter than this many characters.
pub const MAX_KEY_LENGTH: usize = 50;

/// A key is valid when it is not empty and shorter than 50 characters.
pub open spec fn key_is_valid(key: Seq<char>) -> bool {
    0 < key.len() < MAX_KEY_LENGTH
}

/// Why a text was refused as an idempotency key.
#[derive(Debug, Clone, Copy, PartialEq, Eq, Structural)]
pub enum KeyError {
    Empty,
    TooLong,
}

impl KeyError {
    /// The refusal in words.
    pub open spec fn text(self) -> Seq<char> {
        match self {
            KeyError::Empty => "The idempotency key cannot be empty"@,
            KeyError::TooLong => "The idempotency key must be shorter than 50 characters"@,
        }
    }

    /// The refusal in words, for the client.
    pub fn message(&self) -> (message: String)
        ensures
            message@ == self.text(),
    {
        match self {
            KeyError::Empty => "The idempotency key cannot be empty".to_owned(),
            KeyError::TooLong => "The idempotency key must be shorter than 50 characters".to_owned(),
        }
    }
}

/// The token under which a client submits a request and submits it again:
/// a text that passed `try_from`.
#[derive(Debug)]
pub struct IdempotencyKey(String);

impl View for IdempotencyKey {
    type V = Seq<char>;

    closed spec fn view(&self) -> Seq<char> {
        self.0@
    }
}

impl IdempotencyKey {
    #[verifier::type_invariant]
    closed spec fn valid(self) -> bool {
        key_is_valid(self.0@)
    }

    /// Accepts `key` unchanged when it is valid, and otherwise says what is
    /// wrong with it.
    pub fn try_from(key: String) -> (parsed: Result<IdempotencyKey, KeyError>)
        ensures
            match parsed {
                Ok(accepted) => key_is_valid(key@) && accepted@ == key@,
                Err(KeyError::Empty) => key@.len() == 0,
                Err(KeyError::TooLong) => key@.len() >= MAX_KEY_LENGTH,
            },
    {
        let length = key.as_str().unicode_len();
        if length == 0 {
            Err(KeyError::Empty)
        } else if length >= MAX_KEY_LENGTH {
            Err(KeyError::TooLong)
        } else {
            Ok(IdempotencyKey(key))
        }
    }

    /// The key as text. Every key in existence is valid.
    pub fn as_ref(&self) -> (text: &str)
        ensures
            text@ == self@,
            key_is_valid(text@),
    {
        proof {
            use_type_invariant(self);
        }
        self.0.as_str()
    }

    /// The key as an owned text, borrowed.
    pub fn as_string(&self) -> (text: &String)
        ensures
            text@ == self@,
            key_is_valid(text@),
    {
        proof {
            use_type_invariant(self);
        }
        &self.0
    }
}

} // verus!
