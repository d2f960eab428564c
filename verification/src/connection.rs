//! Validated domain values: user names, user messages and peers.

use crate::address::SocketAddress;
use crate::text::{fitting_prefix, floor_char_boundary, lemma_encode_concat, lemma_fitting_prefix};
use vstd::prelude::*;
use vstd::string::*;
use vstd::utf8::*;

verus! {

/// The largest user name, in bytes of UTF-8.
pub const MAX_USERNAME_LEN: usize = 100;

/// The largest user message, in bytes of UTF-8.
pub const MAX_MESSAGE_LEN: usize = 1000;

/// The number of bytes that the UTF-8 encoding of `text` takes.
pub open spec fn byte_len(text: Seq<char>) -> nat {
    encode_utf8(text).len()
}

/// What a user name must satisfy: between 1 and 100 bytes of UTF-8.
pub open spec fn valid_username(text: Seq<char>) -> bool {
    1 <= byte_len(text) <= MAX_USERNAME_LEN
}

/// What a user message must satisfy: at most 1000 bytes of UTF-8.
pub open spec fn valid_user_message(text: Seq<char>) -> bool {
    byte_len(text) <= MAX_MESSAGE_LEN
}

/// Why a string is no user name.
#[derive(Clone, Copy, Debug, PartialEq, Eq, Structural)]
pub enum UsernameError {
    /// The string is empty.
    Empty,
    /// The string is longer than 100 bytes.
    TooLong,
}

/// The name a peer announces itself under: 1 to 100 bytes of UTF-8.
#[derive(Debug, PartialEq, Eq, PartialOrd, Ord)]
pub struct Username(String);

impl View for Username {
    type V = Seq<char>;

    closed spec fn view(&self) -> Seq<char> {
        self.0@
    }
}

impl Clone for Username {
    fn clone(&self) -> (r: Self)
        ensures
            r == *self,
    {
        proof {
            use_type_invariant(self);
        }
        Username(self.0.clone())
    }
}

impl Username {
    #[verifier::type_invariant]
    spec fn inv(self) -> bool {
        valid_username(self.0@)
    }

    /// The invariant of every user name.
    pub open spec fn wf(self) -> bool {
        valid_username(self@)
    }

    /// Validates `name` as a user name.
    pub fn new(name: String) -> (r: Result<Self, UsernameError>)
        ensures
            match r {
                Ok(username) => valid_username(name@) && username@ == name@,
                Err(UsernameError::Empty) => byte_len(name@) == 0,
                Err(UsernameError::TooLong) => byte_len(name@) > MAX_USERNAME_LEN,
            },
    {
        Self::try_from(name)
    }

    /// Validates `value` as a user name.
    pub fn try_from(value: String) -> (r: Result<Self, UsernameError>)
        ensures
            match r {
                Ok(username) => valid_username(value@) && username@ == value@,
                Err(UsernameError::Empty) => byte_len(value@) == 0,
                Err(UsernameError::TooLong) => byte_len(value@) > MAX_USERNAME_LEN,
            },
    {
        let len: usize = value.as_str().as_bytes().len();
        if len == 0 {
            Err(UsernameError::Empty)
        } else if len <= MAX_USERNAME_LEN {
            Ok(Username(value))
        } else {
            Err(UsernameError::TooLong)
        }
    }

    /// The name as a string slice.
    pub fn as_str(&self) -> (r: &str)
        ensures
            r@ == self@,
            valid_username(r@),
    {
        proof {
            use_type_invariant(self);
        }
        self.0.as_str()
    }

    /// The name as an owned string.
    pub fn into_string(self) -> (r: String)
        ensures
            r@ == self@,
            valid_username(r@),
    {
        proof {
            use_type_invariant(&self);
        }
        self.0
    }
}

/// A peer as a mathematical value.
pub struct PeerView {
    pub address: SocketAddress,
    pub name: Option<Seq<char>>,
}

/// A host of the network: its address and, once it has announced itself,
/// its name.
#[derive(Debug, PartialEq, Eq, PartialOrd, Ord)]
pub struct Peer {
    address: SocketAddress,
    name: Option<Username>,
}

impl View for Peer {
    type V = PeerView;

    closed spec fn view(&self) -> PeerView {
        PeerView {
            address: self.address,
            name: match self.name {
                Some(name) => Some(name@),
                None => None,
            },
        }
    }
}

impl Clone for Peer {
    fn clone(&self) -> (r: Self)
        ensures
            r@ == self@,
    {
        let name = match &self.name {
            Some(name) => Some(name.clone()),
            None => None,
        };
        Peer { address: self.address, name }
    }
}

impl Peer {
    /// A peer of which only the address is known.
    pub fn new(address: SocketAddress) -> (r: Self)
        ensures
            r@ == (PeerView { address, name: None }),
    {
        Peer { address, name: None }
    }

    /// A peer that announced itself as `name`.
    pub fn new_with_name(address: SocketAddress, name: Username) -> (r: Self)
        ensures
            r@ == (PeerView { address, name: Some(name@) }),
    {
        Peer { address, name: Some(name) }
    }

    /// The address of the peer.
    pub fn address(&self) -> (r: SocketAddress)
        ensures
            r == self@.address,
    {
        self.address
    }

    /// The name of the peer, if it announced one.
    pub fn name(&self) -> (r: Option<&Username>)
        ensures
            match r {
                Some(name) => self@.name == Some(name@),
                None => self@.name is None,
            },
    {
        self.name.as_ref()
    }
}

/// Why a string is no user message.
#[derive(Clone, Copy, Debug, PartialEq, Eq, Structural)]
pub enum UserMessageError {
    /// The string is longer than 1000 bytes.
    TooLong,
}

/// A message that a user offers to a peer: at most 1000 bytes of UTF-8.
#[derive(Debug, PartialEq, Eq, PartialOrd, Ord)]
pub struct UserMessage(String);

impl View for UserMessage {
    type V = Seq<char>;

    closed spec fn view(&self) -> Seq<char> {
        self.0@
    }
}

impl Clone for UserMessage {
    fn clone(&self) -> (r: Self)
        ensures
            r == *self,
    {
        proof {
            use_type_invariant(self);
        }
        UserMessage(self.0.clone())
    }
}

impl Default for UserMessage {
    fn default() -> (r: Self)
        ensures
            r@ == Seq::<char>::empty(),
    {
        let text = String::new();
        assert(encode_utf8(text@) =~= Seq::<u8>::empty());
        UserMessage(text)
    }
}

impl UserMessage {
    #[verifier::type_invariant]
    spec fn inv(self) -> bool {
        valid_user_message(self.0@)
    }

    /// The invariant of every user message.
    pub open spec fn wf(self) -> bool {
        valid_user_message(self@)
    }

    /// Validates `value` as a user message.
    pub fn try_from(value: String) -> (r: Result<Self, UserMessageError>)
        ensures
            match r {
                Ok(message) => valid_user_message(value@) && message@ == value@,
                Err(UserMessageError::TooLong) => byte_len(value@) > MAX_MESSAGE_LEN,
            },
    {
        if value.as_str().as_bytes().len() <= MAX_MESSAGE_LEN {
            Ok(UserMessage(value))
        } else {
            Err(UserMessageError::TooLong)
        }
    }

    /// Whether the user may edit the message: always.
    pub fn is_mutable(&self) -> (r: bool)
        ensures
            r,
    {
        true
    }

    /// The message as a string slice.
    pub fn as_str(&self) -> (r: &str)
        ensures
            r@ == self@,
            valid_user_message(r@),
    {
        proof {
            use_type_invariant(self);
        }
        self.0.as_str()
    }

    /// The message as an owned string.
    pub fn into_string(self) -> (r: String)
        ensures
            r@ == self@,
            valid_user_message(r@),
    {
        proof {
            use_type_invariant(&self);
        }
        self.0
    }

    /// Inserts `text` before the character at `char_index`, or at the end
    /// where the message has fewer characters, and returns the number of
    /// characters inserted.
    ///
    /// The text is cut, at a character boundary, to what the message still
    /// has room for.
    pub fn insert_text(&mut self, text: &str, char_index: usize) -> (r: usize)
        ensures
            final(self)@ == inserted_at(
                old(self)@,
                fitting_prefix(text@, MAX_MESSAGE_LEN - byte_len(old(self)@)),
                char_index as int,
            ),
            r == fitting_prefix(text@, MAX_MESSAGE_LEN - byte_len(old(self)@)).len(),
    {
        proof {
            use_type_invariant(&*self);
            encode_utf8_valid_utf8(text@);
            encode_utf8_decode_utf8(text@);
        }
        let ghost before = self.0@;
        let ghost bytes = encode_utf8(text@);
        let own_len: usize = self.0.as_str().as_bytes().len();
        let text_len: usize = text.as_bytes().len();
        let budget: usize = MAX_MESSAGE_LEN - own_len;
        let limit: usize = if text_len <= budget {
            text_len
        } else {
            budget
        };
        let mut cut: usize = limit;
        while !text.is_char_boundary(cut)
            invariant
                cut <= limit <= bytes.len(),
                bytes == encode_utf8(text@),
                bytes == text.spec_bytes(),
                valid_utf8(bytes),
                floor_char_boundary(bytes, limit as int) == floor_char_boundary(bytes, cut as int),
            decreases cut,
        {
            proof {
                is_char_boundary_start_end_of_seq(bytes);
            }
            cut = cut - 1;
        }
        let (head, _) = text.split_at(cut);
        proof {
            is_char_boundary_start_end_of_seq(bytes);
            assert(floor_char_boundary(bytes, limit as int) == cut);
            encode_utf8_decode_utf8(head@);
            assert(head@ == fitting_prefix(text@, budget as int));
            lemma_fitting_prefix(text@, budget as int);
        }
        let count: usize = self.0.as_str().unicode_len();
        let at: usize = if char_index <= count {
            char_index
        } else {
            count
        };
        let mut edited = String::from_str(self.0.as_str().substring_char(0, at));
        edited.append(head);
        edited.append(self.0.as_str().substring_char(at, count));
        proof {
            let front = before.subrange(0, at as int);
            let back = before.subrange(at as int, count as int);
            assert(before =~= front + back);
            lemma_encode_concat(front, back);
            lemma_encode_concat(front, head@);
            lemma_encode_concat(front + head@, back);
            assert(edited@ =~= inserted_at(before, head@, char_index as int));
        }
        self.0 = edited;
        head.unicode_len()
    }

    /// Deletes the characters from `char_range.start` up to, not including,
    /// `char_range.end`; what lies beyond the end of the message is not
    /// there to delete.
    pub fn delete_char_range(&mut self, char_range: core::ops::Range<usize>)
        requires
            char_range.start <= char_range.end,
        ensures
            final(self)@ == without_range(
                old(self)@,
                char_range.start as int,
                char_range.end as int,
            ),
    {
        proof {
            use_type_invariant(&*self);
        }
        let ghost before = self.0@;
        let count: usize = self.0.as_str().unicode_len();
        let start: usize = if char_range.start <= count {
            char_range.start
        } else {
            count
        };
        let end: usize = if char_range.end <= count {
            char_range.end
        } else {
            count
        };
        let mut edited = String::from_str(self.0.as_str().substring_char(0, start));
        edited.append(self.0.as_str().substring_char(end, count));
        proof {
            let front = before.subrange(0, start as int);
            let middle = before.subrange(start as int, end as int);
            let back = before.subrange(end as int, count as int);
            assert(before =~= front + middle + back);
            lemma_encode_concat(front, back);
            lemma_encode_concat(front, middle);
            lemma_encode_concat(front + middle, back);
            assert(edited@ =~= without_range(before, char_range.start as int, char_range.end as int));
        }
        self.0 = edited;
    }
}

/// `text` with `inserted` put before its character at `char_index`, or at
/// its end where it has fewer characters.
pub open spec fn inserted_at(text: Seq<char>, inserted: Seq<char>, char_index: int) -> Seq<char> {
    let at = if char_index <= text.len() {
        char_index
    } else {
        text.len() as int
    };
    text.subrange(0, at) + inserted + text.subrange(at, text.len() as int)
}

/// `text` without its characters from `start` up to, not including, `end`.
pub open spec fn without_range(text: Seq<char>, start: int, end: int) -> Seq<char> {
    let len = text.len() as int;
    let from = if start <= len {
        start
    } else {
        len
    };
    let to = if end <= len {
        end
    } else {
        len
    };
    text.subrange(0, from) + text.subrange(to, len)
}

} // verus!
