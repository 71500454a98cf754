//! Replies to commands and their text on the wire.

use vstd::prelude::*;
use vstd::string::StringExecFns;
use vstd::utf8::encode_utf8;

verus! {

/// A reply to one command.
#[derive(Debug)]
pub enum Reply {
    /// The answer to a ping.
    Pong,
    /// A value was stored.
    Stored,
    /// A text: an echo, or the value found under a key.
    Bulk(String),
    /// No value was found under the key.
    Null,
    /// The command, a bare word, is not one that the server knows.
    NotImplemented(String),
}

/// The text of one decimal digit.
pub open spec fn digit_text(d: nat) -> Seq<char> {
    if d == 0 {
        "0"@
    } else if d == 1 {
        "1"@
    } else if d == 2 {
        "2"@
    } else if d == 3 {
        "3"@
    } else if d == 4 {
        "4"@
    } else if d == 5 {
        "5"@
    } else if d == 6 {
        "6"@
    } else if d == 7 {
        "7"@
    } else if d == 8 {
        "8"@
    } else {
        "9"@
    }
}

/// A number in decimal, without leading zeros.
pub open spec fn decimal_text(n: nat) -> Seq<char>
    decreases n,
{
    if n < 10 {
        digit_text(n)
    } else {
        decimal_text(n / 10) + digit_text(n % 10)
    }
}

/// The text of a bulk reply: a dollar sign, the number of bytes of the text
/// in UTF-8, a line end, the text, a line end.
pub open spec fn bulk_text(text: Seq<char>) -> Seq<char> {
    "$"@ + decimal_text(encode_utf8(text).len()) + "\r\n"@ + text + "\r\n"@
}

impl Reply {
    /// The reply as it goes over the wire.
    pub open spec fn wire(&self) -> Seq<char> {
        match self {
            Reply::Pong => "+PONG\r\n"@,
            Reply::Stored => "+OK\r\n"@,
            Reply::Bulk(text) => bulk_text(text@),
            Reply::Null => "$-1\r\n"@,
            Reply::NotImplemented(word) => "-ERROR '"@ + word@ + "' not implemented\r\n"@,
        }
    }

    /// Writes the reply out as it goes over the wire.
    pub fn encode(&self) -> (text: String)
        ensures
            text@ == self.wire(),
    {
        match self {
            Reply::Pong => "+PONG\r\n".to_owned(),
            Reply::Stored => "+OK\r\n".to_owned(),
            Reply::Bulk(value) => {
                let mut text: String = "$".to_owned();
                let size: usize = value.as_str().as_bytes().len();
                append_decimal(&mut text, size);
                text.append("\r\n");
                text.append(value.as_str());
                text.append("\r\n");
                assert(text@ =~= bulk_text(value@));
                text
            },
            Reply::Null => "$-1\r\n".to_owned(),
            Reply::NotImplemented(word) => {
                let mut text: String = "-ERROR '".to_owned();
                text.append(word.as_str());
                text.append("' not implemented\r\n");
                assert(text@ =~= self.wire());
                text
            },
        }
    }
}

/// The text of one decimal digit.
fn digit_str(d: usize) -> (text: &'static str)
    requires
        d < 10,
    ensures
        text@ == digit_text(d as nat),
{
    if d == 0 {
        "0"
    } else if d == 1 {
        "1"
    } else if d == 2 {
        "2"
    } else if d == 3 {
        "3"
    } else if d == 4 {
        "4"
    } else if d == 5 {
        "5"
    } else if d == 6 {
        "6"
    } else if d == 7 {
        "7"
    } else if d == 8 {
        "8"
    } else {
        "9"
    }
}

/// Appends a number in decimal to the text.
pub fn append_decimal(text: &mut String, n: usize)
    ensures
        final(text)@ == old(text)@ + decimal_text(n as nat),
    decreases n,
{
    if n >= 10 {
        append_decimal(text, n / 10);
    }
    text.append(digit_str(n % 10));
}

} // verus!
