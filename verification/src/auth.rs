//! How a client proves who it is: with nothing, with a name and a password,
//! or with the cookie that the node writes when it starts.

use crate::error::{CoreError, Error};
use vstd::prelude::*;
use vstd::string::StrSliceExecFns;

verus! {

/// Where the first `c` stands in `s`; the length of `s` if there is none.
pub open spec fn index_of(s: Seq<char>, c: char) -> int
    decreases s.len(),
{
    if s.len() == 0 {
        0
    } else if s[0] == c {
        0
    } else {
        1 + index_of(s.drop_first(), c)
    }
}

/// The first line of `text`: what stands before its first line feed, or all
/// of it if it has none.
pub open spec fn first_line(text: Seq<char>) -> Seq<char> {
    text.take(index_of(text, '\n'))
}

/// The name and the password that a cookie holds: what stands before and
/// after the first colon of its first line. A cookie without a colon there
/// holds none.
pub open spec fn cookie_of(text: Seq<char>) -> Option<(Seq<char>, Seq<char>)> {
    let line = first_line(text);
    let colon = index_of(line, ':');
    if colon < line.len() {
        Some((line.take(colon), line.skip(colon + 1)))
    } else {
        None
    }
}

/// `index_of` is a position in `s` or its length; `c` stands there and nowhere
/// before.
pub proof fn lemma_index_of(s: Seq<char>, c: char)
    ensures
        0 <= index_of(s, c) <= s.len(),
        forall|j: int| 0 <= j < index_of(s, c) ==> s[j] != c,
        index_of(s, c) < s.len() ==> s[index_of(s, c)] == c,
    decreases s.len(),
{
    if s.len() > 0 && s[0] != c {
        let rest = s.drop_first();
        lemma_index_of(rest, c);
        assert forall|j: int| 0 <= j < index_of(s, c) implies s[j] != c by {
            if j > 0 {
                assert(rest[j - 1] == s[j]);
            }
        }
    }
}

/// `index_of` is the one number that `lemma_index_of` describes.
pub proof fn lemma_index_of_is(s: Seq<char>, c: char, at: int)
    requires
        0 <= at <= s.len(),
        forall|j: int| 0 <= j < at ==> s[j] != c,
        at < s.len() ==> s[at] == c,
    ensures
        index_of(s, c) == at,
{
    lemma_index_of(s, c);
}

/// Where the ASCII character `needle` first stands among the first `limit`
/// characters of `s`; `limit` if it does not. With `ascii` set, `s` is
/// known to be ASCII and is read byte by byte.
fn find(s: &str, ascii: bool, needle: u8, limit: usize) -> (r: usize)
    requires
        ascii ==> s.is_ascii(),
        needle < 128,
        limit <= s@.len(),
    ensures
        r == index_of(s@.take(limit as int), needle as char),
{
    let mut i: usize = 0;
    while i < limit
        invariant
            i <= limit <= s@.len(),
            ascii ==> s.is_ascii(),
            needle < 128,
            forall|j: int| 0 <= j < i ==> s@[j] != needle as char,
        decreases limit - i,
    {
        let hit = if ascii {
            s.get_ascii(i) == needle
        } else {
            s.get_char(i) == needle as char
        };
        if hit {
            proof {
                lemma_index_of_is(s@.take(limit as int), needle as char, i as int);
            }
            return i;
        }
        i += 1;
    }
    proof {
        lemma_index_of_is(s@.take(limit as int), needle as char, limit as int);
    }
    limit
}

/// The characters of `s` from `from` up to `to`, as a string of their own.
fn part(s: &str, ascii: bool, from: usize, to: usize) -> (r: String)
    requires
        ascii ==> s.is_ascii(),
        from <= to <= s@.len(),
    ensures
        r@ == s@.subrange(from as int, to as int),
{
    if ascii {
        s.substring_ascii(from, to).to_owned()
    } else {
        s.substring_char(from, to).to_owned()
    }
}

/// The name and the password in the contents of a cookie file.
pub fn parse_cookie(contents: &str) -> (r: Option<(String, String)>)
    ensures
        match r {
            Some((user, pass)) => cookie_of(contents@) == Some((user@, pass@)),
            None => cookie_of(contents@) is None,
        },
{
    let ascii = contents.is_ascii();
    let len = contents.unicode_len();
    proof {
        assert(contents@.take(len as int) =~= contents@);
    }
    let end = find(contents, ascii, 10, len);
    proof {
        lemma_index_of(contents@, '\n');
    }
    let colon = find(contents, ascii, 58, end);
    proof {
        lemma_index_of(first_line(contents@), ':');
    }
    if colon < end {
        let user = part(contents, ascii, 0, colon);
        let pass = part(contents, ascii, colon + 1, end);
        Some((user, pass))
    } else {
        None
    }
}

/// The ways to authenticate.
#[derive(Debug, PartialEq)]
pub enum Auth {
    /// No authentication.
    Anonymous,
    /// A name and a password.
    UserPass(String, String),
    /// The contents of the node's cookie file.
    CookieFile(String),
}

/// The text of an optional string.
pub open spec fn text_of(s: Option<String>) -> Option<Seq<char>> {
    match s {
        Some(t) => Some(t@),
        None => None,
    }
}

impl Auth {
    /// The name and the password that this way of authenticating gives, or
    /// `None` where it is a cookie without a colon in its first line.
    pub open spec fn credentials(self) -> Option<(Option<Seq<char>>, Option<Seq<char>>)> {
        match self {
            Auth::Anonymous => Some((None, None)),
            Auth::UserPass(user, pass) => Some((Some(user@), Some(pass@))),
            Auth::CookieFile(contents) => match cookie_of(contents@) {
                Some((user, pass)) => Some((Some(user), Some(pass))),
                None => None,
            },
        }
    }

    /// The name and the password to use, if any.
    ///
    /// A cookie gives both, from its first line. It fails if that line has no
    /// colon.
    pub fn get_user_pass(self) -> (r: Result<(Option<String>, Option<String>), Error>)
        ensures
            match r {
                Ok((user, pass)) => self.credentials() == Some((text_of(user), text_of(pass))),
                Err(e) => self.credentials() is None && e == Error::BitcoinCoreRpcError(
                    CoreError::InvalidCookieFile,
                ),
            },
    {
        match self {
            Auth::Anonymous => Ok((None, None)),
            Auth::UserPass(user, pass) => Ok((Some(user), Some(pass))),
            Auth::CookieFile(contents) => match parse_cookie(contents.as_str()) {
                Some((user, pass)) => Ok((Some(user), Some(pass))),
                None => Err(Error::BitcoinCoreRpcError(CoreError::InvalidCookieFile)),
            },
        }
    }
}

} // verus!
