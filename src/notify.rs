//! Alert payload helpers: the signed webhook address and the keyword that
//! the chat robot requires in every message.
use vstd::prelude::*;
use vstd::string::*;
use vstd::utf8::encode_utf8;
use crate::signing::{sign_message, signature_of};

verus! {

/// A byte that form encoding keeps as it is: `*`, `-`, `.`, `0-9`, `A-Z`,
/// `_` or `a-z`.
pub open spec fn form_unchanged(b: u8) -> bool {
    b == 42 || b == 45 || b == 46 || (48 <= b <= 57) || (65 <= b <= 90) || b == 95 || (97 <= b
        <= 122)
}

/// Upper-case hexadecimal digit of `d < 16`.
pub open spec fn hex_upper(d: u8) -> char {
    if d < 10 {
        (48 + d) as u8 as char
    } else {
        (55 + d) as u8 as char
    }
}

/// Form encoding of one byte: kept, `+` for a space, else `%XX`.
pub open spec fn form_encoded_byte(b: u8) -> Seq<char> {
    if form_unchanged(b) {
        seq![b as char]
    } else if b == 32 {
        seq!['+']
    } else {
        seq!['%', hex_upper(b / 16), hex_upper(b % 16)]
    }
}

/// `application/x-www-form-urlencoded` serialization of a byte string.
pub open spec fn form_encoded(bytes: Seq<u8>) -> Seq<char>
    decreases bytes.len(),
{
    if bytes.len() == 0 {
        Seq::empty()
    } else {
        form_encoded(bytes.drop_last()) + form_encoded_byte(bytes.last())
    }
}

/// Relies on `url::form_urlencoded::byte_serialize`: it yields unchanged
/// runs of `* - . 0-9 A-Z _ a-z` as they are, `+` for a space and `%XX`
/// (upper-case hex) for any other byte; the pieces are joined.
#[verifier::external_body]
fn form_urlencode(bytes: &[u8]) -> (r: String)
    ensures
        r@ == form_encoded(bytes@),
{
    url::form_urlencoded::byte_serialize(bytes).collect()
}

/// `needle` occurs in `hay` starting at `i`.
pub open spec fn occurs_at(hay: Seq<char>, needle: Seq<char>, i: int) -> bool {
    0 <= i && i + needle.len() <= hay.len() && hay.subrange(i, i + needle.len()) == needle
}

pub open spec fn contains_text(hay: Seq<char>, needle: Seq<char>) -> bool {
    exists|i: int| occurs_at(hay, needle, i)
}

fn chars_of(s: &str) -> (r: Vec<char>)
    ensures
        r@ == s@,
{
    let n = s.unicode_len();
    let mut out: Vec<char> = Vec::new();
    let mut i: usize = 0;
    while i < n
        invariant
            n == s@.len(),
            i <= n,
            out@ == s@.take(i as int),
        decreases n - i,
    {
        out.push(s.get_char(i));
        proof {
            assert(s@.take(i + 1) =~= s@.take(i as int).push(s@[i as int]));
        }
        i = i + 1;
    }
    proof {
        assert(s@.take(n as int) =~= s@);
    }
    out
}

fn matches_at(hay: &Vec<char>, needle: &Vec<char>, i: usize) -> (r: bool)
    requires
        i + needle@.len() <= hay@.len(),
    ensures
        r == occurs_at(hay@, needle@, i as int),
{
    let hl = hay.len();
    let mut j: usize = 0;
    while j < needle.len()
        invariant
            hl == hay@.len(),
            i + needle@.len() <= hay@.len(),
            j <= needle@.len(),
            forall|k: int| 0 <= k < j ==> hay@[i + k] == needle@[k],
        decreases needle.len() - j,
    {
        if hay[i + j] != needle[j] {
            proof {
                assert(hay@.subrange(i as int, i + needle@.len())[j as int] != needle@[j as int]);
            }
            return false;
        }
        j = j + 1;
    }
    proof {
        assert(hay@.subrange(i as int, i + needle@.len()) =~= needle@);
    }
    true
}

/// Whether `needle` occurs in `hay`.
pub fn contains(hay: &str, needle: &str) -> (r: bool)
    ensures
        r == contains_text(hay@, needle@),
{
    let h = chars_of(hay);
    let n = chars_of(needle);
    if n.len() > h.len() {
        return false;
    }
    let last = h.len() - n.len();
    let mut i: usize = 0;
    while i <= last
        invariant
            h@ == hay@,
            n@ == needle@,
            last == h@.len() - n@.len(),
            n@.len() <= h@.len(),
            forall|k: int| 0 <= k < i ==> !occurs_at(hay@, needle@, k),
        decreases last + 1 - i,
    {
        if matches_at(&h, &n, i) {
            return true;
        }
        if i == last {
            return false;
        }
        i = i + 1;
    }
    false
}

/// The message with the keyword appended in brackets, unless the keyword
/// is empty or already there.
pub open spec fn with_keyword(content: Seq<char>, keyword: Seq<char>) -> Seq<char> {
    if keyword.len() == 0 || contains_text(content, keyword) {
        content
    } else {
        content + "\n\n["@ + keyword + "]"@
    }
}

/// Makes sure the message carries the keyword that the robot filters on.
pub fn attach_keyword(content: &str, keyword: &str) -> (r: String)
    ensures
        r@ == with_keyword(content@, keyword@),
{
    if keyword.unicode_len() == 0 || contains(content, keyword) {
        return String::from_str(content);
    }
    let mut out = String::from_str(content);
    out.append("\n\n[");
    out.append(keyword);
    out.append("]");
    out
}

/// The webhook address with a timestamp and the URL-encoded signature of
/// `timestamp "\n" secret` under the secret; the bare address when no
/// secret is set.
pub open spec fn signed_url(webhook: Seq<char>, secret: Seq<char>, timestamp: Seq<char>) -> Seq<
    char,
> {
    if secret.len() == 0 {
        webhook
    } else {
        let sign = form_encoded(
            encode_utf8(signature_of(secret, timestamp + "\n"@ + secret)),
        );
        let sep = if contains_text(webhook, "?"@) {
            "&"@
        } else {
            "?"@
        };
        webhook + sep + "timestamp="@ + timestamp + "&sign="@ + sign
    }
}

/// Signed webhook address for the alert robot.
pub fn get_signed_url(webhook: &str, secret: &str, timestamp: &str) -> (r: String)
    ensures
        r@ == signed_url(webhook@, secret@, timestamp@),
{
    if secret.unicode_len() == 0 {
        return String::from_str(webhook);
    }
    let mut to_sign = String::from_str(timestamp);
    to_sign.append("\n");
    to_sign.append(secret);
    let signature = sign_message(secret, to_sign.as_str());
    let encoded = form_urlencode(signature.as_str().as_bytes());
    let mut out = String::from_str(webhook);
    if contains(webhook, "?") {
        out.append("&");
    } else {
        out.append("?");
    }
    out.append("timestamp=");
    out.append(timestamp);
    out.append("&sign=");
    out.append(encoded.as_str());
    out
}

} // verus!
