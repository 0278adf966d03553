use vstd::prelude::*;

use crate::text::{chars_of, last_line, last_line_bounds};
use vstd::utf8::{encode_utf8, is_ascii_chars, is_ascii_chars_encode_utf8, is_char_boundary};

verus! {

/// Why the chat buffer could not be looked at.
#[derive(Debug)]
pub enum NotificationError {
    /// The buffer holds no line at all ("Unable to read memory, client closed
    /// or not logged in?").
    Unreadable,
}

/// The bytes of the prefix that system notices start with.
pub open spec fn notice_bytes() -> Seq<u8> {
    encode_utf8("[Notice]"@)
}

/// A last line that can be looked at without a panic: it is not empty, and
/// when it starts with `[` its first eight bytes end on a character boundary.
pub open spec fn checkable(m: Seq<char>) -> bool {
    &&& m.len() > 0
    &&& m[0] == '[' ==> encode_utf8(m).len() >= 8 && is_char_boundary(encode_utf8(m), 8)
}

/// The line is a message worth a notification: it starts with `[`, its first
/// eight bytes are not `[Notice]`, and it differs from the one last reported.
pub open spec fn is_fresh(m: Seq<char>, last: Seq<char>) -> bool {
    &&& m[0] == '['
    &&& encode_utf8(m).take(8) != notice_bytes()
    &&& m != last
}

/// What looking at the buffer gives: `None` when it has no line, else the
/// message to report, if any.
pub open spec fn notification_outcome(buffer: Seq<char>, last: Seq<char>) -> Option<
    Option<Seq<char>>,
> {
    match last_line(buffer) {
        None => None,
        Some(m) => if is_fresh(m, last) {
            Some(Some(m))
        } else {
            Some(None)
        },
    }
}

fn prefix_equals(bytes: &[u8], n: usize, other: &[u8]) -> (b: bool)
    requires
        n <= bytes@.len(),
    ensures
        b == (bytes@.take(n as int) == other@),
{
    if other.len() != n {
        assert(bytes@.take(n as int).len() != other@.len());
        return false;
    }
    let mut i: usize = 0;
    while i < n
        invariant
            i <= n <= bytes@.len(),
            other@.len() == n,
            forall|j: int| 0 <= j < i ==> bytes@[j] == other@[j],
        decreases n - i,
    {
        if bytes[i] != other[i] {
            assert(bytes@.take(n as int)[i as int] != other@[i as int]);
            return false;
        }
        i = i + 1;
    }
    assert(bytes@.take(n as int) =~= other@);
    true
}

/// One look at the client's chat buffer: the last line of `buffer` is
/// reported when it is a fresh message (see [`is_fresh`]) compared with
/// `last_message`, the message reported before.
pub fn notification(buffer: &str, last_message: &String) -> (r: Result<
    Option<String>,
    NotificationError,
>)
    requires
        last_line(buffer@) matches Some(m) ==> checkable(m),
    ensures
        match notification_outcome(buffer@, last_message@) {
            None => r matches Err(NotificationError::Unreadable),
            Some(None) => r matches Ok(None),
            Some(Some(m)) => r matches Ok(Some(s)) && s@ == m,
        },
        r matches Ok(Some(s)) ==> last_line(buffer@) == Some(s@) && s@[0] == '[' && s@
            != last_message@,
        last_line(buffer@) matches Some(m) ==> (m[0] == '[' && m != last_message@ && encode_utf8(
            m,
        ).take(8) != seq![0x5bu8, 0x4eu8, 0x6fu8, 0x74u8, 0x69u8, 0x63u8, 0x65u8, 0x5du8] ==> (
        r matches Ok(Some(s)) && s@ == m)),
{
    proof {
        if last_line(buffer@) is Some {
            lemma_fresh_line_reported(buffer@, last_message@);
        }
        lemma_reported_line_is_fresh(buffer@, last_message@);
    }
    let chars = chars_of(buffer);
    let (k, end) = match last_line_bounds(&chars) {
        None => {
            return Err(NotificationError::Unreadable);
        },
        Some(b) => b,
    };
    let line: &str = buffer.substring_char(k, end);
    if line.get_char(0) != '[' {
        return Ok(None);
    }
    let bytes = line.as_bytes();
    let notice = "[Notice]";
    if prefix_equals(bytes, 8, notice.as_bytes()) {
        return Ok(None);
    }
    let message = line.to_owned();
    if message == *last_message {
        Ok(None)
    } else {
        Ok(Some(message))
    }
}

/// A message that has just been reported is not reported again when the
/// buffer has not changed.
pub proof fn lemma_reported_once(buffer: Seq<char>, last: Seq<char>)
    requires
        notification_outcome(buffer, last) is Some,
        notification_outcome(buffer, last).unwrap() is Some,
    ensures
        notification_outcome(buffer, notification_outcome(buffer, last).unwrap().unwrap())
            == Some(None::<Seq<char>>),
{
}

/// The bytes of `[Notice]`, in ASCII.
pub proof fn lemma_notice_bytes()
    ensures
        notice_bytes() == seq![0x5bu8, 0x4eu8, 0x6fu8, 0x74u8, 0x69u8, 0x63u8, 0x65u8, 0x5du8],
{
    reveal_strlit("[Notice]");
    let c = "[Notice]"@;
    assert(is_ascii_chars(c));
    is_ascii_chars_encode_utf8(c);
    assert(notice_bytes() =~= seq![0x5bu8, 0x4eu8, 0x6fu8, 0x74u8, 0x69u8, 0x63u8, 0x65u8, 0x5du8]);
}

/// A last line that starts with `[`, whose first eight bytes are not
/// `[Notice]`, and whose text differs from the message reported before is
/// reported.
pub proof fn lemma_fresh_line_reported(buffer: Seq<char>, last: Seq<char>)
    ensures
        (last_line(buffer) matches Some(m) && m[0] == '[' && m != last && encode_utf8(m).take(8)
            != seq![0x5bu8, 0x4eu8, 0x6fu8, 0x74u8, 0x69u8, 0x63u8, 0x65u8, 0x5du8])
            ==> notification_outcome(buffer, last) == Some(Some(last_line(buffer).unwrap())),
{
    lemma_notice_bytes();
}

/// What is reported is the last line of the buffer; it starts with `[`, its
/// first eight bytes are not `[Notice]`, and its text differs from the message
/// reported before.
pub proof fn lemma_reported_line_is_fresh(buffer: Seq<char>, last: Seq<char>)
    ensures
        notification_outcome(buffer, last) matches Some(Some(m)) ==> last_line(buffer) == Some(m)
            && m[0] == '[' && m != last && encode_utf8(m).take(8) != seq![
            0x5bu8,
            0x4eu8,
            0x6fu8,
            0x74u8,
            0x69u8,
            0x63u8,
            0x65u8,
            0x5du8,
        ],
{
    lemma_notice_bytes();
}

/// Without a line in the buffer there is nothing to report, and a line that
/// does not start with `[`, or that is a notice, is never reported.
pub proof fn lemma_other_lines_not_reported(buffer: Seq<char>, last: Seq<char>)
    ensures
        last_line(buffer) is None ==> notification_outcome(buffer, last) is None,
        last_line(buffer) matches Some(m) && (m[0] != '[' || m == last || encode_utf8(m).take(8)
            == seq![0x5bu8, 0x4eu8, 0x6fu8, 0x74u8, 0x69u8, 0x63u8, 0x65u8, 0x5du8])
            ==> notification_outcome(buffer, last) == Some(None::<Seq<char>>),
{
    lemma_notice_bytes();
}

} // verus!
