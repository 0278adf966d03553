use vstd::prelude::*;

use crate::config::{Client, Setup};
use crate::text::{chars_of, parse_unsigned, parse_unsigned_prefix, trim_end, trimmed_len};

verus! {

/// Why a line typed at a prompt was refused.
#[derive(Debug)]
pub enum InputError {
    /// The line, without its trailing whitespace, is not a number that is
    /// accepted here ("... is numberwang!").
    NotANumber(String),
    /// The number is larger than the largest choice offered ("... is too high!").
    TooHigh(usize),
}

/// The number that `line.trim_end().parse()` gives for an unsigned integer
/// type whose largest value is `max`, if any.
pub open spec fn parsed_number(line: Seq<char>, max: nat) -> Option<nat> {
    parse_unsigned(trim_end(line), 10, max)
}

/// What choosing among the entries `0..=bound` gives for the typed `line`.
pub open spec fn selection_result(r: Result<usize, InputError>, line: Seq<char>, bound: nat) -> bool {
    match parsed_number(line, usize::MAX as nat) {
        None => r matches Err(InputError::NotANumber(t)) && t@ == trim_end(line),
        Some(n) => if n <= bound {
            r matches Ok(m) && m == n
        } else {
            r matches Err(InputError::TooHigh(m)) && m == n
        },
    }
}

/// The line without its trailing whitespace, as an owned string.
fn trimmed_text(line: &str, chars: &Vec<char>, len: usize) -> (r: String)
    requires
        chars@ == line@,
        len <= chars.len(),
    ensures
        r@ == chars@.take(len as int),
{
    line.substring_char(0, len).to_owned()
}

/// Parses `line` as a number to choose with: the trimmed line must be a
/// decimal `usize`, and it is accepted when it is at most `bound`.
pub fn parse_selection(line: &str, bound: usize) -> (r: Result<usize, InputError>)
    ensures
        selection_result(r, line@, bound as nat),
        r matches Ok(n) ==> n <= bound && parsed_number(line@, usize::MAX as nat) == Some(
            n as nat,
        ),
        r matches Err(InputError::TooHigh(n)) ==> n > bound && parsed_number(
            line@,
            usize::MAX as nat,
        ) == Some(n as nat),
        r matches Err(InputError::NotANumber(t)) ==> parsed_number(line@, usize::MAX as nat) is None
            && t@ == trim_end(line@),
{
    let chars = chars_of(line);
    let len = trimmed_len(&chars);
    match parse_unsigned_prefix(&chars, len, 10, usize::MAX as u64) {
        None => Err(InputError::NotANumber(trimmed_text(line, &chars, len))),
        Some(v) => {
            let n = v as usize;
            if n <= bound {
                Ok(n)
            } else {
                Err(InputError::TooHigh(n))
            }
        },
    }
}

/// The mode chosen at the start: 0 spammer, 1 collector, 2 kitebot,
/// 3 dungeon teleporter, 4 notifications.
pub fn mode_select(line: &str) -> (r: Result<u8, InputError>)
    ensures
        match parsed_number(line@, usize::MAX as nat) {
            None => r matches Err(InputError::NotANumber(t)) && t@ == trim_end(line@),
            Some(n) => if n <= 4 {
                r matches Ok(m) && m == n
            } else {
                r matches Err(InputError::TooHigh(m)) && m == n
            },
        },
{
    match parse_selection(line, 4) {
        Ok(n) => Ok(n as u8),
        Err(e) => Err(e),
    }
}

/// The virtual key code of function key `n` (F1 is 0x70).
pub open spec fn fkey_code_of(n: nat) -> nat {
    0x6f + n
}

/// The key code for the F-key typed as `line` ("1" for F1 up to "9" for F9).
pub fn fkey_code(line: &str) -> (r: Result<u64, InputError>)
    ensures
        match parsed_number(line@, u8::MAX as nat) {
            Some(n) => if 1 <= n <= 9 {
                r matches Ok(k) && k == fkey_code_of(n)
            } else {
                r matches Err(InputError::NotANumber(t)) && t@ == trim_end(line@)
            },
            None => r matches Err(InputError::NotANumber(t)) && t@ == trim_end(line@),
        },
        r matches Ok(k) ==> 0x70 <= k <= 0x78,
        parsed_number(line@, u8::MAX as nat) matches Some(n) ==> (1 <= n <= 9 ==> (r matches Ok(
            k,
        ) && k == 0x6f + n)),
        r matches Ok(k) ==> (parsed_number(line@, u8::MAX as nat) matches Some(n) && 1 <= n <= 9
            && k == 0x6f + n),
{
    let chars = chars_of(line);
    let len = trimmed_len(&chars);
    match parse_unsigned_prefix(&chars, len, 10, u8::MAX as u64) {
        Some(n) => {
            if 1 <= n && n <= 9 {
                Ok(0x6f + n)
            } else {
                Err(InputError::NotANumber(trimmed_text(line, &chars, len)))
            }
        },
        None => Err(InputError::NotANumber(trimmed_text(line, &chars, len))),
    }
}

/// The timeout of a run: the collector takes it from its configuration, the
/// spammer from the line typed (any `usize`, in seconds).
pub fn setup_timeout(collector: bool, collector_timeout: u64, line: &str) -> (r: Result<
    u64,
    InputError,
>)
    ensures
        collector ==> (r matches Ok(t) && t == collector_timeout),
        !collector ==> match parsed_number(line@, usize::MAX as nat) {
            Some(n) => r matches Ok(t) && t == n,
            None => r matches Err(InputError::NotANumber(t)) && t@ == trim_end(line@),
        },
{
    if collector {
        Ok(collector_timeout)
    } else {
        let chars = chars_of(line);
        let len = trimmed_len(&chars);
        match parse_unsigned_prefix(&chars, len, 10, usize::MAX as u64) {
            Some(n) => Ok(n),
            None => Err(InputError::NotANumber(trimmed_text(line, &chars, len))),
        }
    }
}

/// What the setup of a run gives, as `(timeout, key code)` or the trimmed
/// line that was refused: the timeout line is looked at first (unless the
/// collector takes `collector_timeout`), then the F-key line.
pub open spec fn setup_result(
    collector: bool,
    collector_timeout: u64,
    timeout_line: Seq<char>,
    fkey_line: Seq<char>,
) -> Result<(nat, nat), Seq<char>> {
    let t = if collector {
        Some(collector_timeout as nat)
    } else {
        parsed_number(timeout_line, usize::MAX as nat)
    };
    match t {
        None => Err(trim_end(timeout_line)),
        Some(tv) => match parsed_number(fkey_line, u8::MAX as nat) {
            Some(n) => if 1 <= n <= 9 {
                Ok((tv, fkey_code_of(n)))
            } else {
                Err(trim_end(fkey_line))
            },
            None => Err(trim_end(fkey_line)),
        },
    }
}

/// The setup of a run from the two lines typed: the timeout (ignored for the
/// collector, which takes `collector_timeout`) and then the F-key.
pub fn setup(collector: bool, collector_timeout: u64, timeout_line: &str, fkey_line: &str) -> (r:
    Result<Setup, InputError>)
    ensures
        match setup_result(collector, collector_timeout, timeout_line@, fkey_line@) {
            Ok((t, k)) => r matches Ok(st) && st.timeout == t && st.keysel == k,
            Err(s) => r matches Err(InputError::NotANumber(x)) && x@ == s,
        },
        r matches Ok(st) ==> (parsed_number(fkey_line@, u8::MAX as nat) matches Some(n) && 1 <= n
            <= 9 && st.keysel == 0x6f + n),
        r matches Ok(st) ==> (collector ==> st.timeout == collector_timeout),
        r matches Ok(st) ==> (!collector ==> parsed_number(timeout_line@, usize::MAX as nat)
            == Some(st.timeout as nat)),
        !collector && parsed_number(timeout_line@, usize::MAX as nat) is None ==> (r matches Err(
            InputError::NotANumber(x),
        ) && x@ == trim_end(timeout_line@)),
{
    let timeout = match setup_timeout(collector, collector_timeout, timeout_line) {
        Ok(t) => t,
        Err(e) => {
            return Err(e);
        },
    };
    let keysel = match fkey_code(fkey_line) {
        Ok(k) => k,
        Err(e) => {
            return Err(e);
        },
    };
    Ok(Setup { timeout, keysel })
}

/// The collector's setup does not depend on the timeout line.
pub proof fn lemma_collector_ignores_timeout_line(
    collector_timeout: u64,
    a: Seq<char>,
    b: Seq<char>,
    fkey_line: Seq<char>,
)
    ensures
        setup_result(true, collector_timeout, a, fkey_line) == setup_result(
            true,
            collector_timeout,
            b,
            fkey_line,
        ),
{
}

/// F1 has the key code 0x70 and each following F-key the next code, so
/// F-key `n` has the code `0x6f + n`.
pub proof fn lemma_fkey_codes_consecutive()
    ensures
        fkey_code_of(1) == 0x70,
        forall|n: nat| 1 <= n < 9 ==> #[trigger] fkey_code_of(n + 1) == fkey_code_of(n) + 1,
        forall|n: nat| 1 <= n <= 9 ==> #[trigger] fkey_code_of(n) == 0x6f + n,
{
}

/// Different F-keys have different key codes.
pub proof fn lemma_fkey_codes_distinct(m: nat, n: nat)
    requires
        m != n,
    ensures
        fkey_code_of(m) != fkey_code_of(n),
{
}

/// The client to work with. With one client open it is taken without a
/// question and `line` is not looked at; with several, `line` chooses among
/// `0..=clients.len()`.
pub fn prompt_user(clients: &Vec<Client>, line: &str) -> (r: Result<Client, InputError>)
    requires
        clients.len() >= 1,
        clients.len() > 1 ==> parsed_number(line@, usize::MAX as nat) != Some(
            clients.len() as nat,
        ),
    ensures
        clients.len() == 1 ==> (r matches Ok(c) && c == clients[0]),
        clients.len() > 1 ==> match parsed_number(line@, usize::MAX as nat) {
            None => r matches Err(InputError::NotANumber(t)) && t@ == trim_end(line@),
            Some(n) => if n <= clients.len() {
                r matches Ok(c) && c == clients[n as int]
            } else {
                r matches Err(InputError::TooHigh(m)) && m == n
            },
        },
{
    if clients.len() > 1 {
        match parse_selection(line, clients.len()) {
            Ok(n) => Ok(clients[n].duplicate()),
            Err(e) => Err(e),
        }
    } else {
        Ok(clients[0].duplicate())
    }
}

} // verus!
