//! The mathematical model of the statement scanner.
//!
//! A single forward pass over the input characters drives a small state
//! machine: an open quoting or bracketing enclosure makes the terminator
//! insignificant, `--` and `/*` comments are consumed without reaching
//! the statement text, a leading `.` puts the scanner into line-oriented
//! meta-command mode, and an unquoted, uncommented `;` (or the end of a
//! meta-command) completes a statement.  `scan_from` folds the step
//! function over the input and collects the trimmed, non-empty
//! statements; `spec_split` is the scan from the initial state.

use vstd::prelude::*;
use crate::trim::spec_trim;

verus! {

/// The scanner state, updated once per input character.
#[verifier::ext_equal]
pub ghost struct ScanState {
    /// Text of the statement being accumulated; comment characters are
    /// never added to it.
    pub buffer: Seq<char>,
    /// The character that opened the current quoted or bracketed
    /// region, or `None` outside any such region.
    pub enclosure: Option<char>,
    /// The immediately preceding input character, for recognizing the
    /// two-character tokens `--`, `/*` and `*/`.
    pub previous_char: char,
    /// Inside a `--` comment, which a newline ends.
    pub in_line_comment: bool,
    /// Inside a `/*`...`*/` comment.
    pub in_block_comment: bool,
    /// The statement being accumulated began with `.`.
    pub in_meta_command: bool,
    /// The current character completed a statement; consumed right
    /// after the step that set it.
    pub boundary_reached: bool,
}

/// Builds a scanner state that is not at a boundary.
pub open spec fn state_of(
    buffer: Seq<char>,
    enclosure: Option<char>,
    previous_char: char,
    in_line_comment: bool,
    in_block_comment: bool,
    in_meta_command: bool,
) -> ScanState {
    ScanState {
        buffer,
        enclosure,
        previous_char,
        in_line_comment,
        in_block_comment,
        in_meta_command,
        boundary_reached: false,
    }
}

/// The state a scan starts from: empty buffer, no enclosure, no
/// comment, and a blank as the previous character.
pub open spec fn initial_state() -> ScanState {
    state_of(Seq::empty(), None, ' ', false, false, false)
}

/// The sequence without its last two elements; the two characters of a
/// comment opener are removed from the buffer this way.
pub open spec fn drop_last_two(s: Seq<char>) -> Seq<char> {
    if s.len() >= 2 {
        s.take(s.len() - 2)
    } else {
        Seq::empty()
    }
}

/// One step of the scanner on character `ch`.
///
/// The character joins the buffer unless a comment is being consumed.
/// While an enclosure is open, only `]` or the enclosure character
/// itself closes it; nothing else matters.  Otherwise the character is
/// dispatched: `.` as the first buffered character enters meta-command
/// mode; `/` then `*` outside comments enters a block comment and
/// removes the opener from the buffer, also completing a pending
/// meta-command; `*` then `/` leaves the block comment; a newline
/// completes a meta-command and ends a line comment; `-` after `-`
/// outside comments enters a line comment and removes the opener; `;`
/// outside comments completes the statement; a quote or `[` opens an
/// enclosure.
pub open spec fn scan_step(st: ScanState, ch: char) -> ScanState {
    let buf = if !st.in_line_comment && !st.in_block_comment {
        st.buffer.push(ch)
    } else {
        st.buffer
    };
    let st1 = ScanState { buffer: buf, previous_char: ch, boundary_reached: false, ..st };
    match st.enclosure {
        Some(e) => {
            if ch == ']' || ch == e {
                ScanState { enclosure: None, ..st1 }
            } else {
                st1
            }
        },
        None => {
            if ch == '.' {
                if buf.len() == 1 && !st.in_block_comment {
                    ScanState { in_meta_command: true, ..st1 }
                } else {
                    st1
                }
            } else if ch == '*' {
                if !st.in_line_comment && !st.in_block_comment && st.previous_char == '/' {
                    ScanState {
                        buffer: drop_last_two(buf),
                        in_block_comment: true,
                        boundary_reached: st.in_meta_command,
                        ..st1
                    }
                } else {
                    st1
                }
            } else if ch == '/' {
                if st.in_block_comment && st.previous_char == '*' {
                    ScanState { in_block_comment: false, ..st1 }
                } else {
                    st1
                }
            } else if ch == '\n' {
                ScanState {
                    in_meta_command: false,
                    in_line_comment: false,
                    boundary_reached: st.in_meta_command,
                    ..st1
                }
            } else if ch == '-' {
                if !st.in_line_comment && !st.in_block_comment && st.previous_char == '-' {
                    ScanState { buffer: drop_last_two(buf), in_line_comment: true, ..st1 }
                } else {
                    st1
                }
            } else if ch == ';' {
                if !st.in_line_comment && !st.in_block_comment {
                    ScanState { boundary_reached: true, ..st1 }
                } else {
                    st1
                }
            } else if ch == '[' || ch == '"' || ch == '\'' || ch == '`' {
                ScanState { enclosure: Some(ch), ..st1 }
            } else {
                st1
            }
        },
    }
}

/// The statements that a scan starting in `st` emits over `input`.
///
/// A step that reaches a boundary trims the buffer and emits it unless
/// the result is empty or a lone terminator, then scans on with an
/// empty buffer.  At the end of the input, a buffer with more than
/// whitespace in it is emitted as a final unterminated statement.
pub open spec fn scan_from(st: ScanState, input: Seq<char>) -> Seq<Seq<char>>
    decreases input.len(),
{
    if input.len() == 0 {
        let t = spec_trim(st.buffer);
        if t.len() > 0 {
            seq![t]
        } else {
            Seq::empty()
        }
    } else {
        let st1 = scan_step(st, input[0]);
        let rest = input.skip(1);
        if st1.boundary_reached {
            let t = spec_trim(st1.buffer);
            let st2 = state_of(
                Seq::empty(),
                st1.enclosure,
                st1.previous_char,
                st1.in_line_comment,
                st1.in_block_comment,
                st1.in_meta_command,
            );
            if t.len() > 0 && t != seq![';'] {
                seq![t] + scan_from(st2, rest)
            } else {
                scan_from(st2, rest)
            }
        } else {
            scan_from(st1, rest)
        }
    }
}

/// The full split: every statement of the input, in order.
pub open spec fn spec_split(s: Seq<char>) -> Seq<Seq<char>> {
    scan_from(initial_state(), s)
}

/// The bounded split: at most `n` statements, from the front.
pub open spec fn spec_split_n(s: Seq<char>, n: nat) -> Seq<Seq<char>> {
    let full = spec_split(s);
    if n < full.len() {
        full.take(n as int)
    } else {
        full
    }
}

/// The number of statements in the input.
pub open spec fn spec_count(s: Seq<char>) -> nat {
    spec_split(s).len()
}

/// The views of a sequence of owned strings.
pub open spec fn seq_views(v: Seq<String>) -> Seq<Seq<char>> {
    v.map_values(|s: String| s@)
}

} // verus!
