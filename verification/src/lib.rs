//! Split a string into individual SQLite SQL statements.
//!
//! An embedded SQL engine silently runs only the first statement of a
//! multi-statement string, so a caller that holds several statements in
//! one buffer needs to know where each one ends.  The scanner here walks
//! the text once, keeps track of quoting, bracketed identifiers,
//! comments and line-oriented meta-commands, and emits one trimmed
//! string per statement.  It does not parse SQL and does not check that
//! the statements are well formed.

use vstd::prelude::*;

pub mod laws;
pub mod scanner;
pub mod trim;

use crate::scanner::{scan_step, scan_from, seq_views, spec_count, spec_split, spec_split_n, state_of, initial_state, ScanState};
use crate::trim::trim_chars;
use vstd::string::StrSliceExecFns;

verus! {

/// Relies on `String`'s `FromIterator<char>` impl: collecting
/// characters builds the string of exactly those characters in order.
#[verifier::external_body]
fn chars_to_string(v: &Vec<char>) -> (r: String)
    ensures
        r@ == v@,
{
    v.iter().collect()
}

/// Split a string into individual SQL statements.
///
/// Returns the statements of `sql` in order of appearance, each trimmed
/// of surrounding whitespace, with empty statements and lone terminators
/// left out.  Semicolons inside quotes, backticks, double quotes and
/// bracketed identifiers do not split; `--` and `/*`...`*/` comments are
/// stripped; a line beginning with `.` is emitted as its own
/// meta-command statement.  The input is not checked for well-formed
/// SQL: malformed input yields unspecified statements, never an error.
///
/// One quirk to know about: a `--` comment ends only at a newline, so a
/// comment that starts before any statement text and never meets a
/// newline silently absorbs the rest of the input, and nothing is
/// emitted for it.
pub fn split(sql: &str) -> (ret: Vec<String>)
    ensures
        seq_views(ret@) == spec_split(sql@),
{
    split_n(sql, None)
}

/// Split the first `n` statements from a multi-statement SQL string.
///
/// With `Some(n)`, scans only as far as needed to produce the first `n`
/// statements of the full split, or all of them when fewer exist; with
/// `None`, behaves as [`split`].
#[verifier::loop_isolation(false)]
pub fn split_n(sql: &str, n: Option<usize>) -> (ret: Vec<String>)
    ensures
        (match n {
            Some(limit) => seq_views(ret@) == spec_split_n(sql@, limit as nat),
            None => seq_views(ret@) == spec_split(sql@),
        }),
{
    let mut ret: Vec<String> = Vec::new();
    proof {
        assert(seq_views(ret@) =~~= Seq::<Seq<char>>::empty());
    }
    if let Some(limit) = n {
        if limit == 0 {
            proof {
                assert(spec_split_n(sql@, 0) =~~= Seq::<Seq<char>>::empty());
            }
            return ret;
        }
    }
    let mut buffer: Vec<char> = Vec::new();
    let mut enclosure: Option<char> = None;
    let mut previous_char: char = ' ';
    let mut in_line_comment: bool = false;
    let mut in_block_comment: bool = false;
    let mut in_meta_command: bool = false;
    let length = sql.unicode_len();
    let mut i: usize = 0;
    proof {
        assert(sql@.skip(0) =~= sql@);
        assert(state_of(buffer@, enclosure, previous_char, false, false, false)
            =~= initial_state());
    }
    while i < length
        invariant
            i <= length,
            spec_split(sql@) == seq_views(ret@) + scan_from(
                state_of(
                    buffer@,
                    enclosure,
                    previous_char,
                    in_line_comment,
                    in_block_comment,
                    in_meta_command,
                ),
                sql@.skip(i as int),
            ),
            (match n {
                Some(limit) => ret@.len() < limit,
                None => true,
            }),
        decreases length - i,
    {
        let ghost pre_state = state_of(
            buffer@,
            enclosure,
            previous_char,
            in_line_comment,
            in_block_comment,
            in_meta_command,
        );
        let ghost pre_ret = ret@;
        let ch = sql.get_char(i);
        let mut boundary: bool = false;
        if !in_line_comment && !in_block_comment {
            buffer.push(ch);
        }
        match enclosure {
            Some(e) => {
                if ch == ']' || ch == e {
                    enclosure = None;
                }
            },
            None => {
                if ch == '.' {
                    if buffer.len() == 1 && !in_block_comment {
                        in_meta_command = true;
                    }
                } else if ch == '*' {
                    if !in_line_comment && !in_block_comment && previous_char == '/' {
                        in_block_comment = true;
                        if buffer.len() >= 2 {
                            let keep = buffer.len() - 2;
                            buffer.truncate(keep);
                        } else {
                            buffer.clear();
                        }
                        if in_meta_command {
                            boundary = true;
                        }
                    }
                } else if ch == '/' {
                    if in_block_comment && previous_char == '*' {
                        in_block_comment = false;
                    }
                } else if ch == '\n' {
                    if in_meta_command {
                        boundary = true;
                        in_meta_command = false;
                    }
                    if in_line_comment {
                        in_line_comment = false;
                    }
                } else if ch == '-' {
                    if !in_line_comment && !in_block_comment && previous_char == '-' {
                        in_line_comment = true;
                        if buffer.len() >= 2 {
                            let keep = buffer.len() - 2;
                            buffer.truncate(keep);
                        } else {
                            buffer.clear();
                        }
                    }
                } else if ch == ';' {
                    if !in_line_comment && !in_block_comment {
                        boundary = true;
                    }
                } else if ch == '[' || ch == '"' || ch == '\'' || ch == '`' {
                    enclosure = Some(ch);
                }
            },
        }
        previous_char = ch;
        proof {
            assert(sql@.skip(i as int)[0] == sql@[i as int]);
            assert(sql@.skip(i as int).skip(1) =~= sql@.skip(i as int + 1));
            assert(scan_step(pre_state, ch) =~= (ScanState {
                buffer: buffer@,
                enclosure,
                previous_char,
                in_line_comment,
                in_block_comment,
                in_meta_command,
                boundary_reached: boundary,
            }));
        }
        if boundary {
            let trimmed = trim_chars(&buffer);
            let keep = trimmed.len() > 0 && !(trimmed.len() == 1 && trimmed[0] == ';');
            proof {
                if trimmed@.len() == 1 && trimmed@[0] == ';' {
                    assert(trimmed@ =~= seq![';']);
                }
                if trimmed@ == seq![';'] {
                    assert(trimmed@.len() == 1 && trimmed@[0] == ';');
                }
            }
            if keep {
                let s = chars_to_string(&trimmed);
                ret.push(s);
                proof {
                    assert(seq_views(ret@) =~~= seq_views(pre_ret) + seq![trimmed@]);
                }
                if let Some(limit) = n {
                    if ret.len() == limit {
                        proof {
                            let st2 = scan_step(pre_state, ch);
                            let emitted = seq_views(ret@);
                            let rest = scan_from(
                                state_of(
                                    Seq::empty(),
                                    st2.enclosure,
                                    st2.previous_char,
                                    st2.in_line_comment,
                                    st2.in_block_comment,
                                    st2.in_meta_command,
                                ),
                                sql@.skip(i as int + 1),
                            );
                            assert(spec_split(sql@) =~~= emitted + rest);
                            assert(spec_split(sql@).take(limit as int) =~~= emitted);
                        }
                        return ret;
                    }
                }
            }
            buffer.clear();
            proof {
                assert(spec_split(sql@) =~~= seq_views(ret@) + scan_from(
                    state_of(
                        buffer@,
                        enclosure,
                        previous_char,
                        in_line_comment,
                        in_block_comment,
                        in_meta_command,
                    ),
                    sql@.skip(i as int + 1),
                ));
            }
        }
        i += 1;
    }
    proof {
        assert(sql@.skip(length as int) =~= Seq::<char>::empty());
    }
    let ghost pre_ret = ret@;
    let trimmed = trim_chars(&buffer);
    if trimmed.len() > 0 {
        let s = chars_to_string(&trimmed);
        ret.push(s);
        proof {
            assert(seq_views(ret@) =~~= seq_views(pre_ret) + seq![trimmed@]);
        }
    }
    proof {
        assert(seq_views(ret@) =~~= spec_split(sql@));
    }
    ret
}

/// Count the statements in a string of SQL.
pub fn count(sql: &str) -> (r: usize)
    ensures
        r == spec_count(sql@),
{
    split(sql).len()
}

/// Whether the string holds more than one SQL statement.
///
/// Scans only as far as the second statement, so a long buffer is not
/// walked to the end when the answer is already yes.
pub fn is_multiple(sql: &str) -> (r: bool)
    ensures
        r == (spec_count(sql@) > 1),
{
    let first_two = split_n(sql, Some(2));
    proof {
        assert(seq_views(first_two@).len() == first_two@.len());
    }
    first_two.len() > 1
}

} // verus!
