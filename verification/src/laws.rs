//! Laws that relate the scanner's operations to one another.

use vstd::prelude::*;
use crate::scanner::{
    scan_from, scan_step, spec_count, spec_split, spec_split_n, state_of, initial_state, ScanState,
};
use crate::trim::{spec_trim, lemma_trim_idempotent};

verus! {

/// Law: the statement count is the length of the full split.
pub proof fn lemma_count_is_split_length(s: Seq<char>)
    ensures
        spec_count(s) == spec_split(s).len(),
{
}

/// Law: the bounded split is a prefix of the full split, of length
/// `n` or the full count, whichever is smaller.
pub proof fn lemma_split_n_is_prefix(s: Seq<char>, n: nat)
    ensures
        spec_split_n(s, n).len() == if n <= spec_count(s) {
            n as int
        } else {
            spec_count(s) as int
        },
        forall|i: int| 0 <= i < spec_split_n(s, n).len() ==> spec_split_n(s, n)[i] == spec_split(
            s,
        )[i],
{
}

/// Law: the bounded split with limit two finds a second statement
/// exactly when the full split has more than one.
pub proof fn lemma_two_bounded_detects_multiple(s: Seq<char>)
    ensures
        (spec_split_n(s, 2).len() > 1) == (spec_count(s) > 1),
{
}

/// Law: the empty input splits into no statements.
pub proof fn lemma_split_empty()
    ensures
        spec_split(Seq::<char>::empty()) == Seq::<Seq<char>>::empty(),
{
    assert(spec_trim(Seq::<char>::empty()) =~= Seq::<char>::empty());
    assert(spec_split(Seq::<char>::empty()) =~~= Seq::<Seq<char>>::empty());
}

/// Law: every statement of a split is non-empty and already trimmed;
/// in particular runs of terminators and whitespace-only statements
/// never yield empty entries.
pub proof fn lemma_split_statements_trimmed(s: Seq<char>)
    ensures
        forall|i: int| 0 <= i < spec_split(s).len() ==> (#[trigger] spec_split(s)[i]).len() > 0
            && spec_trim(spec_split(s)[i]) == spec_split(s)[i],
{
    lemma_scan_statements_trimmed(initial_state(), s);
}

/// Every statement that a scan from any state emits is non-empty and
/// equal to its own trim.
proof fn lemma_scan_statements_trimmed(st: ScanState, input: Seq<char>)
    ensures
        forall|i: int| 0 <= i < scan_from(st, input).len() ==> (#[trigger] scan_from(st, input)[i]).len()
            > 0 && spec_trim(scan_from(st, input)[i]) == scan_from(st, input)[i],
    decreases input.len(),
{
    if input.len() == 0 {
        lemma_trim_idempotent(st.buffer);
        let t = spec_trim(st.buffer);
        if t.len() > 0 {
            assert(scan_from(st, input) == seq![t]);
            assert(scan_from(st, input)[0] == t);
        }
    } else {
        let st1 = scan_step(st, input[0]);
        let rest = input.skip(1);
        if st1.boundary_reached {
            let t = spec_trim(st1.buffer);
            let st2 = state_of(
                Seq::empty(),
                st1.enclosure,
                st1.previous_char,
                st1.in_line_comment,
                st1.in_block_comment,
                st1.in_meta_command,
            );
            lemma_trim_idempotent(st1.buffer);
            lemma_scan_statements_trimmed(st2, rest);
            if t.len() > 0 && t != seq![';'] {
                assert(scan_from(st, input) == seq![t] + scan_from(st2, rest));
                assert forall|i: int| 0 <= i < scan_from(st, input).len() implies (
                #[trigger] scan_from(st, input)[i]).len() > 0 && spec_trim(scan_from(st, input)[i])
                    == scan_from(st, input)[i] by {
                    if i == 0 {
                        assert(scan_from(st, input)[0] == t);
                    } else {
                        assert(scan_from(st, input)[i] == scan_from(st2, rest)[i - 1]);
                    }
                }
            } else {
                assert(scan_from(st, input) == scan_from(st2, rest));
            }
        } else {
            lemma_scan_statements_trimmed(st1, rest);
            assert(scan_from(st, input) == scan_from(st1, rest));
        }
    }
}

} // verus!
