//! Normalisation of raw input lines into targets: each line is trimmed, and
//! blank lines and `#` comments are left out.
use vstd::prelude::*;
use crate::text::{trim, trimmed, strs_view, lemma_trimmed_idempotent};

verus! {

/// Whether a trimmed line names a target: it is not blank and no comment.
pub open spec fn is_target(t: Seq<char>) -> bool {
    t.len() > 0 && t[0] != '#'
}

/// The target that one raw line gives, if any.
pub open spec fn target_of(line: Seq<char>) -> Option<Seq<char>> {
    if is_target(trimmed(line)) {
        Some(trimmed(line))
    } else {
        None
    }
}

/// The targets of a sequence of raw lines, in their order.
pub open spec fn targets_of(lines: Seq<Seq<char>>) -> Seq<Seq<char>>
    decreases lines.len(),
{
    if lines.len() == 0 {
        seq![]
    } else {
        let rest = targets_of(lines.drop_last());
        match target_of(lines.last()) {
            Some(t) => rest.push(t),
            None => rest,
        }
    }
}

/// The target of one raw line: the line trimmed, or `None` for a blank line
/// or a comment.
pub fn normalize_target(line: &str) -> (r: Option<String>)
    ensures
        r is Some <==> target_of(line@) is Some,
        r is Some ==> r->0@ == target_of(line@)->0,
{
    let t = trim(line);
    let tv = t.as_str();
    if tv.unicode_len() == 0 || tv.get_char(0) == '#' {
        None
    } else {
        Some(t)
    }
}

/// The targets of a list of raw lines, in the order of the lines.
pub fn read_inputs(inputs: Vec<String>) -> (r: Vec<String>)
    ensures
        strs_view(r@) == targets_of(strs_view(inputs@)),
{
    let mut r: Vec<String> = Vec::new();
    let mut i: usize = 0;
    while i < inputs.len()
        invariant
            i <= inputs@.len(),
            strs_view(r@) == targets_of(strs_view(inputs@).subrange(0, i as int)),
        decreases inputs@.len() - i,
    {
        assert(strs_view(inputs@).subrange(0, i + 1).drop_last()
            =~= strs_view(inputs@).subrange(0, i as int));
        assert(strs_view(inputs@).subrange(0, i + 1).last() == inputs@[i as int]@);
        match normalize_target(inputs[i].as_str()) {
            Some(t) => {
                let ghost prev = r@;
                r.push(t);
                assert forall|k: int| 0 <= k < prev.len() implies strs_view(r@)[k] == strs_view(prev)[k] by {
                    assert(r@[k] == prev[k]);
                }
                assert(strs_view(r@) =~= strs_view(prev).push(t@));
            },
            None => {},
        }
        i = i + 1;
    }
    assert(strs_view(inputs@).subrange(0, inputs@.len() as int) =~= strs_view(inputs@));
    r
}

/// No target is blank or a comment, every target is already trimmed, and the
/// targets are exactly the trimmed lines that are neither, in the order of
/// the lines.
pub proof fn law_targets_of_lines(lines: Seq<Seq<char>>)
    ensures
        forall|k: int| 0 <= k < targets_of(lines).len() ==> is_target(#[trigger] targets_of(lines)[k]),
        forall|k: int| 0 <= k < targets_of(lines).len()
            ==> trimmed(#[trigger] targets_of(lines)[k]) == targets_of(lines)[k],
        targets_of(lines) == lines.map_values(|l: Seq<char>| trimmed(l)).filter(|t: Seq<char>| is_target(t)),
    decreases lines.len(),
{
    reveal(Seq::filter);
    if lines.len() > 0 {
        law_targets_of_lines(lines.drop_last());
        lemma_trimmed_idempotent(lines.last());
        let f = |l: Seq<char>| trimmed(l);
        assert(lines.map_values(f).drop_last() =~= lines.drop_last().map_values(f));
    }
}

} // verus!
