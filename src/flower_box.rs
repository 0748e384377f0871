use vstd::prelude::*;

verus! {

/// The length of `s` in bytes, as `str::len` counts it.
pub open spec fn byte_len(s: &str) -> nat {
    s.len() as nat
}

/// The greatest byte length among `elems`, or zero when there are none.
pub open spec fn max_line_len(elems: Seq<&str>) -> nat
    decreases elems.len(),
{
    if elems.len() == 0 {
        0
    } else {
        let rest = max_line_len(elems.drop_last());
        let last = byte_len(elems.last());
        if rest < last {
            last
        } else {
            rest
        }
    }
}

/// `s` written `k` times in a row.
pub open spec fn repeated(s: Seq<char>, k: nat) -> Seq<char>
    decreases k,
{
    if k == 0 {
        Seq::empty()
    } else {
        repeated(s, (k - 1) as nat) + s
    }
}

/// A line of a box `width` bytes wide that holds `s`: a star, a space, `s`, spaces up
/// to the last column, a star and a line break.
pub open spec fn boxed_line(s: &str, width: nat) -> Seq<char> {
    seq!['*', ' '] + s@ + repeated(seq![' '], (width - byte_len(s) - 3) as nat) + seq!['*', '\n']
}

/// The lines of a box `width` bytes wide that holds `elems`, one after the other.
pub open spec fn boxed_lines(elems: Seq<&str>, width: nat) -> Seq<char>
    decreases elems.len(),
{
    if elems.len() == 0 {
        Seq::empty()
    } else {
        boxed_lines(elems.drop_last(), width) + boxed_line(elems.last(), width)
    }
}

/// A row of `width` stars and a line break.
pub open spec fn border_line(width: nat) -> Seq<char> {
    repeated(seq!['*'], width) + seq!['\n']
}

/// `elems`, one per line, framed by stars; nothing at all when there are no lines.
pub open spec fn flower_box(elems: Seq<&str>) -> Seq<char> {
    if elems.len() == 0 {
        Seq::empty()
    } else {
        let width = max_line_len(elems) + 4;
        border_line(width) + boxed_lines(elems, width) + border_line(width)
    }
}

proof fn lemma_max_line_len_bounds(elems: Seq<&str>, i: int)
    requires
        0 <= i < elems.len(),
    ensures
        byte_len(elems[i]) <= max_line_len(elems),
    decreases elems.len(),
{
    if i < elems.len() - 1 {
        lemma_max_line_len_bounds(elems.drop_last(), i);
    }
}

/// Returns the greatest byte length among `elems`, or zero when there are none.
pub fn get_max_line_length(elems: &Vec<&str>) -> (r: usize)
    ensures
        r == max_line_len(elems@),
{
    let mut max_len: usize = 0;
    let mut i: usize = 0;
    while i < elems.len()
        invariant
            i <= elems@.len(),
            max_len == max_line_len(elems@.take(i as int)),
        decreases elems@.len() - i,
    {
        assert(elems@.take(i + 1).drop_last() =~= elems@.take(i as int));
        assert(elems@.take(i + 1).last() == elems@[i as int]);
        let len = elems[i].len();
        if max_len < len {
            max_len = len;
        }
        i = i + 1;
    }
    assert(elems@.take(i as int) =~= elems@);
    max_len
}

/// Returns `s` written `length` times, then a line break.
pub fn format_border(s: &str, length: usize) -> (r: String)
    ensures
        r@ == repeated(s@, length as nat) + seq!['\n'],
{
    let mut c = String::new();
    let mut i: usize = 0;
    while i < length
        invariant
            i <= length,
            c@ == repeated(s@, i as nat),
        decreases length - i,
    {
        c.append(s);
        i = i + 1;
    }
    proof {
        reveal_strlit("\n");
    }
    c.append("\n");
    c
}

/// Returns the line of a box `max_length` bytes wide that holds `s`.
pub fn format_line(s: &str, max_length: usize) -> (r: String)
    requires
        byte_len(s) + 3 <= max_length,
    ensures
        r@ == boxed_line(s, max_length as nat),
{
    proof {
        reveal_strlit("* ");
        reveal_strlit("*\n");
    }
    let num_spaces_after_word = max_length - s.len() - 3;
    let mut line = String::from_str("* ");
    line.append(s);
    let mut i: usize = 0;
    while i < num_spaces_after_word
        invariant
            i <= num_spaces_after_word,
            line@ == seq!['*', ' '] + s@ + repeated(seq![' '], i as nat),
        decreases num_spaces_after_word - i,
    {
        proof {
            reveal_strlit(" ");
        }
        line.append(" ");
        assert(" "@ =~= seq![' ']);
        assert(line@ =~= seq!['*', ' '] + s@ + repeated(seq![' '], (i + 1) as nat));
        i = i + 1;
    }
    line.append("*\n");
    line
}

/// Frames `elems`, one per line, in a box of stars as wide as the longest line plus
/// four; returns an empty string when there are no lines.
pub fn make_flower_box(elems: Vec<&str>) -> (r: String)
    requires
        max_line_len(elems@) + 4 <= usize::MAX,
    ensures
        r@ == flower_box(elems@),
{
    if elems.len() == 0 {
        String::new()
    } else {
        let max_length_line = get_max_line_length(&elems) + 4;
        proof {
            reveal_strlit("*");
        }
        let border = format_border("*", max_length_line);
        assert("*"@ =~= seq!['*']);
        let mut flower_box = border.clone();
        let mut i: usize = 0;
        while i < elems.len()
            invariant
                i <= elems@.len(),
                max_length_line == max_line_len(elems@) + 4,
                border@ == border_line(max_length_line as nat),
                flower_box@ == border@ + boxed_lines(elems@.take(i as int), max_length_line as nat),
            decreases elems@.len() - i,
        {
            proof {
                lemma_max_line_len_bounds(elems@, i as int);
                assert(elems@.take(i + 1).drop_last() =~= elems@.take(i as int));
            }
            let line = format_line(elems[i], max_length_line);
            flower_box.append(line.as_str());
            i = i + 1;
        }
        assert(elems@.take(i as int) =~= elems@);
        flower_box.append(border.as_str());
        flower_box
    }
}

} // verus!
