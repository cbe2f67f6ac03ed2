//! Text building blocks shared by every declaration kind.
use vstd::prelude::*;
use vstd::string::*;

verus! {

/// The delimiter that opens a documentation block.
pub open spec fn doc_open() -> Seq<char> {
    seq!['r', '"', '"', '"']
}

/// The delimiter that closes a documentation block.
pub open spec fn doc_close() -> Seq<char> {
    seq!['"', '"', '"']
}

/// Each line prefixed by `indent` and followed by a line break.
pub open spec fn lines_text(lines: Seq<String>, indent: Seq<char>) -> Seq<char>
    decreases lines.len(),
{
    if lines.len() == 0 {
        Seq::empty()
    } else {
        lines_text(lines.drop_last(), indent) + indent + lines.last()@ + seq!['\n']
    }
}

/// A documentation block at `indent`: nothing for empty documentation.
pub open spec fn doc_block(lines: Seq<String>, indent: Seq<char>) -> Seq<char> {
    if lines.len() == 0 {
        Seq::empty()
    } else {
        indent + doc_open() + seq!['\n'] + lines_text(lines, indent) + indent + doc_close()
            + seq!['\n']
    }
}

/// Appends the documentation block of `lines` at `indent` to `out`.
pub fn write_doc_block(out: &mut String, lines: &Vec<String>, indent: &str)
    ensures
        final(out)@ == old(out)@ + doc_block(lines@, indent@),
{
    if lines.len() == 0 {
        return;
    }
    let ghost start = out@;
    out.append(indent);
    out.append("r\"\"\"\n");
    proof { reveal_strlit("r\"\"\"\n"); }
    let ghost head = out@;
    assert(head == start + indent@ + doc_open() + seq!['\n']);
    let mut i: usize = 0;
    while i < lines.len()
        invariant
            i <= lines.len(),
            out@ == head + lines_text(lines@.subrange(0, i as int), indent@),
        decreases lines.len() - i,
    {
        out.append(indent);
        out.append(lines[i].as_str());
        out.append("\n");
        proof {
            reveal_strlit("\n");
            assert(lines@.subrange(0, i + 1).drop_last() =~= lines@.subrange(0, i as int));
        }
        i = i + 1;
    }
    assert(lines@.subrange(0, lines.len() as int) =~= lines@);
    out.append(indent);
    out.append("\"\"\"\n");
    proof { reveal_strlit("\"\"\"\n"); }
    assert(out@ =~= start + doc_block(lines@, indent@));
}

} // verus!
