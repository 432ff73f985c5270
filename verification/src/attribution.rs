//! The attribution document: a two-heading text file naming the image's
//! title and copyright line, written alongside the image variants when
//! requested.

use vstd::prelude::*;

verus! {

/// The attribution document text: exactly two heading lines, level one for
/// the title and level two for the copyright string, each newline-terminated.
pub open spec fn attribution_doc(title: Seq<char>, copyright: Seq<char>) -> Seq<char> {
    seq!['#', ' '] + title + seq!['\n', '#', '#', ' '] + copyright + seq!['\n']
}

/// The fixed name of the attribution document in the output directory.
pub open spec fn attribution_file_name() -> Seq<char> {
    "README.md"@
}

/// Render the attribution document for the given title and copyright line.
pub fn attribution_document(title: &str, copyright: &str) -> (d: String)
    ensures
        d@ == attribution_doc(title@, copyright@),
{
    let mut d = String::from_str("# ");
    d.append(title);
    d.append("\n## ");
    d.append(copyright);
    d.append("\n");
    proof {
        reveal_strlit("# ");
        reveal_strlit("\n## ");
        reveal_strlit("\n");
        assert("# "@ =~= seq!['#', ' ']);
        assert("\n## "@ =~= seq!['\n', '#', '#', ' ']);
        assert("\n"@ =~= seq!['\n']);
        assert(d@ =~= attribution_doc(title@, copyright@));
    }
    d
}

} // verus!
