//! What the library takes from `String` beyond what `vstd` specifies.

use vstd::prelude::*;

verus! {

/// `String::push` appends the character to the end of the text.
pub assume_specification[ std::string::String::push ](text: &mut std::string::String, ch: char)
    ensures
        final(text)@ == old(text)@.push(ch),
;

/// Pushing a text onto a vector of texts pushes its characters onto the
/// vector's deep view.
pub proof fn lemma_deep_view_push(before: Vec<String>, after: Vec<String>, last: String)
    requires
        after@ == before@.push(last),
    ensures
        after.deep_view() == before.deep_view().push(last@),
{
    assert(after.deep_view() =~= before.deep_view().push(last@));
}

} // verus!
