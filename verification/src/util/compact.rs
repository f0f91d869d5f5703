use vstd::prelude::*;

use compact_str::CompactString;

verus! {

#[verifier::external_type_specification]
#[verifier::external_body]
pub struct ExCompactString(compact_str::CompactString);

/// The characters that a `CompactString` holds.
pub uninterp spec fn compact_chars(s: CompactString) -> Seq<char>;

/// `CompactString::is_empty`: the string holds no bytes, so no characters.
#[verifier::external_body]
pub(crate) fn compact_is_empty(s: &CompactString) -> (r: bool)
    ensures
        r == (compact_chars(*s).len() == 0),
{
    s.is_empty()
}

/// `CompactString::pop`: removes and returns the last character, or returns
/// nothing and leaves the string as it is when it is empty.
#[verifier::external_body]
pub(crate) fn compact_pop(s: &mut CompactString) -> (r: Option<char>)
    ensures
        compact_chars(*old(s)).len() == 0 ==> r is None && compact_chars(*final(s)) == compact_chars(
            *old(s),
        ),
        compact_chars(*old(s)).len() > 0 ==> r == Some(compact_chars(*old(s)).last())
            && compact_chars(*final(s)) == compact_chars(*old(s)).drop_last(),
{
    s.pop()
}

/// `CompactString::clear`: the string becomes empty. (Its capacity, which is
/// not modeled, stays.)
#[verifier::external_body]
pub(crate) fn compact_clear(s: &mut CompactString)
    ensures
        compact_chars(*final(s)) == Seq::<char>::empty(),
{
    s.clear()
}

/// `CompactString += &str` (`push_str`): appends the text. An allocation
/// failure, which aborts, is not modeled.
#[verifier::external_body]
pub(crate) fn compact_push_str(s: &mut CompactString, text: &str)
    ensures
        compact_chars(*final(s)) == compact_chars(*old(s)) + text@,
{
    *s += text
}

} // verus!
