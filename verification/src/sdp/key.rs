use vstd::prelude::*;

verus! {

/// SDP line prefixes used when parsing session description lines.
///
/// `m` indicates the start of a media description line (`m=`); `a` an
/// attribute line (`a=`) that is attached to the most recently parsed
/// media description.
pub const MEDIA_DESCRIPTION_KEY: char = 'm';

/// See [`MEDIA_DESCRIPTION_KEY`].
pub const ATTRIBUTE_KEY: char = 'a';

} // verus!
