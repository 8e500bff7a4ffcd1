use vstd::prelude::*;

use crate::text::chars_of;

verus! {

/// Whether a version string names a commit SHA or a tag.
#[derive(Debug, Clone, PartialEq, Eq)]
pub enum VersionType {
    Tag(String),
    Sha(String),
}

/// A character that may appear in a SHA: a digit or a lowercase hex letter.
pub open spec fn is_lower_hex_char(c: char) -> bool {
    ('0' <= c && c <= '9') || ('a' <= c && c <= 'f')
}

/// A SHA is 7 to 64 lowercase hexadecimal characters.
pub open spec fn is_sha_text(s: Seq<char>) -> bool {
    &&& 7 <= s.len() <= 64
    &&& forall|i: int| 0 <= i < s.len() ==> #[trigger] is_lower_hex_char(s[i])
}

/// Detect whether a version string is a SHA or a tag.
pub fn detect_version_type(version: &str) -> (r: VersionType)
    ensures
        is_sha_text(version@) ==> (r matches VersionType::Sha(s) && s@ == version@),
        !is_sha_text(version@) ==> (r matches VersionType::Tag(s) && s@ == version@),
{
    let v = chars_of(version);
    let n = v.len();
    let mut all_hex = true;
    let mut i: usize = 0;
    while i < n
        invariant
            n == v@.len(),
            v@ == version@,
            i <= n,
            all_hex <==> forall|j: int| 0 <= j < i ==> #[trigger] is_lower_hex_char(v@[j]),
        decreases n - i,
    {
        let c = v[i];
        let hex = ('0' <= c && c <= '9') || ('a' <= c && c <= 'f');
        assert(hex == is_lower_hex_char(v@[i as int]));
        if !hex {
            all_hex = false;
        }
        i = i + 1;
    }
    if 7 <= n && n <= 64 && all_hex {
        VersionType::Sha(version.to_owned())
    } else {
        VersionType::Tag(version.to_owned())
    }
}

} // verus!
