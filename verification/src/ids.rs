//! Random identifiers: UUIDs from `uuid`, in the forms the app uses.
use vstd::prelude::*;

use crate::text::push_char;

verus! {

/// A lower-case hexadecimal digit.
pub open spec fn lower_hex(c: char) -> bool {
    ('0' <= c && c <= '9') || ('a' <= c && c <= 'f')
}

/// Where a hyphenated UUID has its hyphens.
pub open spec fn hyphen_at(i: int) -> bool {
    i == 8 || i == 13 || i == 18 || i == 23
}

/// The hyphenated form of a UUID: 36 characters, hyphens at 8, 13, 18 and
/// 23, lower-case hexadecimal digits elsewhere.
pub open spec fn hyphenated(s: Seq<char>) -> bool {
    s.len() == 36 && forall|i: int|
        0 <= i < 36 ==> if hyphen_at(i) {
            s[i] == '-'
        } else {
            lower_hex(#[trigger] s[i])
        }
}

/// The simple form of a UUID: 32 lower-case hexadecimal digits.
pub open spec fn simple(s: Seq<char>) -> bool {
    s.len() == 32 && forall|i: int| 0 <= i < 32 ==> lower_hex(#[trigger] s[i])
}

/// Calls `uuid::Uuid::new_v4` and writes the UUID with `Display`, which is
/// its hyphenated lower-case form. The UUID is random: nothing else is
/// claimed of it. The call panics only where the system gives no random
/// bytes.
#[verifier::external_body]
pub(crate) fn random_uuid() -> (r: String)
    ensures
        hyphenated(r@),
{
    uuid::Uuid::new_v4().to_string()
}

/// A random UUID in its simple form: the hyphenated form without hyphens.
pub fn random_simple_uuid() -> (r: String)
    ensures
        simple(r@),
{
    let h = crate::text::chars_of(random_uuid().as_str());
    let mut out = String::new();
    let mut i: usize = 0;
    assert(out@ =~= Seq::<char>::empty());
    while i < 36
        invariant
            i <= 36,
            hyphenated(h@),
            out@.len() == i - (if i > 23 {
                4int
            } else if i > 18 {
                3int
            } else if i > 13 {
                2int
            } else if i > 8 {
                1int
            } else {
                0int
            }),
            forall|k: int| 0 <= k < out@.len() ==> lower_hex(#[trigger] out@[k]),
        decreases 36 - i,
    {
        let c = h[i];
        if i != 8 && i != 13 && i != 18 && i != 23 {
            assert(lower_hex(h@[i as int]));
            push_char(&mut out, c);
        }
        i = i + 1;
    }
    out
}

} // verus!
