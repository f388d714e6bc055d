//! Asset identifiers: fresh, sortable, collision-resistant id text and its
//! deterministic transform into a two-level shard path.

use vstd::prelude::*;
use vstd::string::*;

verus! {

/// A character of Crockford base32: a digit or an uppercase letter other
/// than I, L, O and U.
pub open spec fn is_crockford_char(c: char) -> bool {
    ('0' <= c && c <= '9') || ('A' <= c && c <= 'H') || c == 'J' || c == 'K' || c == 'M' || c == 'N'
        || ('P' <= c && c <= 'T') || ('V' <= c && c <= 'Z')
}

/// A canonically rendered 128-bit identifier: exactly 26 Crockford base32
/// characters.
pub open spec fn valid_id_text(s: Seq<char>) -> bool {
    s.len() == 26 && (forall|i: int| 0 <= i < s.len() ==> is_crockford_char(#[trigger] s[i]))
}

/// The shard path derived from an identifier: the first three characters as
/// the first directory level, the next two as the second, the rest as the
/// base name, and the output codec's fixed extension.
pub open spec fn shard_of(id: Seq<char>) -> Seq<char> {
    id.subrange(0, 3) + "/"@ + id.subrange(3, 5) + "/"@ + id.subrange(5, id.len() as int)
        + ".webp"@
}

/// Relies on `ulid::Ulid::new` and `Ulid::to_string`: a fresh identifier from
/// a millisecond timestamp and random bits, rendered as exactly 26 characters
/// of Crockford base32.
#[verifier::external_body]
fn new_ulid() -> (r: String)
    ensures
        valid_id_text(r@),
{
    ulid::Ulid::new().to_string()
}

/// Split an identifier into the fixed shard layout: directory levels of three
/// then two characters, the remainder as base name, and the extension. The
/// split positions are constants of the wire format.
pub fn shard_path(id: &str) -> (r: String)
    requires
        id@.len() == 26,
    ensures
        r@ == shard_of(id@),
{
    let first = id.substring_char(0, 3);
    let second = id.substring_char(3, 5);
    let rest = id.substring_char(5, 26);
    let mut r = first.to_owned();
    r.append("/");
    r.append(second);
    r.append("/");
    r.append(rest);
    r.append(".webp");
    proof {
        assert(r@ =~= shard_of(id@));
    }
    r
}

/// Generate a fresh identifier and return its shard path, the name under
/// which both encoded files of an asset are stored.
pub fn new_ulid_to_path() -> (r: String)
    ensures
        exists|id: Seq<char>| valid_id_text(id) && r@ == shard_of(id),
{
    let id = new_ulid();
    let r = shard_path(id.as_str());
    proof {
        assert(valid_id_text(id@) && r@ == shard_of(id@));
    }
    r
}

} // verus!
