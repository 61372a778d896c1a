//! Deterministic, colon-delimited identifiers.
//!
//! Every persisted object is keyed by an id derived from the issuer identity,
//! an object category marker, the parent ids, a type and a tag. Qualified
//! ids carry an entity prefix and a method (`revreg:sov:...`); the
//! qualify/unqualify transform adds or strips those prefixes while keeping
//! the remaining structure. Construction, parsing and both transforms are
//! verified against one deterministic specification of the grammar, so a
//! parse is exactly the inverse of the build that the specification
//! describes.

use vstd::prelude::*;
use crate::errors::{ErrorKind, IssuerError};
use crate::numstr::{dec_value, is_dec_string};

verus! {

/// The sequence of characters of the string `":"`.
pub open spec fn colon() -> Seq<char> {
    seq![':']
}

/// Whether `s` begins with `p`.
pub open spec fn starts_with(s: Seq<char>, p: Seq<char>) -> bool {
    s.len() >= p.len() && s.subrange(0, p.len() as int) == p
}

/// A DID: a bare method-specific identifier, or `did:<method>:<identifier>`.
#[derive(Debug)]
pub struct DidValue(pub String);

/// A schema id: `<did>:2:<name>:<version>`.
#[derive(Debug)]
pub struct SchemaId(pub String);

/// A credential definition id:
/// `<did>:3:<signature type>:<schema ref>:<tag>`, or the same under a
/// `creddef:<method>:` prefix with qualified components.
#[derive(Debug)]
pub struct CredentialDefinitionId(pub String);

/// A revocation registry id:
/// `<did>:4:<cred def id>:<registry type>:<tag>`, or the same under a
/// `revreg:<method>:` prefix with qualified components.
#[derive(Debug)]
pub struct RevocationRegistryId(pub String);

/// The characters of a schema id built from its parts.
pub open spec fn schema_id_chars(did: Seq<char>, name: Seq<char>, version: Seq<char>) -> Seq<
    char,
> {
    did + ":2:"@ + name + colon() + version
}

/// The characters of an unqualified credential definition id built from its
/// parts.
pub open spec fn cred_def_id_chars(
    did: Seq<char>,
    schema_ref: Seq<char>,
    sig_type: Seq<char>,
    tag: Seq<char>,
) -> Seq<char> {
    did + ":3:"@ + sig_type + colon() + schema_ref + colon() + tag
}

/// The characters of an unqualified revocation registry id built from its
/// parts.
pub open spec fn rev_reg_id_chars(
    did: Seq<char>,
    cred_def_id: Seq<char>,
    rev_reg_type: Seq<char>,
    tag: Seq<char>,
) -> Seq<char> {
    did + ":4:"@ + cred_def_id + colon() + rev_reg_type + colon() + tag
}

impl DidValue {
    /// The method of a qualified DID: the segment between `did:` and the
    /// next colon. A bare DID has none.
    pub fn get_method(&self) -> (r: Option<String>)
        ensures
            match r {
                Some(m) => spec_did_method(self.0@) == Some(m@),
                None => spec_did_method(self.0@) is None,
            },
    {
        match strip_entity_prefix(self.0.as_str(), "did") {
            Some((m, _rest)) => Some(m),
            None => None,
        }
    }
}

impl SchemaId {
    /// Builds the schema id of `(did, name, version)`: the unqualified
    /// form for a bare DID, the `schema:<method>:` form for a qualified
    /// one.
    pub fn new(did: &DidValue, name: &str, version: &str) -> (r: SchemaId)
        ensures
            r.0@ == schema_id_of(did.0@, name@, version@),
    {
        let mut s = match did.get_method() {
            Some(m) => {
                let mut p = String::new();
                p.append("schema:");
                p.append(m.as_str());
                p.append(":");
                proof {
                    reveal_strlit("schema:");
                    reveal_strlit(":");
                    assert(p@ =~= "schema:"@ + m@ + colon());
                }
                p
            },
            None => String::new(),
        };
        let ghost prefix = s@;
        s.append(did.0.as_str());
        s.append(":2:");
        s.append(name);
        s.append(":");
        s.append(version);
        proof {
            reveal_strlit(":2:");
            reveal_strlit(":");
            assert(s@ =~= prefix + schema_id_chars(did.0@, name@, version@));
            if prefix.len() == 0 {
                assert(s@ =~= schema_id_chars(did.0@, name@, version@));
            }
        }
        SchemaId(s)
    }
}

impl CredentialDefinitionId {
    /// Builds the credential definition id of
    /// `(did, schema ref, signature type, tag)`: the unqualified form for a
    /// bare DID, the `creddef:<method>:` form for a qualified one.
    pub fn new(did: &DidValue, schema_ref: &SchemaId, sig_type: &str, tag: &str) -> (r:
        CredentialDefinitionId)
        ensures
            r.0@ == cred_def_id_of(did.0@, schema_ref.0@, sig_type@, tag@),
    {
        let mut s = match did.get_method() {
            Some(m) => {
                let mut p = String::new();
                p.append("creddef:");
                p.append(m.as_str());
                p.append(":");
                proof {
                    reveal_strlit("creddef:");
                    reveal_strlit(":");
                    assert(p@ =~= "creddef:"@ + m@ + colon());
                }
                p
            },
            None => String::new(),
        };
        let ghost prefix = s@;
        s.append(did.0.as_str());
        s.append(":3:");
        s.append(sig_type);
        s.append(":");
        s.append(schema_ref.0.as_str());
        s.append(":");
        s.append(tag);
        proof {
            reveal_strlit(":3:");
            reveal_strlit(":");
            assert(s@ =~= prefix + cred_def_id_chars(did.0@, schema_ref.0@, sig_type@, tag@));
            if prefix.len() == 0 {
                assert(s@ =~= cred_def_id_chars(did.0@, schema_ref.0@, sig_type@, tag@));
            }
        }
        CredentialDefinitionId(s)
    }
}

impl RevocationRegistryId {
    /// Builds the revocation registry id of
    /// `(did, cred def id, registry type, tag)`: the unqualified form for a
    /// bare DID, the `revreg:<method>:` form for a qualified one.
    pub fn new(did: &DidValue, cred_def_id: &CredentialDefinitionId, rev_reg_type: &str, tag: &str)
        -> (r: RevocationRegistryId)
        ensures
            r.0@ == rev_reg_id_of(did.0@, cred_def_id.0@, rev_reg_type@, tag@),
    {
        let mut s = match did.get_method() {
            Some(m) => {
                let mut p = String::new();
                p.append("revreg:");
                p.append(m.as_str());
                p.append(":");
                proof {
                    reveal_strlit("revreg:");
                    reveal_strlit(":");
                    assert(p@ =~= "revreg:"@ + m@ + colon());
                }
                p
            },
            None => String::new(),
        };
        let ghost prefix = s@;
        s.append(did.0.as_str());
        s.append(":4:");
        s.append(cred_def_id.0.as_str());
        s.append(":");
        s.append(rev_reg_type);
        s.append(":");
        s.append(tag);
        proof {
            reveal_strlit(":4:");
            reveal_strlit(":");
            assert(s@ =~= prefix + rev_reg_id_chars(did.0@, cred_def_id.0@, rev_reg_type@, tag@));
            if prefix.len() == 0 {
                assert(s@ =~= rev_reg_id_chars(did.0@, cred_def_id.0@, rev_reg_type@, tag@));
            }
        }
        RevocationRegistryId(s)
    }
}

/// Characters allowed in a bare (unqualified) DID identifier: the base58
/// alphabet, which excludes `0`, `O`, `I` and `l`.
pub open spec fn is_base58_char(c: char) -> bool {
    ('1' <= c <= '9') || ('A' <= c <= 'H') || ('J' <= c <= 'N') || ('P' <= c <= 'Z') || ('a' <= c
        <= 'k') || ('m' <= c <= 'z')
}

/// Whether every character of `s` is base58.
pub open spec fn all_base58(s: Seq<char>) -> bool {
    forall|i: int| 0 <= i < s.len() ==> is_base58_char(#[trigger] s[i])
}

/// Checks that `s` is nonempty base58 text.
fn check_base58(s: &str) -> (r: bool)
    ensures
        r == (s@.len() > 0 && all_base58(s@)),
{
    let n = s.unicode_len();
    if n == 0 {
        return false;
    }
    let mut i: usize = 0;
    while i < n
        invariant
            0 <= i <= n == s@.len(),
            forall|k: int| 0 <= k < i ==> is_base58_char(#[trigger] s@[k]),
        decreases n - i,
    {
        let c = s.get_char(i);
        let ok = ('1' <= c && c <= '9') || ('A' <= c && c <= 'H') || ('J' <= c && c <= 'N') || ('P'
            <= c && c <= 'Z') || ('a' <= c && c <= 'k') || ('m' <= c && c <= 'z');
        if !ok {
            return false;
        }
        i = i + 1;
    }
    true
}

impl DidValue {
    /// Validates the DID: a bare DID is nonempty base58 text; a DID with
    /// colons must be qualified (`did:...`) and its final segment must be
    /// nonempty base58 text.
    pub fn validate(&self) -> (r: Result<(), IssuerError>)
        ensures
            r is Ok <==> did_wf(self.0@),
            r matches Err(e) ==> e.kind == ErrorKind::InvalidStructure,
    {
        let s = self.0.as_str();
        let n = s.unicode_len();
        let mut seg_start: usize = 0;
        let mut i: usize = 0;
        while i < n
            invariant
                0 <= i <= n == s@.len(),
                seg_start <= i,
                seg_start as int == last_segment_start(s@.subrange(0, i as int)),
            decreases n - i,
        {
            proof {
                assert(s@.subrange(0, i + 1).drop_last() =~= s@.subrange(0, i as int));
            }
            if s.get_char(i) == ':' {
                seg_start = i + 1;
            }
            i = i + 1;
        }
        proof {
            assert(s@.subrange(0, n as int) =~= s@);
        }
        if seg_start == 0 {
            // No colon: the whole string must be base58.
            if check_base58(s) {
                Ok(())
            } else {
                Err(IssuerError::for_id(ErrorKind::InvalidStructure, s))
            }
        } else {
            // A colon-delimited DID must carry the `did:` prefix and a
            // nonempty base58 final segment.
            let prefixed = n >= 4 && s.get_char(0) == 'd' && s.get_char(1) == 'i' && s.get_char(2)
                == 'd' && s.get_char(3) == ':';
            if !prefixed {
                proof {
                    reveal_strlit("did:");
                    assert("did:"@.len() == 4);
                    if starts_with(s@, "did:"@) {
                        let p = s@.subrange(0, 4);
                        assert(p == "did:"@);
                        assert(s@[0] == p[0] && s@[1] == p[1] && s@[2] == p[2] && s@[3] == p[3]);
                        assert(s@[0] == 'd' && s@[1] == 'i' && s@[2] == 'd' && s@[3] == ':');
                    }
                }
                return Err(IssuerError::for_id(ErrorKind::InvalidStructure, s));
            }
            proof {
                reveal_strlit("did:");
                assert(starts_with(s@, "did:"@)) by {
                    assert("did:"@.len() == 4);
                    assert(s@.subrange(0, 4) =~= "did:"@);
                }
            }
            if seg_start >= n {
                return Err(IssuerError::for_id(ErrorKind::InvalidStructure, s));
            }
            let bare = s.substring_char(seg_start, n);
            if check_base58(bare) {
                Ok(())
            } else {
                Err(IssuerError::for_id(ErrorKind::InvalidStructure, s))
            }
        }
    }
}

/// The position right after the last colon of `s`; zero when `s` has no
/// colon.
pub open spec fn last_segment_start(s: Seq<char>) -> int
    decreases s.len(),
{
    if s.len() == 0 {
        0
    } else if s.last() == ':' {
        s.len() as int
    } else {
        last_segment_start(s.drop_last())
    }
}

/// A well-formed DID: nonempty base58 text, either bare or as the final
/// segment of a `did:`-prefixed, colon-delimited identifier.
pub open spec fn did_wf(s: Seq<char>) -> bool {
    if last_segment_start(s) == 0 {
        s.len() > 0 && all_base58(s)
    } else {
        starts_with(s, "did:"@) && last_segment_start(s) < s.len() && all_base58(
            s.subrange(last_segment_start(s), s.len() as int),
        )
    }
}

/// Whether position `i` of `s` starts a `:<mark>:` delimiter.
pub open spec fn mark_at(s: Seq<char>, mark: char, i: int) -> bool {
    0 <= i && i + 2 < s.len() && s[i] == ':' && s[i + 1] == mark && s[i + 2] == ':'
}


/// The first position at or after `i` holding a colon; the length if there
/// is none.
pub open spec fn first_colon_from(s: Seq<char>, i: int) -> int
    decreases s.len() - i
        when i >= 0
{
    if i >= s.len() {
        s.len() as int
    } else if s[i] == ':' {
        i
    } else {
        first_colon_from(s, i + 1)
    }
}

/// Positions without a colon can be skipped when looking for the first one.
proof fn lemma_first_colon_from_skip(s: Seq<char>, i: int, j: int)
    requires
        0 <= i <= j <= s.len(),
        forall|k: int| i <= k < j ==> #[trigger] s[k] != ':',
    ensures
        first_colon_from(s, i) == first_colon_from(s, j),
    decreases j - i,
{
    if i < j {
        lemma_first_colon_from_skip(s, i + 1, j);
    }
}

/// The first position at or after `i` starting a `:<mark>:` delimiter; the
/// length if there is none.
pub open spec fn first_mark_from(s: Seq<char>, mark: char, i: int) -> int
    decreases s.len() - i
        when i >= 0
{
    if i + 2 >= s.len() {
        s.len() as int
    } else if mark_at(s, mark, i) {
        i
    } else {
        first_mark_from(s, mark, i + 1)
    }
}

/// Positions without a delimiter can be skipped when looking for the first
/// one.
proof fn lemma_first_mark_from_skip(s: Seq<char>, mark: char, i: int, j: int)
    requires
        0 <= i <= j <= s.len(),
        forall|k: int| i <= k < j ==> !mark_at(s, mark, k),
    ensures
        first_mark_from(s, mark, i) == first_mark_from(s, mark, j),
    decreases j - i,
{
    if i < j {
        lemma_first_mark_from_skip(s, mark, i + 1, j);
    }
}

/// A colon at `p` with none after it puts the last segment right after `p`.
proof fn lemma_last_segment_start_at(s: Seq<char>, p: int)
    requires
        0 <= p < s.len(),
        s[p] == ':',
        forall|k: int| p < k < s.len() ==> #[trigger] s[k] != ':',
    ensures
        last_segment_start(s) == p + 1,
    decreases s.len(),
{
    if p == s.len() - 1 {
    } else {
        assert(s.last() != ':');
        assert(s.drop_last()[p] == s[p]);
        assert forall|k: int| p < k < s.drop_last().len() implies #[trigger] s.drop_last()[k]
            != ':' by {
            assert(s.drop_last()[k] == s[k]);
        }
        lemma_last_segment_start_at(s.drop_last(), p);
    }
}

/// A string without a colon has its last segment at the start.
proof fn lemma_last_segment_start_none(s: Seq<char>)
    requires
        forall|k: int| 0 <= k < s.len() ==> #[trigger] s[k] != ':',
    ensures
        last_segment_start(s) == 0,
    decreases s.len(),
{
    if s.len() > 0 {
        assert forall|k: int| 0 <= k < s.drop_last().len() implies #[trigger] s.drop_last()[k]
            != ':' by {
            assert(s.drop_last()[k] == s[k]);
        }
        lemma_last_segment_start_none(s.drop_last());
    }
}

/// Splits at the first `:<mark>:` delimiter, if there is one.
pub open spec fn spec_split_at_mark(s: Seq<char>, mark: char) -> Option<(Seq<char>, Seq<char>)> {
    let i = first_mark_from(s, mark, 0);
    if i < s.len() {
        Some((s.subrange(0, i), s.subrange(i + 3, s.len() as int)))
    } else {
        None
    }
}

/// Splits at the first colon, if there is one.
pub open spec fn spec_split_first_colon(s: Seq<char>) -> Option<(Seq<char>, Seq<char>)> {
    let i = first_colon_from(s, 0);
    if i < s.len() {
        Some((s.subrange(0, i), s.subrange(i + 1, s.len() as int)))
    } else {
        None
    }
}

/// Splits at the last colon, if there is one.
pub open spec fn spec_split_last_colon(s: Seq<char>) -> Option<(Seq<char>, Seq<char>)> {
    let l = last_segment_start(s);
    if l > 0 {
        Some((s.subrange(0, l - 1), s.subrange(l, s.len() as int)))
    } else {
        None
    }
}

/// Splits off the two last colon-separated segments, if there are two.
pub open spec fn spec_rsplit2(s: Seq<char>) -> Option<(Seq<char>, Seq<char>, Seq<char>)> {
    match spec_split_last_colon(s) {
        Some(p) => match spec_split_last_colon(p.0) {
            Some(q) => Some((q.0, q.1, p.1)),
            None => None,
        },
        None => None,
    }
}

/// Strips a leading `<kind>:<method>:`, yielding the nonempty method and
/// the rest, if the string carries such a prefix.
pub open spec fn spec_strip_entity(s: Seq<char>, kind: Seq<char>) -> Option<
    (Seq<char>, Seq<char>),
> {
    if starts_with(s, kind + colon()) {
        let j = first_colon_from(s, kind.len() as int + 1);
        if j < s.len() && j > kind.len() + 1 {
            Some((s.subrange(kind.len() as int + 1, j), s.subrange(j + 1, s.len() as int)))
        } else {
            None
        }
    } else {
        None
    }
}

/// The method of an entity-qualified id, if it carries one.
pub open spec fn spec_entity_method(s: Seq<char>, kind: Seq<char>) -> Option<Seq<char>> {
    match spec_strip_entity(s, kind) {
        Some(p) => Some(p.0),
        None => None,
    }
}

/// The method of a qualified DID, if it carries one.
pub open spec fn spec_did_method(s: Seq<char>) -> Option<Seq<char>> {
    spec_entity_method(s, "did"@)
}

/// The unqualified form of a DID: the method prefix stripped, where there
/// is one.
pub open spec fn did_unq(s: Seq<char>) -> Seq<char> {
    match spec_strip_entity(s, "did"@) {
        Some(p) => p.1,
        None => s,
    }
}

/// The schema id of `(did, name, version)`: entity-qualified when the DID
/// carries a method.
pub open spec fn schema_id_of(did: Seq<char>, name: Seq<char>, version: Seq<char>) -> Seq<char> {
    match spec_did_method(did) {
        Some(m) => "schema:"@ + m + colon() + schema_id_chars(did, name, version),
        None => schema_id_chars(did, name, version),
    }
}

/// The credential definition id of `(did, schema ref, signature type,
/// tag)`: entity-qualified when the DID carries a method.
pub open spec fn cred_def_id_of(
    did: Seq<char>,
    schema_ref: Seq<char>,
    sig_type: Seq<char>,
    tag: Seq<char>,
) -> Seq<char> {
    match spec_did_method(did) {
        Some(m) => "creddef:"@ + m + colon() + cred_def_id_chars(did, schema_ref, sig_type, tag),
        None => cred_def_id_chars(did, schema_ref, sig_type, tag),
    }
}

/// The revocation registry id of `(did, cred def id, registry type, tag)`:
/// entity-qualified when the DID carries a method.
pub open spec fn rev_reg_id_of(
    did: Seq<char>,
    cred_def_id: Seq<char>,
    rev_reg_type: Seq<char>,
    tag: Seq<char>,
) -> Seq<char> {
    match spec_did_method(did) {
        Some(m) => "revreg:"@ + m + colon() + rev_reg_id_chars(did, cred_def_id, rev_reg_type, tag),
        None => rev_reg_id_chars(did, cred_def_id, rev_reg_type, tag),
    }
}

/// The qualified form of a schema id under a method; an id that does not
/// split stays as it is.
pub open spec fn schema_to_qualified_of(s: Seq<char>, m: Seq<char>) -> Seq<char> {
    match spec_split_at_mark(s, '2') {
        Some(p) => "schema:"@ + m + colon() + "did:"@ + m + colon() + p.0 + seq![':', '2', ':']
            + p.1,
        None => s,
    }
}

/// The unqualified form of a schema id: entity and method prefixes
/// stripped, the inner DID unqualified; an id that does not split stays as
/// it is.
pub open spec fn schema_unq(s: Seq<char>) -> Seq<char> {
    let core = match spec_strip_entity(s, "schema"@) {
        Some(p) => p.1,
        None => s,
    };
    match spec_split_at_mark(core, '2') {
        Some(p) => did_unq(p.0) + seq![':', '2', ':'] + p.1,
        None => s,
    }
}

/// The qualified form of a credential definition id under a method: the
/// inner DID gains a prefix, and the schema reference is qualified unless
/// it is a bare sequence number; an id that does not split stays as it is.
pub open spec fn cred_def_to_qualified_of(s: Seq<char>, m: Seq<char>) -> Seq<char> {
    match spec_split_at_mark(s, '3') {
        None => s,
        Some(p) => match spec_split_first_colon(p.1) {
            None => s,
            Some(q) => match spec_split_last_colon(q.1) {
                None => s,
                Some(t) => {
                    let sref = if is_dec_string(t.0) && dec_value(t.0) <= u32::MAX {
                        t.0
                    } else {
                        schema_to_qualified_of(t.0, m)
                    };
                    "creddef:"@ + m + colon() + "did:"@ + m + colon() + p.0 + seq![':', '3', ':']
                        + q.0 + colon() + sref + colon() + t.1
                },
            },
        },
    }
}

/// The unqualified form of a credential definition id: entity and method
/// prefixes stripped, the inner DID and schema reference unqualified; an
/// id that does not split stays as it is.
pub open spec fn cred_def_unq(s: Seq<char>) -> Seq<char> {
    let core = match spec_strip_entity(s, "creddef"@) {
        Some(p) => p.1,
        None => s,
    };
    match spec_split_at_mark(core, '3') {
        None => s,
        Some(p) => match spec_split_first_colon(p.1) {
            None => s,
            Some(q) => match spec_split_last_colon(q.1) {
                None => s,
                Some(t) => did_unq(p.0) + seq![':', '3', ':'] + q.0 + colon() + schema_unq(t.0)
                    + colon() + t.1,
            },
        },
    }
}

/// The parts `(did, cred def id, type, tag)` of a revocation registry id,
/// under its entity prefix if it carries one; nothing if the id does not
/// split.
pub open spec fn spec_rev_reg_parts(s: Seq<char>) -> Option<
    (Seq<char>, Seq<char>, Seq<char>, Seq<char>),
> {
    let core = match spec_strip_entity(s, "revreg"@) {
        Some(p) => p.1,
        None => s,
    };
    match spec_split_at_mark(core, '4') {
        None => None,
        Some(p) => match spec_rsplit2(p.1) {
            None => None,
            Some(t) => Some((p.0, t.0, t.1, t.2)),
        },
    }
}

/// The unqualified form of a revocation registry id: rebuilt from its
/// parts with the inner DID and credential definition id unqualified; an
/// id that does not split stays as it is.
pub open spec fn rev_reg_unq(s: Seq<char>) -> Seq<char> {
    match spec_rev_reg_parts(s) {
        Some(p) => rev_reg_id_of(did_unq(p.0), cred_def_unq(p.1), p.2, p.3),
        None => s,
    }
}

/// Finds the first `:<mark>:` delimiter of `s`.
fn find_mark(s: &str, mark: char) -> (r: Option<usize>)
    ensures
        match r {
            Some(i) => i as int == first_mark_from(s@, mark, 0) && mark_at(s@, mark, i as int),
            None => first_mark_from(s@, mark, 0) == s@.len(),
        },
{
    let n = s.unicode_len();
    if n < 3 {
        return None;
    }
    let mut i: usize = 0;
    while i + 2 < n
        invariant
            0 <= i,
            i + 2 <= n == s@.len(),
            forall|j: int| 0 <= j < i ==> !mark_at(s@, mark, j),
        decreases n - i,
    {
        if s.get_char(i) == ':' && s.get_char(i + 1) == mark && s.get_char(i + 2) == ':' {
            proof {
                lemma_first_mark_from_skip(s@, mark, 0, i as int);
                assert(mark_at(s@, mark, i as int));
            }
            return Some(i);
        }
        i = i + 1;
    }
    proof {
        lemma_first_mark_from_skip(s@, mark, 0, i as int);
    }
    None
}

/// Splits at the first `:<mark>:` delimiter, if there is one.
fn split_at_mark(s: &str, mark: char) -> (r: Option<(String, String)>)
    ensures
        match r {
            Some(p) => (spec_split_at_mark(s@, mark) matches Some(q) && p.0@ == q.0 && p.1@
                == q.1),
            None => spec_split_at_mark(s@, mark) is None,
        },
{
    let i = match find_mark(s, mark) {
        Some(i) => i,
        None => {
            return None;
        },
    };
    let n = s.unicode_len();
    let a = s.substring_char(0, i).to_owned();
    let b = s.substring_char(i + 3, n).to_owned();
    Some((a, b))
}

/// Splits off the two last colon-separated segments, if there are two.
fn rsplit2(s: &str) -> (r: Option<(String, String, String)>)
    ensures
        match r {
            Some(p) => (spec_rsplit2(s@) matches Some(q) && p.0@ == q.0 && p.1@ == q.1 && p.2@
                == q.2),
            None => spec_rsplit2(s@) is None,
        },
{
    let n = s.unicode_len();
    let mut last: usize = n;
    let mut second: usize = n;
    let mut i: usize = 0;
    while i < n
        invariant
            0 <= i <= n == s@.len(),
            last <= n,
            second <= n,
            last == n ==> second == n && (forall|k: int| 0 <= k < i ==> #[trigger] s@[k] != ':'),
            last < n ==> last < i && s@[last as int] == ':' && (forall|k: int|
                last < k < i ==> #[trigger] s@[k] != ':'),
            last < n && second == n ==> forall|k: int| 0 <= k < last ==> #[trigger] s@[k] != ':',
            second < n ==> second < last && s@[second as int] == ':' && (forall|k: int|
                second < k < last ==> #[trigger] s@[k] != ':'),
        decreases n - i,
    {
        if s.get_char(i) == ':' {
            if last < n {
                second = last;
            }
            last = i;
        }
        i = i + 1;
    }
    if second >= n {
        proof {
            if last == n {
                lemma_last_segment_start_none(s@);
            } else {
                lemma_last_segment_start_at(s@, last as int);
                let head = s@.subrange(0, last as int);
                assert forall|k: int| 0 <= k < head.len() implies #[trigger] head[k] != ':' by {
                    assert(head[k] == s@[k]);
                }
                lemma_last_segment_start_none(head);
            }
        }
        return None;
    }
    let a = s.substring_char(0, second).to_owned();
    let b = s.substring_char(second + 1, last).to_owned();
    let c = s.substring_char(last + 1, n).to_owned();
    proof {
        lemma_last_segment_start_at(s@, last as int);
        let head = s@.subrange(0, last as int);
        assert(head[second as int] == ':');
        assert forall|k: int| second < k < head.len() implies #[trigger] head[k] != ':' by {
            assert(head[k] == s@[k]);
        }
        lemma_last_segment_start_at(head, second as int);
        assert(head.subrange(0, second as int) =~= s@.subrange(0, second as int));
        assert(head.subrange(second + 1, head.len() as int) =~= s@.subrange(
            second + 1,
            last as int,
        ));
    }
    Some((a, b, c))
}

/// Strips a leading `<kind>:<method>:` off `s`, if it carries one.
fn strip_entity_prefix(s: &str, kind: &str) -> (r: Option<(String, String)>)
    ensures
        match r {
            Some(p) => (spec_strip_entity(s@, kind@) matches Some(q) && p.0@ == q.0 && p.1@
                == q.1),
            None => spec_strip_entity(s@, kind@) is None,
        },
{
    let kn = kind.unicode_len();
    let n = s.unicode_len();
    if n < 2 || n - 2 < kn {
        proof {
            if starts_with(s@, kind@ + colon()) {
                assert(first_colon_from(s@, kind@.len() as int + 1) == s@.len());
            }
        }
        return None;
    }
    let mut i: usize = 0;
    while i < kn
        invariant
            0 <= i <= kn == kind@.len(),
            n == s@.len() >= kn + 2,
            forall|k: int| 0 <= k < i ==> s@[k] == kind@[k],
        decreases kn - i,
    {
        if s.get_char(i) != kind.get_char(i) {
            proof {
                if starts_with(s@, kind@ + colon()) {
                    let p = s@.subrange(0, kn as int + 1);
                    assert(p[i as int] == s@[i as int]);
                    assert(p[i as int] == (kind@ + colon())[i as int]);
                }
            }
            return None;
        }
        i = i + 1;
    }
    if s.get_char(kn) != ':' {
        proof {
            if starts_with(s@, kind@ + colon()) {
                let p = s@.subrange(0, kn as int + 1);
                assert(p[kn as int] == s@[kn as int]);
                assert(p[kn as int] == (kind@ + colon())[kn as int]);
            }
        }
        return None;
    }
    proof {
        assert(s@.subrange(0, kn as int + 1) =~= kind@ + colon());
        assert(starts_with(s@, kind@ + colon()));
    }
    let mut j: usize = kn + 1;
    while j < n
        invariant
            kn + 1 <= j <= n == s@.len(),
            forall|k: int| kn < k < j ==> #[trigger] s@[k] != ':',
            starts_with(s@, kind@ + colon()),
            kn == kind@.len(),
            n >= kn + 2,
        decreases n - j,
    {
        if s.get_char(j) == ':' {
            proof {
                lemma_first_colon_from_skip(s@, kn as int + 1, j as int);
                assert(first_colon_from(s@, kn as int + 1) == j as int);
            }
            if j == kn + 1 {
                return None;
            }
            let m = s.substring_char(kn + 1, j).to_owned();
            let rest = s.substring_char(j + 1, n).to_owned();
            return Some((m, rest));
        }
        j = j + 1;
    }
    proof {
        lemma_first_colon_from_skip(s@, kn as int + 1, n as int);
        assert(first_colon_from(s@, kn as int + 1) == s@.len());
    }
    None
}

impl RevocationRegistryId {
    /// Splits the id into `(did, cred def id, registry type, tag)`, under
    /// its entity prefix if it has one; an id without the registry marker
    /// and two trailing segments does not split.
    pub fn parts(&self) -> (r: Result<
        (DidValue, CredentialDefinitionId, String, String),
        IssuerError,
    >)
        ensures
            match r {
                Ok(p) => (spec_rev_reg_parts(self.0@) matches Some(q) && p.0.0@ == q.0 && p.1.0@
                    == q.1 && p.2@ == q.2 && p.3@ == q.3),
                Err(e) => spec_rev_reg_parts(self.0@) is None && e.kind
                    == ErrorKind::InvalidStructure,
            },
    {
        let stripped = match strip_entity_prefix(self.0.as_str(), "revreg") {
            Some((_m, rest)) => rest,
            None => self.0.clone(),
        };
        let (did_part, tail) = match split_at_mark(stripped.as_str(), '4') {
            Some(p) => p,
            None => {
                return Err(IssuerError::for_id(ErrorKind::InvalidStructure, self.0.as_str()));
            },
        };
        let (cred_part, type_part, tag_part) = match rsplit2(tail.as_str()) {
            Some(p) => p,
            None => {
                return Err(IssuerError::for_id(ErrorKind::InvalidStructure, self.0.as_str()));
            },
        };
        Ok((DidValue(did_part), CredentialDefinitionId(cred_part), type_part, tag_part))
    }

    /// Validates the id: it must split into its parts.
    pub fn validate(&self) -> (r: Result<(), IssuerError>)
        ensures
            r is Ok <==> spec_rev_reg_parts(self.0@) is Some,
            r matches Err(e) ==> e.kind == ErrorKind::InvalidStructure,
    {
        match self.parts() {
            Ok(_) => Ok(()),
            Err(e) => Err(e),
        }
    }
}

/// Splits at the first colon, if there is one.
fn split_first_colon(s: &str) -> (r: Option<(String, String)>)
    ensures
        match r {
            Some(p) => (spec_split_first_colon(s@) matches Some(q) && p.0@ == q.0 && p.1@ == q.1),
            None => spec_split_first_colon(s@) is None,
        },
{
    let n = s.unicode_len();
    let mut i: usize = 0;
    while i < n
        invariant
            0 <= i <= n == s@.len(),
            forall|k: int| 0 <= k < i ==> #[trigger] s@[k] != ':',
        decreases n - i,
    {
        if s.get_char(i) == ':' {
            proof {
                lemma_first_colon_from_skip(s@, 0, i as int);
            }
            let a = s.substring_char(0, i).to_owned();
            let b = s.substring_char(i + 1, n).to_owned();
            return Some((a, b));
        }
        i = i + 1;
    }
    proof {
        lemma_first_colon_from_skip(s@, 0, n as int);
    }
    None
}

/// Splits at the last colon, if there is one.
fn split_last_colon(s: &str) -> (r: Option<(String, String)>)
    ensures
        match r {
            Some(p) => (spec_split_last_colon(s@) matches Some(q) && p.0@ == q.0 && p.1@ == q.1),
            None => spec_split_last_colon(s@) is None,
        },
{
    let n = s.unicode_len();
    let mut last: usize = n;
    let mut i: usize = 0;
    while i < n
        invariant
            0 <= i <= n == s@.len(),
            last <= n,
            last == n ==> forall|k: int| 0 <= k < i ==> #[trigger] s@[k] != ':',
            last < n ==> last < i && s@[last as int] == ':' && (forall|k: int|
                last < k < i ==> #[trigger] s@[k] != ':'),
        decreases n - i,
    {
        if s.get_char(i) == ':' {
            last = i;
        }
        i = i + 1;
    }
    if last >= n {
        proof {
            lemma_last_segment_start_none(s@);
        }
        return None;
    }
    proof {
        lemma_last_segment_start_at(s@, last as int);
    }
    let a = s.substring_char(0, last).to_owned();
    let b = s.substring_char(last + 1, n).to_owned();
    Some((a, b))
}

impl DidValue {
    /// Strips the method prefix off a qualified DID; a bare DID is returned
    /// unchanged.
    pub fn to_unqualified(&self) -> (r: DidValue)
        ensures
            r.0@ == did_unq(self.0@),
    {
        match strip_entity_prefix(self.0.as_str(), "did") {
            Some((_m, rest)) => DidValue(rest),
            None => DidValue(self.0.clone()),
        }
    }
}

impl SchemaId {
    /// Qualifies the id under a method: the inner DID gains a
    /// `did:<method>:` prefix and the whole id a `schema:<method>:` prefix.
    /// An id that does not split stays as it is.
    pub fn to_qualified(&self, method: &str) -> (r: SchemaId)
        ensures
            r.0@ == schema_to_qualified_of(self.0@, method@),
    {
        let (did_part, rest) = match split_at_mark(self.0.as_str(), '2') {
            Some(p) => p,
            None => {
                return SchemaId(self.0.clone());
            },
        };
        let mut s = String::new();
        s.append("schema:");
        s.append(method);
        s.append(":");
        s.append("did:");
        s.append(method);
        s.append(":");
        s.append(did_part.as_str());
        s.append(":2:");
        s.append(rest.as_str());
        proof {
            reveal_strlit("schema:");
            reveal_strlit("did:");
            reveal_strlit(":");
            reveal_strlit(":2:");
            assert(":2:"@ =~= seq![':', '2', ':']);
            assert(s@ =~= "schema:"@ + method@ + colon() + "did:"@ + method@ + colon() + did_part@
                + seq![':', '2', ':'] + rest@);
        }
        SchemaId(s)
    }

    /// Strips the entity and method prefixes off a qualified schema id,
    /// unqualifying the inner DID; an id that does not split stays as it
    /// is.
    pub fn to_unqualified(&self) -> (r: SchemaId)
        ensures
            r.0@ == schema_unq(self.0@),
    {
        let core = match strip_entity_prefix(self.0.as_str(), "schema") {
            Some((_m, rest)) => rest,
            None => self.0.clone(),
        };
        let (did_part, rest) = match split_at_mark(core.as_str(), '2') {
            Some(p) => p,
            None => {
                return SchemaId(self.0.clone());
            },
        };
        let did_u = DidValue(did_part).to_unqualified();
        let ghost dp = did_u.0@;
        let mut s = did_u.0;
        s.append(":2:");
        s.append(rest.as_str());
        proof {
            reveal_strlit(":2:");
            assert(":2:"@ =~= seq![':', '2', ':']);
            assert(s@ =~= dp + seq![':', '2', ':'] + rest@);
        }
        SchemaId(s)
    }
}

impl CredentialDefinitionId {
    /// Strips the entity and method prefixes off a qualified credential
    /// definition id, unqualifying the inner DID and schema reference; an
    /// id that does not split stays as it is.
    pub fn to_unqualified(&self) -> (r: CredentialDefinitionId)
        ensures
            r.0@ == cred_def_unq(self.0@),
    {
        let core = match strip_entity_prefix(self.0.as_str(), "creddef") {
            Some((_m, rest)) => rest,
            None => self.0.clone(),
        };
        let (did_part, rest) = match split_at_mark(core.as_str(), '3') {
            Some(p) => p,
            None => {
                return CredentialDefinitionId(self.0.clone());
            },
        };
        let (sig, mid_tag) = match split_first_colon(rest.as_str()) {
            Some(p) => p,
            None => {
                return CredentialDefinitionId(self.0.clone());
            },
        };
        let (schema_ref, tag) = match split_last_colon(mid_tag.as_str()) {
            Some(p) => p,
            None => {
                return CredentialDefinitionId(self.0.clone());
            },
        };
        let did_u = DidValue(did_part).to_unqualified();
        let schema_u = SchemaId(schema_ref).to_unqualified();
        let ghost dp = did_u.0@;
        let mut s = did_u.0;
        s.append(":3:");
        s.append(sig.as_str());
        s.append(":");
        s.append(schema_u.0.as_str());
        s.append(":");
        s.append(tag.as_str());
        proof {
            reveal_strlit(":3:");
            reveal_strlit(":");
            assert(":3:"@ =~= seq![':', '3', ':']);
            assert(s@ =~= dp + seq![':', '3', ':'] + sig@ + colon() + schema_u.0@ + colon()
                + tag@);
        }
        CredentialDefinitionId(s)
    }

    /// Qualifies the id under a method, qualifying the inner DID and, when
    /// it is not a bare sequence number, the inner schema reference; an id
    /// that does not split stays as it is.
    pub fn to_qualified(&self, method: &str) -> (r: CredentialDefinitionId)
        ensures
            r.0@ == cred_def_to_qualified_of(self.0@, method@),
    {
        let (did_part, rest) = match split_at_mark(self.0.as_str(), '3') {
            Some(p) => p,
            None => {
                return CredentialDefinitionId(self.0.clone());
            },
        };
        let (sig, mid_tag) = match split_first_colon(rest.as_str()) {
            Some(p) => p,
            None => {
                return CredentialDefinitionId(self.0.clone());
            },
        };
        let (schema_ref, tag) = match split_last_colon(mid_tag.as_str()) {
            Some(p) => p,
            None => {
                return CredentialDefinitionId(self.0.clone());
            },
        };
        let schema_q = if crate::numstr::parse_dec(schema_ref.as_str()).is_some() {
            schema_ref
        } else {
            SchemaId(schema_ref).to_qualified(method).0
        };
        let mut s = String::new();
        s.append("creddef:");
        s.append(method);
        s.append(":");
        s.append("did:");
        s.append(method);
        s.append(":");
        s.append(did_part.as_str());
        s.append(":3:");
        s.append(sig.as_str());
        s.append(":");
        s.append(schema_q.as_str());
        s.append(":");
        s.append(tag.as_str());
        proof {
            reveal_strlit("creddef:");
            reveal_strlit("did:");
            reveal_strlit(":");
            reveal_strlit(":3:");
            assert(":3:"@ =~= seq![':', '3', ':']);
            assert(s@ =~= "creddef:"@ + method@ + colon() + "did:"@ + method@ + colon() + did_part@
                + seq![':', '3', ':'] + sig@ + colon() + schema_q@ + colon() + tag@);
        }
        CredentialDefinitionId(s)
    }
}

impl RevocationRegistryId {
    /// Strips the entity and method prefixes off a qualified registry id,
    /// unqualifying the inner DID and credential definition id; an id that
    /// does not split stays as it is.
    pub fn to_unqualified(&self) -> (r: RevocationRegistryId)
        ensures
            r.0@ == rev_reg_unq(self.0@),
    {
        let (did, cred, typ, tag) = match self.parts() {
            Ok(p) => p,
            Err(_) => {
                return RevocationRegistryId(self.0.clone());
            },
        };
        let did_u = did.to_unqualified();
        let cred_u = cred.to_unqualified();
        RevocationRegistryId::new(
            &did_u,
            &CredentialDefinitionId(cred_u.0),
            typ.as_str(),
            tag.as_str(),
        )
    }
}

impl SchemaId {
    /// The method of a qualified schema id (`schema:<method>:...`), if it
    /// has one.
    pub fn get_method(&self) -> (r: Option<String>)
        ensures
            match r {
                Some(m) => spec_entity_method(self.0@, "schema"@) == Some(m@),
                None => spec_entity_method(self.0@, "schema"@) is None,
            },
    {
        match strip_entity_prefix(self.0.as_str(), "schema") {
            Some((m, _rest)) => Some(m),
            None => None,
        }
    }
}

impl CredentialDefinitionId {
    /// The method of a qualified credential definition id
    /// (`creddef:<method>:...`), if it has one.
    pub fn get_method(&self) -> (r: Option<String>)
        ensures
            match r {
                Some(m) => spec_entity_method(self.0@, "creddef"@) == Some(m@),
                None => spec_entity_method(self.0@, "creddef"@) is None,
            },
    {
        match strip_entity_prefix(self.0.as_str(), "creddef") {
            Some((m, _rest)) => Some(m),
            None => None,
        }
    }
}

impl Clone for DidValue {
    /// A clone carries the same characters.
    fn clone(&self) -> (r: Self)
        ensures
            r == *self,
    {
        DidValue(self.0.clone())
    }
}

impl Clone for SchemaId {
    /// A clone carries the same characters.
    fn clone(&self) -> (r: Self)
        ensures
            r == *self,
    {
        SchemaId(self.0.clone())
    }
}

impl Clone for CredentialDefinitionId {
    /// A clone carries the same characters.
    fn clone(&self) -> (r: Self)
        ensures
            r == *self,
    {
        CredentialDefinitionId(self.0.clone())
    }
}

impl Clone for RevocationRegistryId {
    /// A clone carries the same characters.
    fn clone(&self) -> (r: Self)
        ensures
            r == *self,
    {
        RevocationRegistryId(self.0.clone())
    }
}


impl PartialEq for DidValue {
    fn eq(&self, other: &Self) -> (r: bool)
        ensures
            r == (self.0@ == other.0@),
    {
        crate::strutil::str_eq(self.0.as_str(), other.0.as_str())
    }
}

impl vstd::std_specs::cmp::PartialEqSpecImpl for DidValue {
    open spec fn obeys_eq_spec() -> bool {
        true
    }

    open spec fn eq_spec(&self, other: &Self) -> bool {
        self.0@ == other.0@
    }
}

impl Eq for DidValue {

}

impl PartialEq for SchemaId {
    fn eq(&self, other: &Self) -> (r: bool)
        ensures
            r == (self.0@ == other.0@),
    {
        crate::strutil::str_eq(self.0.as_str(), other.0.as_str())
    }
}

impl vstd::std_specs::cmp::PartialEqSpecImpl for SchemaId {
    open spec fn obeys_eq_spec() -> bool {
        true
    }

    open spec fn eq_spec(&self, other: &Self) -> bool {
        self.0@ == other.0@
    }
}

impl Eq for SchemaId {

}

impl PartialEq for CredentialDefinitionId {
    fn eq(&self, other: &Self) -> (r: bool)
        ensures
            r == (self.0@ == other.0@),
    {
        crate::strutil::str_eq(self.0.as_str(), other.0.as_str())
    }
}

impl vstd::std_specs::cmp::PartialEqSpecImpl for CredentialDefinitionId {
    open spec fn obeys_eq_spec() -> bool {
        true
    }

    open spec fn eq_spec(&self, other: &Self) -> bool {
        self.0@ == other.0@
    }
}

impl Eq for CredentialDefinitionId {

}

impl PartialEq for RevocationRegistryId {
    fn eq(&self, other: &Self) -> (r: bool)
        ensures
            r == (self.0@ == other.0@),
    {
        crate::strutil::str_eq(self.0.as_str(), other.0.as_str())
    }
}

impl vstd::std_specs::cmp::PartialEqSpecImpl for RevocationRegistryId {
    open spec fn obeys_eq_spec() -> bool {
        true
    }

    open spec fn eq_spec(&self, other: &Self) -> bool {
        self.0@ == other.0@
    }
}

impl Eq for RevocationRegistryId {

}

} // verus!
