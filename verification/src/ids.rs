//! Semantic element identities: reading them from their UUID text, and the
//! stable UUIDs given to diagrams a model script creates.

use vstd::prelude::*;
use vstd::utf8::encode_utf8;
use crate::model_build::ElementId;
use crate::text::{push_text, string_from_chars, strs};

verus! {

/// What `uuid::Uuid::parse_str` gives for a text: the UUID's 128 bits, or the
/// text of the parse error.
pub uninterp spec fn uuid_parse(text: Seq<char>) -> Result<u128, Seq<char>>;

/// The lower-case hexadecimal digit of `n` (`n < 16`).
pub open spec fn hex_digit(n: u128) -> char {
    if n < 10 {
        ((48 + n) as u8) as char
    } else {
        ((87 + n) as u8) as char
    }
}

/// The `i`-th of the 32 hexadecimal digits of `v`, most significant first.
pub open spec fn nibble(v: u128, i: int) -> u128 {
    (v >> ((124 - 4 * i) as u128)) & 0xf
}

/// Position of character `j` of the hyphenated text among the 32 digits, or
/// `-1` for a hyphen.
pub open spec fn digit_index(j: int) -> int {
    if j < 8 {
        j
    } else if j == 8 || j == 13 || j == 18 || j == 23 {
        -1
    } else if j < 13 {
        j - 1
    } else if j < 18 {
        j - 2
    } else if j < 23 {
        j - 3
    } else {
        j - 4
    }
}

/// The hyphenated lower-case text (8-4-4-4-12 digits) of a UUID's 128 bits.
pub open spec fn uuid_text_spec(v: u128) -> Seq<char> {
    Seq::new(
        36,
        |j: int|
            if digit_index(j) < 0 {
                '-'
            } else {
                hex_digit(nibble(v, digit_index(j)))
            },
    )
}

/// `uuid::Uuid::parse_str`, giving the UUID's 128 bits or the error's text.
/// The hyphenated lower-case text of a UUID (the form `to_string` writes) reads
/// back as that UUID.
#[verifier::external_body]
fn uuid_parse_str(text: &str) -> (r: Result<u128, String>)
    ensures
        match r {
            Ok(v) => uuid_parse(text@) == Ok::<u128, Seq<char>>(v),
            Err(m) => uuid_parse(text@) == Err::<u128, Seq<char>>(m@),
        },
        (forall|v: u128| text@ == uuid_text_spec(v) ==> (r is Ok && r->Ok_0 == v)),
{
    match uuid::Uuid::parse_str(text) {
        Ok(u) => Ok(u.as_u128()),
        Err(e) => Err(e.to_string()),
    }
}

/// `uuid::Uuid::from_u128(value).to_string()`: the hyphenated lower-case text
/// of the UUID.
#[verifier::external_body]
fn uuid_text(value: u128) -> (text: String)
    ensures
        text@ == uuid_text_spec(value),
{
    uuid::Uuid::from_u128(value).to_string()
}

/// The hyphenated lower-case text of a version-4 (random, RFC 4122 variant)
/// UUID: version digit `4` at position 14, variant digit `8`, `9`, `a` or `b`
/// at position 19.
pub open spec fn is_v4_uuid_text(t: Seq<char>) -> bool {
    &&& exists|v: u128| t == uuid_text_spec(v)
    &&& t[14] == '4'
    &&& (t[19] == '8' || t[19] == '9' || t[19] == 'a' || t[19] == 'b')
}

/// `uuid::Uuid::new_v4().to_string()`: the hyphenated lower-case text of a
/// random version-4 UUID. Which random bits it holds is left open.
#[verifier::external_body]
pub(crate) fn fresh_uuid_text() -> (text: String)
    ensures
        is_v4_uuid_text(text@),
{
    uuid::Uuid::new_v4().to_string()
}

/// The UUID text of an element identity.
pub fn element_id_text(id: ElementId) -> (text: String)
    ensures
        text@ == uuid_text_spec(id.0),
{
    uuid_text(id.0)
}

/// Read an element identity from its UUID text.
pub fn parse_element_id(value: &str) -> (r: Result<ElementId, String>)
    ensures
        match r {
            Ok(id) => uuid_parse(value@) == Ok::<u128, Seq<char>>(id.0),
            Err(m) => uuid_parse(value@) == Err::<u128, Seq<char>>(m@),
        },
        (forall|v: u128| value@ == uuid_text_spec(v) ==> (r is Ok && r->Ok_0.0 == v)),
{
    match uuid_parse_str(value) {
        Ok(v) => Ok(ElementId(v)),
        Err(m) => Err(m),
    }
}

/// The identities a list of UUID texts denotes, or the parse error of the
/// first text that is not a UUID.
pub open spec fn parse_path_spec(values: Seq<Seq<char>>) -> Result<Seq<ElementId>, Seq<char>>
    decreases values.len(),
{
    if values.len() == 0 {
        Ok(Seq::empty())
    } else {
        match uuid_parse(values[0]) {
            Err(m) => Err(m),
            Ok(v) => match parse_path_spec(values.drop_first()) {
                Err(m) => Err(m),
                Ok(rest) => Ok(seq![ElementId(v)] + rest),
            },
        }
    }
}

/// Read a property path of element identities.
pub fn parse_path(values: &[String]) -> (r: Result<Vec<ElementId>, String>)
    ensures
        match (r, parse_path_spec(strs(values@))) {
            (Ok(ids), Ok(spec_ids)) => ids@ == spec_ids,
            (Err(m), Err(spec_m)) => m@ == spec_m,
            _ => false,
        },
{
    let mut ids: Vec<ElementId> = Vec::new();
    let mut k: usize = 0;
    let ghost all = strs(values@);
    assert(all.skip(0) =~= all);
    while k < values.len()
        invariant
            k <= values@.len(),
            all == strs(values@),
            parse_path_spec(all) == (match parse_path_spec(all.skip(k as int)) {
                Err(m) => Err(m),
                Ok(rest) => Ok(ids@ + rest),
            }),
        decreases values.len() - k,
    {
        assert(all.skip(k as int)[0] == values@[k as int]@);
        assert(all.skip(k as int).drop_first() =~= all.skip(k + 1));
        match parse_element_id(values[k].as_str()) {
            Err(m) => {
                return Err(m);
            },
            Ok(id) => {
                let ghost before = ids@;
                ids.push(id);
                proof {
                    match parse_path_spec(all.skip(k + 1)) {
                        Err(_) => {},
                        Ok(rest) => {
                            assert(before + (seq![id] + rest) =~= ids@ + rest);
                        },
                    }
                }
            },
        }
        k = k + 1;
    }
    assert(all.skip(k as int) =~= Seq::<Seq<char>>::empty());
    assert(ids@ + Seq::<ElementId>::empty() =~= ids@);
    Ok(ids)
}

/// Identity of a semantic relationship (the 128 bits of its UUID).
#[derive(Debug, Clone, Copy, PartialEq, Eq, Structural, Hash)]
pub struct RelationshipId(pub u128);

/// Read a relationship identity from its UUID text; a text that is not a UUID
/// is reported with the text itself.
pub fn parse_relationship(value: &str) -> (r: Result<RelationshipId, String>)
    ensures
        match r {
            Ok(id) => uuid_parse(value@) == Ok::<u128, Seq<char>>(id.0),
            Err(m) => uuid_parse(value@) is Err && m@ == "invalid relationship id: "@ + value@,
        },
        (forall|v: u128| value@ == uuid_text_spec(v) ==> (r is Ok && r->Ok_0.0 == v)),
{
    match uuid_parse_str(value) {
        Ok(v) => Ok(RelationshipId(v)),
        Err(_) => {
            let mut m: Vec<char> = Vec::new();
            push_text(&mut m, "invalid relationship id: ");
            push_text(&mut m, value);
            Err(string_from_chars(m.as_slice()))
        },
    }
}

/// The FNV-1a step: mix one byte into a 64-bit hash.
pub open spec fn fnv_step(h: u64, b: u8) -> u64 {
    (((h ^ (b as u64)) as nat * 0x100000001b3nat) % 0x1_0000_0000_0000_0000nat) as u64
}

/// The 64-bit FNV-1a hash of `bytes` from `seed`.
pub open spec fn fnv_hash(seed: u64, bytes: Seq<u8>) -> u64
    decreases bytes.len(),
{
    if bytes.len() == 0 {
        seed
    } else {
        fnv_step(fnv_hash(seed, bytes.drop_last()), bytes.last())
    }
}

/// The text hashed to name a script diagram.
pub open spec fn diagram_key(namespace: Seq<char>, external_id: Seq<char>) -> Seq<char> {
    "systems-modeler:model-script:"@ + namespace + ":"@ + external_id
}

/// The 128 bits of a stable script diagram identity: two FNV-1a hashes of the
/// UTF-8 key, with the version nibble set to 8 and the RFC variant bits.
pub open spec fn stable_diagram_bits(namespace: Seq<char>, external_id: Seq<char>) -> u128 {
    let data = encode_utf8(diagram_key(namespace, external_id));
    let high = (fnv_hash(0xcbf29ce484222325, data) & 0xffff_ffff_ffff_0fff) | 0x8000;
    let low = (fnv_hash(0x84222325cbf29ce4, data) & 0x3fff_ffff_ffff_ffff) | 0x8000_0000_0000_0000;
    ((high as u128) << 64u128) | (low as u128)
}

fn fnv(seed: u64, bytes: &[u8]) -> (h: u64)
    ensures
        h == fnv_hash(seed, bytes@),
{
    let mut h = seed;
    let mut k: usize = 0;
    while k < bytes.len()
        invariant
            k <= bytes@.len(),
            h == fnv_hash(seed, bytes@.take(k as int)),
        decreases bytes.len() - k,
    {
        assert(bytes@.take(k + 1).drop_last() =~= bytes@.take(k as int));
        h = (h ^ (bytes[k] as u64)).wrapping_mul(0x100000001b3);
        k = k + 1;
    }
    assert(bytes@.take(bytes@.len() as int) =~= bytes@);
    h
}

/// The identity of the diagram a script creates for `external_id`: the same
/// namespace and External ID always give the same UUID text, so applying a
/// script again replaces its diagrams instead of adding new ones.
pub fn stable_script_diagram_id(namespace: &str, external_id: &str) -> (id: String)
    ensures
        id@ == uuid_text_spec(stable_diagram_bits(namespace@, external_id@)),
{
    let mut key = "systems-modeler:model-script:".to_owned();
    key.append(namespace);
    key.append(":");
    key.append(external_id);
    assert(key@ =~= diagram_key(namespace@, external_id@));
    let data = key.as_str().as_bytes();
    let high = (fnv(0xcbf29ce484222325, data) & 0xffff_ffff_ffff_0fff) | 0x8000;
    let low = (fnv(0x84222325cbf29ce4, data) & 0x3fff_ffff_ffff_ffff) | 0x8000_0000_0000_0000;
    uuid_text(((high as u128) << 64u128) | (low as u128))
}

/// A stable script diagram identity is a version-8 UUID of the RFC variant:
/// its 15th character is `8` and its 20th is one of `8`, `9`, `a`, `b`.
pub proof fn lemma_stable_id_is_version_8(namespace: Seq<char>, external_id: Seq<char>)
    ensures
        uuid_text_spec(stable_diagram_bits(namespace, external_id))[14] == '8',
        ({
            let c = uuid_text_spec(stable_diagram_bits(namespace, external_id))[19];
            c == '8' || c == '9' || c == 'a' || c == 'b'
        }),
{
    let data = encode_utf8(diagram_key(namespace, external_id));
    let h1 = fnv_hash(0xcbf29ce484222325, data);
    let h2 = fnv_hash(0x84222325cbf29ce4, data);
    let v = stable_diagram_bits(namespace, external_id);
    assert(((v >> 76u128) & 0xf) == 8) by (bit_vector)
        requires
            v == ((((h1 & 0xffff_ffff_ffff_0fff) | 0x8000) as u128) << 64u128) | (((h2
                & 0x3fff_ffff_ffff_ffff) | 0x8000_0000_0000_0000) as u128),
    ;
    assert(8 <= ((v >> 60u128) & 0xf) <= 11) by (bit_vector)
        requires
            v == ((((h1 & 0xffff_ffff_ffff_0fff) | 0x8000) as u128) << 64u128) | (((h2
                & 0x3fff_ffff_ffff_ffff) | 0x8000_0000_0000_0000) as u128),
    ;
}

} // verus!
