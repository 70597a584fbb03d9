use vstd::prelude::*;
use vstd::bytes::*;
use vstd::slice::*;
use crate::errors::RegistryError;

verus! {

/// Number of bytes in the opaque tag region that prefixes every stored record.
/// The tag belongs to the storage layer; this core carries it through unread.
pub const TAG_LEN: usize = 8;

/// Fixed capacity reserved for the registry state: the tag region followed by
/// the 8-byte counter.
pub const STATE_CAPACITY: usize = 16;

/// Fixed capacity reserved for every topic record, independent of the actual
/// lengths of its variable fields.
pub const TOPIC_CAPACITY: usize = 256;

/// Width in bytes of an owner identity, and of a storage address.
pub const ID_LEN: usize = 32;

/// The registry's singleton state: the number of topics ever created, which
/// is also the next index to assign.
#[derive(Clone, Copy, Debug, PartialEq, Eq, Structural)]
pub struct StateAccount {
    pub topic_count: u64,
}

/// One topic record, immutable after creation. The owner identity is a
/// fixed-width byte string; name and description are caller-supplied bytes,
/// opaque to this core.
#[derive(Clone, Debug, PartialEq, Eq)]
pub struct TopicAccount {
    pub owner: Vec<u8>,
    pub name: Vec<u8>,
    pub description: Vec<u8>,
    pub index: u64,
}

/// The mathematical value of a topic record.
pub ghost struct TopicView {
    pub owner: Seq<u8>,
    pub name: Seq<u8>,
    pub description: Seq<u8>,
    pub index: u64,
}

impl View for TopicAccount {
    type V = TopicView;

    open spec fn view(&self) -> TopicView {
        TopicView {
            owner: self.owner@,
            name: self.name@,
            description: self.description@,
            index: self.index,
        }
    }
}

/// Layout of the registry state: the tag region followed by the counter,
/// little endian. Exactly `STATE_CAPACITY` bytes.
pub open spec fn spec_encode_state(tag: Seq<u8>, state: StateAccount) -> Seq<u8> {
    tag + spec_u64_to_le_bytes(state.topic_count)
}

/// Reads a registry state back out of its fixed-capacity buffer; the tag
/// region is skipped unread.
pub open spec fn spec_decode_state(b: Seq<u8>) -> Option<StateAccount> {
    if b.len() == STATE_CAPACITY {
        Some(
            StateAccount {
                topic_count: spec_u64_from_le_bytes(
                    b.subrange(TAG_LEN as int, STATE_CAPACITY as int),
                ),
            },
        )
    } else {
        None
    }
}

/// The meaningful bytes of a topic record: tag region, fixed-width owner,
/// length-prefixed name, length-prefixed description, and the index. Length
/// prefixes and the index are little endian.
pub open spec fn spec_topic_body(tag: Seq<u8>, t: TopicView) -> Seq<u8> {
    tag + t.owner + spec_u32_to_le_bytes(t.name.len() as u32) + t.name + spec_u32_to_le_bytes(
        t.description.len() as u32,
    ) + t.description + spec_u64_to_le_bytes(t.index)
}

/// How many bytes the meaningful part of a topic record occupies: the tag
/// region, the owner, two 4-byte length prefixes, both strings, and the index.
pub open spec fn spec_topic_encoded_len(t: TopicView) -> int {
    TAG_LEN + ID_LEN + 4 + t.name.len() + 4 + t.description.len() + 8
}

/// `n` zero bytes.
pub open spec fn zero_bytes(n: int) -> Seq<u8> {
    Seq::new(n as nat, |i: int| 0u8)
}

/// The full fixed-capacity buffer of a topic record: the meaningful bytes,
/// zero-padded up to `TOPIC_CAPACITY`.
pub open spec fn spec_encode_topic(tag: Seq<u8>, t: TopicView) -> Seq<u8> {
    spec_topic_body(tag, t) + zero_bytes(TOPIC_CAPACITY - spec_topic_encoded_len(t))
}

/// Reads a topic record back out of its fixed-capacity buffer. The tag region
/// and the zero padding are skipped unread; malformed length prefixes yield
/// nothing.
pub open spec fn spec_decode_topic(b: Seq<u8>) -> Option<TopicView> {
    if b.len() != TOPIC_CAPACITY {
        None
    } else {
        let n = spec_u32_from_le_bytes(b.subrange(40, 44)) as int;
        if 44 + n + 4 + 8 <= TOPIC_CAPACITY {
            let d = spec_u32_from_le_bytes(b.subrange(44 + n, 48 + n)) as int;
            if 48 + n + d + 8 <= TOPIC_CAPACITY {
                Some(
                    TopicView {
                        owner: b.subrange(TAG_LEN as int, (TAG_LEN + ID_LEN) as int),
                        name: b.subrange(44, 44 + n),
                        description: b.subrange(48 + n, 48 + n + d),
                        index: spec_u64_from_le_bytes(b.subrange(48 + n + d, 56 + n + d)),
                    },
                )
            } else {
                None
            }
        } else {
            None
        }
    }
}

/// Appends all of `src` to `dst`.
pub fn push_all(dst: &mut Vec<u8>, src: &Vec<u8>)
    ensures
        final(dst)@ == old(dst)@ + src@,
{
    let mut i: usize = 0;
    while i < src.len()
        invariant
            i <= src@.len(),
            dst@ == old(dst)@ + src@.subrange(0, i as int),
        decreases src@.len() - i,
    {
        dst.push(src[i]);
        proof {
            assert(old(dst)@ + src@.subrange(0, i + 1 as int) =~= (old(dst)@ + src@.subrange(
                0,
                i as int,
            )).push(src@[i as int]));
        }
        i = i + 1;
    }
    proof {
        assert(src@.subrange(0, src@.len() as int) =~= src@);
    }
}

/// Serializes the registry state into its fixed-capacity buffer. A state
/// record always fits: its two regions have fixed widths.
pub fn encode_state(tag: &Vec<u8>, state: &StateAccount) -> (r: Vec<u8>)
    requires
        tag@.len() == TAG_LEN,
    ensures
        r@ == spec_encode_state(tag@, *state),
        r@.len() == STATE_CAPACITY,
{
    let mut out: Vec<u8> = Vec::new();
    push_all(&mut out, tag);
    let cnt = u64_to_le_bytes(state.topic_count);
    push_all(&mut out, &cnt);
    proof {
        lemma_auto_spec_u64_to_from_le_bytes();
        assert(out@ =~= spec_encode_state(tag@, *state));
    }
    out
}

/// Deserializes a registry state; the exact inverse of `encode_state`.
pub fn decode_state(buf: &Vec<u8>) -> (r: Option<StateAccount>)
    ensures
        r == spec_decode_state(buf@),
{
    if buf.len() != STATE_CAPACITY {
        return None;
    }
    let s = slice_subrange(buf.as_slice(), TAG_LEN, STATE_CAPACITY);
    let x = u64_from_le_bytes(s);
    Some(StateAccount { topic_count: x })
}

/// Serializes a topic record into its fixed-capacity buffer, zero-padded.
/// Fails, touching nothing, exactly when the meaningful bytes would not fit.
pub fn encode_topic(tag: &Vec<u8>, topic: &TopicAccount) -> (r: Result<Vec<u8>, RegistryError>)
    requires
        tag@.len() == TAG_LEN,
        topic.owner@.len() == ID_LEN,
    ensures
        r matches Ok(buf) ==> spec_topic_encoded_len(topic@) <= TOPIC_CAPACITY && buf@
            == spec_encode_topic(tag@, topic@) && buf@.len() == TOPIC_CAPACITY,
        r matches Err(e) ==> spec_topic_encoded_len(topic@) > TOPIC_CAPACITY && e
            == RegistryError::CapacityExceeded,
{
    if topic.name.len() > TOPIC_CAPACITY || topic.description.len() > TOPIC_CAPACITY {
        return Err(RegistryError::CapacityExceeded);
    }
    let used = TAG_LEN + ID_LEN + 4 + topic.name.len() + 4 + topic.description.len() + 8;
    if used > TOPIC_CAPACITY {
        return Err(RegistryError::CapacityExceeded);
    }
    let mut out: Vec<u8> = Vec::new();
    push_all(&mut out, tag);
    push_all(&mut out, &topic.owner);
    let nlen = u32_to_le_bytes(topic.name.len() as u32);
    push_all(&mut out, &nlen);
    push_all(&mut out, &topic.name);
    let dlen = u32_to_le_bytes(topic.description.len() as u32);
    push_all(&mut out, &dlen);
    push_all(&mut out, &topic.description);
    let idx = u64_to_le_bytes(topic.index);
    push_all(&mut out, &idx);
    proof {
        lemma_auto_spec_u32_to_from_le_bytes();
        lemma_auto_spec_u64_to_from_le_bytes();
        assert(out@ =~= spec_topic_body(tag@, topic@));
        assert(out@ =~= spec_topic_body(tag@, topic@) + zero_bytes(
            out@.len() - spec_topic_encoded_len(topic@),
        ));
    }
    while out.len() < TOPIC_CAPACITY
        invariant
            spec_topic_encoded_len(topic@) <= out@.len() <= TOPIC_CAPACITY,
            out@ == spec_topic_body(tag@, topic@) + zero_bytes(
                out@.len() - spec_topic_encoded_len(topic@),
            ),
        decreases TOPIC_CAPACITY - out@.len(),
    {
        out.push(0u8);
        proof {
            assert(out@ =~= spec_topic_body(tag@, topic@) + zero_bytes(
                out@.len() - spec_topic_encoded_len(topic@),
            ));
        }
    }
    Ok(out)
}

/// Deserializes a topic record; the exact inverse of `encode_topic` on every
/// buffer the latter produces.
pub fn decode_topic(buf: &Vec<u8>) -> (r: Option<TopicAccount>)
    ensures
        (match r {
            Some(t) => spec_decode_topic(buf@) == Some(t@),
            None => spec_decode_topic(buf@) is None,
        }),
{
    if buf.len() != TOPIC_CAPACITY {
        return None;
    }
    let s = buf.as_slice();
    let owner = slice_to_vec(slice_subrange(s, TAG_LEN, TAG_LEN + ID_LEN));
    let nlen = u32_from_le_bytes(slice_subrange(s, 40, 44)) as usize;
    if nlen > TOPIC_CAPACITY - 44 - 4 - 8 {
        return None;
    }
    let name = slice_to_vec(slice_subrange(s, 44, 44 + nlen));
    let dlen = u32_from_le_bytes(slice_subrange(s, 44 + nlen, 48 + nlen)) as usize;
    if dlen > TOPIC_CAPACITY - 48 - nlen - 8 {
        return None;
    }
    let description = slice_to_vec(slice_subrange(s, 48 + nlen, 48 + nlen + dlen));
    let index = u64_from_le_bytes(slice_subrange(s, 48 + nlen + dlen, 56 + nlen + dlen));
    Some(TopicAccount { owner, name, description, index })
}

/// Round trip for the registry state: decoding an encoded state gives the
/// state back, whatever the tag region held.
pub proof fn lemma_state_round_trip(tag: Seq<u8>, state: StateAccount)
    requires
        tag.len() == TAG_LEN,
    ensures
        spec_decode_state(spec_encode_state(tag, state)) == Some(state),
{
    lemma_auto_spec_u64_to_from_le_bytes();
    let b = spec_encode_state(tag, state);
    assert(b.subrange(TAG_LEN as int, STATE_CAPACITY as int) =~= spec_u64_to_le_bytes(
        state.topic_count,
    ));
}

/// Round trip for topic records: decoding an encoded record gives the record
/// back, for every record that fits its fixed-capacity buffer.
pub proof fn lemma_topic_round_trip(tag: Seq<u8>, t: TopicView)
    requires
        tag.len() == TAG_LEN,
        t.owner.len() == ID_LEN,
        spec_topic_encoded_len(t) <= TOPIC_CAPACITY,
    ensures
        spec_decode_topic(spec_encode_topic(tag, t)) == Some(t),
{
    lemma_auto_spec_u32_to_from_le_bytes();
    lemma_auto_spec_u64_to_from_le_bytes();
    let b = spec_encode_topic(tag, t);
    let n = t.name.len() as int;
    let d = t.description.len() as int;
    assert(b.len() == TOPIC_CAPACITY);
    assert(b.subrange(40, 44) =~= spec_u32_to_le_bytes(t.name.len() as u32));
    assert(spec_u32_from_le_bytes(b.subrange(40, 44)) == t.name.len() as u32);
    assert(b.subrange(44 + n, 48 + n) =~= spec_u32_to_le_bytes(t.description.len() as u32));
    assert(b.subrange(TAG_LEN as int, (TAG_LEN + ID_LEN) as int) =~= t.owner);
    assert(b.subrange(44, 44 + n) =~= t.name);
    assert(b.subrange(48 + n, 48 + n + d) =~= t.description);
    assert(b.subrange(48 + n + d, 56 + n + d) =~= spec_u64_to_le_bytes(t.index));
    assert(t == TopicView { owner: t.owner, name: t.name, description: t.description, index: t.index });
}

} // verus!
