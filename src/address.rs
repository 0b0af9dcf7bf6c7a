//! Deterministic record addresses, derived from seed bytes and the program id.
//!
//! A request lives at the address derived from `"request"`, the requester and
//! the topic bytes, cut into seeds of at most 32 bytes; a report at the one derived from `"report"` and its
//! request's address; a verification at the one derived from `"verification"`,
//! the report's address and the verifier.
use anchor_lang::prelude::Pubkey;
use vstd::prelude::*;
use vstd::string::*;
use vstd::utf8::encode_utf8;

verus! {

/// The address that the ledger derives from `seeds` under `program_id`,
/// or `None` when no address can be derived from them.
pub uninterp spec fn derived_address(seeds: Seq<Seq<u8>>, program_id: Seq<u8>) -> Option<[u8; 32]>;

/// Relies on `Pubkey::try_find_program_address` (solana-program): the address
/// depends on the seeds and the program id alone, and no address is found when
/// a seed is longer than 32 bytes.
#[verifier::external_body]
fn find_address(seeds: &Vec<Vec<u8>>, program_id: &[u8; 32]) -> (r: Option<[u8; 32]>)
    ensures
        r == derived_address(seeds.deep_view(), program_id@),
        (exists|i: int| 0 <= i < seeds@.len() && #[trigger] seeds@[i]@.len() > 32) ==> r is None,
{
    let s: Vec<&[u8]> = seeds.iter().map(|v| v.as_slice()).collect();
    Pubkey::try_find_program_address(&s, &Pubkey::new_from_array(*program_id)).map(|(a, _)| a.to_bytes())
}

/// The bytes of `"request"`.
pub open spec fn request_tag() -> Seq<u8> {
    seq![114u8, 101u8, 113u8, 117u8, 101u8, 115u8, 116u8]
}

/// The bytes of `"report"`.
pub open spec fn report_tag() -> Seq<u8> {
    seq![114u8, 101u8, 112u8, 111u8, 114u8, 116u8]
}

/// The bytes of `"verification"`.
pub open spec fn verification_tag() -> Seq<u8> {
    seq![118u8, 101u8, 114u8, 105u8, 102u8, 105u8, 99u8, 97u8, 116u8, 105u8, 111u8, 110u8]
}

/// The topic bytes cut into consecutive seeds of at most 32 bytes: the whole
/// topic when it fits one seed, else its first 32 bytes and then the rest.
pub open spec fn topic_seeds(topic: Seq<u8>) -> Seq<Seq<u8>>
    decreases topic.len(),
{
    if topic.len() <= 32 {
        seq![topic]
    } else {
        seq![topic.subrange(0, 32)] + topic_seeds(topic.subrange(32, topic.len() as int))
    }
}

/// Every seed of `topic_seeds` holds at most 32 bytes.
pub proof fn lemma_topic_seeds_fit(topic: Seq<u8>)
    ensures
        forall|i: int| 0 <= i < topic_seeds(topic).len() ==> #[trigger] topic_seeds(topic)[i].len() <= 32,
    decreases topic.len(),
{
    if topic.len() > 32 {
        let rest = topic.subrange(32, topic.len() as int);
        lemma_topic_seeds_fit(rest);
        let s = topic_seeds(topic);
        assert forall|i: int| 0 <= i < s.len() implies #[trigger] s[i].len() <= 32 by {
            if i > 0 {
                assert(s[i] == topic_seeds(rest)[i - 1]);
            }
        }
    }
}

pub open spec fn request_seeds(requester: [u8; 32], topic: Seq<u8>) -> Seq<Seq<u8>> {
    seq![request_tag(), requester@] + topic_seeds(topic)
}

pub open spec fn report_seeds(request: [u8; 32]) -> Seq<Seq<u8>> {
    seq![report_tag(), request@]
}

pub open spec fn verification_seeds(report: [u8; 32], verifier: [u8; 32]) -> Seq<Seq<u8>> {
    seq![verification_tag(), report@, verifier@]
}

/// Where the request of `requester` on a topic with these bytes lives.
pub open spec fn request_address(program_id: [u8; 32], requester: [u8; 32], topic: Seq<u8>) -> Option<[u8; 32]> {
    derived_address(request_seeds(requester, topic), program_id@)
}

/// Where the report on the request at `request` lives.
pub open spec fn report_address(program_id: [u8; 32], request: [u8; 32]) -> Option<[u8; 32]> {
    derived_address(report_seeds(request), program_id@)
}

/// Where the attestation of `verifier` on the report at `report` lives.
pub open spec fn verification_address(program_id: [u8; 32], report: [u8; 32], verifier: [u8; 32]) -> Option<[u8; 32]> {
    derived_address(verification_seeds(report, verifier), program_id@)
}

/// The bytes of a 32-byte key, in order.
fn key_bytes(k: &[u8; 32]) -> (r: Vec<u8>)
    ensures
        r@ == k@,
{
    let mut r: Vec<u8> = Vec::new();
    let mut i: usize = 0;
    while i < 32
        invariant
            i <= 32,
            r@ == k@.subrange(0, i as int),
        decreases 32 - i,
    {
        r.push(k[i]);
        i = i + 1;
        assert(r@ =~= k@.subrange(0, i as int));
    }
    assert(r@ =~= k@);
    r
}

/// Whether two 32-byte keys are the same.
pub fn same_key(a: &[u8; 32], b: &[u8; 32]) -> (r: bool)
    ensures
        r == (*a == *b),
{
    let mut i: usize = 0;
    while i < 32
        invariant
            i <= 32,
            forall|j: int| 0 <= j < i ==> a[j] == b[j],
        decreases 32 - i,
    {
        if a[i] != b[i] {
            return false;
        }
        i = i + 1;
    }
    assert(*a =~= *b);
    true
}

/// The bytes of `b` from `from` up to `to`.
fn sub_bytes(b: &Vec<u8>, from: usize, to: usize) -> (r: Vec<u8>)
    requires
        from <= to <= b@.len(),
    ensures
        r@ == b@.subrange(from as int, to as int),
{
    let mut r: Vec<u8> = Vec::new();
    let mut i: usize = from;
    while i < to
        invariant
            from <= i <= to <= b@.len(),
            r@ == b@.subrange(from as int, i as int),
        decreases to - i,
    {
        r.push(b[i]);
        i = i + 1;
        assert(r@ =~= b@.subrange(from as int, i as int));
    }
    r
}

/// The address of the request that `requester` opens on `topic`.
pub fn find_request_address(program_id: &[u8; 32], requester: &[u8; 32], topic: &String) -> (r: Option<[u8; 32]>)
    ensures
        r == request_address(*program_id, *requester, encode_utf8(topic@)),
{
    let mut seeds: Vec<Vec<u8>> = Vec::new();
    let tag = vec![114u8, 101u8, 113u8, 117u8, 101u8, 115u8, 116u8];
    let owner = key_bytes(requester);
    let text = topic.as_str().as_bytes_vec();
    let ghost full = request_seeds(*requester, text@);
    assert(tag.deep_view() =~= request_tag());
    assert(owner.deep_view() =~= requester@);
    seeds.push(tag);
    seeds.push(owner);
    assert(seeds.deep_view() + topic_seeds(text@.subrange(0, text@.len() as int)) =~= full) by {
        assert(text@.subrange(0, text@.len() as int) =~= text@);
    }
    let n = text.len();
    let mut pos: usize = 0;
    while n - pos > 32
        invariant
            pos <= n == text@.len(),
            seeds.deep_view() + topic_seeds(text@.subrange(pos as int, n as int)) =~= full,
        decreases n - pos,
    {
        let chunk = sub_bytes(&text, pos, pos + 32);
        let ghost rest = text@.subrange(pos as int, n as int);
        let ghost before = seeds.deep_view();
        assert(chunk.deep_view() =~= rest.subrange(0, 32));
        assert(rest.subrange(32, rest.len() as int) =~= text@.subrange(pos + 32, n as int));
        seeds.push(chunk);
        assert(seeds.deep_view() =~= before.push(chunk.deep_view()));
        pos = pos + 32;
        assert(seeds.deep_view() + topic_seeds(text@.subrange(pos as int, n as int)) =~= full);
    }
    let last = sub_bytes(&text, pos, n);
    let ghost before = seeds.deep_view();
    assert(last.deep_view() =~= text@.subrange(pos as int, n as int));
    seeds.push(last);
    assert(seeds.deep_view() =~= before.push(last.deep_view()));
    assert(seeds.deep_view() =~= full);
    find_address(&seeds, program_id)
}

/// The address of the report on the request at `request`.
pub fn find_report_address(program_id: &[u8; 32], request: &[u8; 32]) -> (r: Option<[u8; 32]>)
    ensures
        r == report_address(*program_id, *request),
{
    let mut seeds: Vec<Vec<u8>> = Vec::new();
    let tag = vec![114u8, 101u8, 112u8, 111u8, 114u8, 116u8];
    let parent = key_bytes(request);
    assert(tag.deep_view() =~= report_tag());
    assert(parent.deep_view() =~= request@);
    seeds.push(tag);
    seeds.push(parent);
    assert(seeds.deep_view() =~= report_seeds(*request));
    find_address(&seeds, program_id)
}

/// The address of the attestation of `verifier` on the report at `report`.
pub fn find_verification_address(program_id: &[u8; 32], report: &[u8; 32], verifier: &[u8; 32]) -> (r: Option<[u8; 32]>)
    ensures
        r == verification_address(*program_id, *report, *verifier),
{
    let mut seeds: Vec<Vec<u8>> = Vec::new();
    let tag = vec![118u8, 101u8, 114u8, 105u8, 102u8, 105u8, 99u8, 97u8, 116u8, 105u8, 111u8, 110u8];
    let parent = key_bytes(report);
    let attester = key_bytes(verifier);
    assert(tag.deep_view() =~= verification_tag());
    assert(parent.deep_view() =~= report@);
    assert(attester.deep_view() =~= verifier@);
    seeds.push(tag);
    seeds.push(parent);
    seeds.push(attester);
    assert(seeds.deep_view() =~= verification_seeds(*report, *verifier));
    find_address(&seeds, program_id)
}

} // verus!
