//! What a server offers: its hosts, their catalogue and the digests of requests.

use crate::channel::{be_bytes, length_prefix};
use crate::config::{collect_host_ids, host_id_of, host_ids_of, HostConfig};
use crate::crypto::{digest, sha256};
use crate::net::IpAddress;
use crate::octets::extend;
use crate::protocol::{header_models, is_id, summary_models, Header, HeaderModel, HostSummary};
use crate::text::{sort_texts, sorted_texts, texts};
use vstd::prelude::*;

verus! {

/// A configured host under its identifier.
pub struct HostEntry {
    pub id: String,
    pub config: HostConfig,
}

impl Clone for HostEntry {
    fn clone(&self) -> (r: HostEntry)
        ensures
            r == *self,
    {
        HostEntry { id: self.id.clone(), config: self.config.clone() }
    }
}

/// An address to listen on.
#[derive(Clone, Copy, Debug, PartialEq, Eq)]
pub struct BindAddress {
    pub ip: IpAddress,
    pub port: u16,
}

/// The settings that a server works with.
pub struct Snapshot {
    pub bind_addrs: Vec<BindAddress>,
    pub dual_stack: bool,
    pub headers: Vec<Header>,
    pub hosts: Vec<HostEntry>,
    pub summaries: Vec<HostSummary>,
    pub catalog_version: u64,
    pub max_requests_per_minute: u32,
    pub clock_skew: u64,
}

/// The identifiers of the hosts, in order.
pub open spec fn entry_ids(hosts: Seq<HostEntry>) -> Seq<Seq<char>> {
    hosts.map_values(|entry: HostEntry| entry.id@)
}

impl Snapshot {
    /// The hosts have identifiers of their own that the wire accepts, and the
    /// catalogue lists them in order.
    pub open spec fn wf(self) -> bool {
        &&& entry_ids(self.hosts@).no_duplicates()
        &&& self.hosts@.len() <= crate::protocol::MAX_HOSTS
        &&& forall|i: int| 0 <= i < self.hosts@.len() ==> is_id(#[trigger] self.hosts@[i].id@)
        &&& summary_models(self.summaries@) == sorted_texts(entry_ids(self.hosts@))
        &&& self.catalog_version != 0
        &&& crate::protocol::ascending(header_models(self.headers@))
        &&& crate::protocol::headers_fault(header_models(self.headers@)) is None
    }

    /// The entry of a host.
    pub fn find(&self, id: &str) -> (r: Option<&HostEntry>)
        ensures
            match r {
                Some(entry) => self.hosts@.contains(*entry) && entry.id@ == id@,
                None => !entry_ids(self.hosts@).contains(id@),
            },
    {
        let mut i: usize = 0;
        while i < self.hosts.len()
            invariant
                i <= self.hosts@.len(),
                forall|k: int| 0 <= k < i ==> entry_ids(self.hosts@)[k] != id@,
            decreases self.hosts@.len() - i,
        {
            if crate::text::same_text(&self.hosts[i].id, id) {
                assert(self.hosts@[i as int] == self.hosts[i as int]);
                return Some(&self.hosts[i]);
            }
            i += 1;
        }
        None
    }
}

/// What a client is told of a host: its identifier and nothing else.
pub fn directory_summary(host: &HostConfig) -> (r: HostSummary)
    ensures
        r@ == host_id_of(host.hostname@),
{
    HostSummary { host_id: host.host_id() }
}

/// A text behind its length.
pub open spec fn prefixed(text: Seq<char>) -> Seq<u8> {
    be_bytes(vstd::utf8::encode_utf8(text).len()) + vstd::utf8::encode_utf8(text)
}

/// The texts one after the other, each behind its length.
pub open spec fn all_prefixed(list: Seq<Seq<char>>) -> Seq<u8>
    decreases list.len(),
{
    if list.len() == 0 {
        Seq::empty()
    } else {
        all_prefixed(list.drop_last()) + prefixed(list.last())
    }
}

/// The names and values of the headers, each behind its length.
pub open spec fn headers_prefixed(headers: Seq<HeaderModel>) -> Seq<u8>
    decreases headers.len(),
{
    if headers.len() == 0 {
        Seq::empty()
    } else {
        headers_prefixed(headers.drop_last()) + prefixed(headers.last().name) + prefixed(
            headers.last().value,
        )
    }
}

fn hash_text(input: &mut Vec<u8>, text: &str)
    ensures
        final(input)@ == old(input)@ + prefixed(text@),
{
    let bytes: &[u8] = text.as_bytes();
    let prefix: Vec<u8> = length_prefix(bytes.len());
    extend(input, &prefix);
    extend(input, bytes);
    assert(input@ =~= old(input)@ + prefixed(text@));
}

/// Eight bytes, the highest first.
pub open spec fn be_long(n: u64) -> Seq<u8> {
    be_bytes((n / 0x1_0000_0000) as nat) + be_bytes((n % 0x1_0000_0000) as nat)
}

/// The number in the first eight bytes.
pub open spec fn be_long_value(bytes: Seq<u8>) -> nat {
    crate::channel::be_value(bytes) * 0x1_0000_0000 + crate::channel::be_value(bytes.skip(4))
}

fn long_bytes(n: u64) -> (r: Vec<u8>)
    ensures
        r@ == be_long(n),
{
    let mut r: Vec<u8> = length_prefix((n / 0x1_0000_0000) as usize);
    let low: Vec<u8> = length_prefix((n % 0x1_0000_0000) as usize);
    extend(&mut r, &low);
    r
}

/// What the digest of a request is taken of: everything that makes two requests
/// the same request.
pub open spec fn digest_input(
    headers: Seq<HeaderModel>,
    tag: Seq<char>,
    catalog_version: u64,
    host_ids: Seq<Seq<char>>,
    boot_nonce: Option<Seq<u8>>,
) -> Seq<u8> {
    let head = vstd::utf8::encode_utf8("RemoteOpenPower/request-digest/v1\0"@)
        + vstd::utf8::encode_utf8(tag) + seq![0u8] + be_long(catalog_version);
    let nonce = match boot_nonce {
        Some(bytes) => seq![1u8] + bytes,
        None => seq![0u8],
    };
    head + nonce + headers_prefixed(headers) + all_prefixed(host_ids)
}

/// The digest of a request.
#[verifier::loop_isolation(false)]
pub fn request_digest_context(
    headers: &Vec<Header>,
    tag: &str,
    catalog_version: u64,
    host_ids: &Vec<String>,
    boot_nonce: Option<&[u8; 16]>,
) -> (r: [u8; 32])
    ensures
        r@ == sha256(
            digest_input(
                header_models(headers@),
                tag@,
                catalog_version,
                texts(host_ids@),
                match boot_nonce {
                    Some(nonce) => Some(nonce@),
                    None => None,
                },
            ),
        ),
{
    let mut input: Vec<u8> = Vec::new();
    extend(&mut input, "RemoteOpenPower/request-digest/v1\0".as_bytes());
    extend(&mut input, tag.as_bytes());
    input.push(0);
    let version: Vec<u8> = long_bytes(catalog_version);
    extend(&mut input, &version);
    let ghost head = vstd::utf8::encode_utf8("RemoteOpenPower/request-digest/v1\0"@)
        + vstd::utf8::encode_utf8(tag@) + seq![0u8] + be_long(catalog_version);
    assert(input@ =~= head);
    match boot_nonce {
        Some(nonce) => {
            input.push(1);
            extend(&mut input, nonce);
        },
        None => {
            input.push(0);
        },
    }
    let ghost nonce_part = match boot_nonce {
        Some(nonce) => seq![1u8] + nonce@,
        None => seq![0u8],
    };
    let ghost start = input@;
    assert(start =~= head + nonce_part);
    let ghost all = header_models(headers@);
    let mut i: usize = 0;
    assert(all.take(0) =~= Seq::<HeaderModel>::empty());
    assert(start + headers_prefixed(all.take(0)) =~= start);
    while i < headers.len()
        invariant
            i <= headers@.len(),
            input@ == start + headers_prefixed(all.take(i as int)),
        decreases headers@.len() - i,
    {
        hash_text(&mut input, &headers[i].name);
        hash_text(&mut input, &headers[i].value);
        assert(all.take(i + 1).drop_last() =~= all.take(i as int));
        assert(all.take(i + 1).last() == headers@[i as int]@);
        assert(input@ =~= start + headers_prefixed(all.take(i + 1)));
        i += 1;
    }
    assert(all.take(i as int) =~= all);
    let ghost middle = input@;
    let ghost ids = texts(host_ids@);
    let mut k: usize = 0;
    assert(ids.take(0) =~= Seq::<Seq<char>>::empty());
    assert(middle + all_prefixed(ids.take(0)) =~= middle);
    while k < host_ids.len()
        invariant
            k <= host_ids@.len(),
            input@ == middle + all_prefixed(ids.take(k as int)),
        decreases host_ids@.len() - k,
    {
        hash_text(&mut input, &host_ids[k]);
        assert(ids.take(k + 1).drop_last() =~= ids.take(k as int));
        assert(input@ =~= middle + all_prefixed(ids.take(k + 1)));
        k += 1;
    }
    assert(ids.take(k as int) =~= ids);
    digest(&input)
}

/// The version of a catalogue: the first eight bytes of its digest, one where
/// they are zero.
pub open spec fn catalog_version_of(ids: Seq<Seq<char>>) -> u64 {
    let value = be_long_value(
        sha256(vstd::utf8::encode_utf8("RemoteOpenPower/catalog/v1\0"@) + all_prefixed(ids)),
    );
    if value == 0 {
        1
    } else {
        value as u64
    }
}

/// The version of a catalogue.
#[verifier::loop_isolation(false)]
pub fn catalog_version(summaries: &Vec<HostSummary>) -> (r: u64)
    ensures
        r == catalog_version_of(summary_models(summaries@)),
        r != 0,
{
    let mut input: Vec<u8> = Vec::new();
    extend(&mut input, "RemoteOpenPower/catalog/v1\0".as_bytes());
    let ghost start = input@;
    let ghost ids = summary_models(summaries@);
    let mut k: usize = 0;
    assert(ids.take(0) =~= Seq::<Seq<char>>::empty());
    assert(start + all_prefixed(ids.take(0)) =~= start);
    while k < summaries.len()
        invariant
            k <= summaries@.len(),
            input@ == start + all_prefixed(ids.take(k as int)),
        decreases summaries@.len() - k,
    {
        hash_text(&mut input, &summaries[k].host_id);
        assert(ids.take(k + 1).drop_last() =~= ids.take(k as int));
        assert(input@ =~= start + all_prefixed(ids.take(k + 1)));
        k += 1;
    }
    assert(ids.take(k as int) =~= ids);
    assert(start =~= vstd::utf8::encode_utf8("RemoteOpenPower/catalog/v1\0"@));
    let hash: [u8; 32] = digest(&input);
    let high: u64 = (hash[0] as u64) * 16777216 + (hash[1] as u64) * 65536 + (hash[2] as u64) * 256
        + hash[3] as u64;
    let low: u64 = (hash[4] as u64) * 16777216 + (hash[5] as u64) * 65536 + (hash[6] as u64) * 256
        + hash[7] as u64;
    let value: u64 = high * 0x1_0000_0000 + low;
    assert(value == be_long_value(hash@));
    if value == 0 {
        1
    } else {
        value
    }
}

/// The hosts of the settings under their identifiers.
#[verifier::loop_isolation(false)]
pub fn host_entries(hosts: &Vec<HostConfig>) -> (r: Vec<HostEntry>)
    ensures
        r@.len() == hosts@.len(),
        entry_ids(r@) == host_ids_of(hosts@),
        forall|i: int| 0 <= i < hosts@.len() ==> (#[trigger] r@[i]).config == hosts@[i],
{
    let mut out: Vec<HostEntry> = Vec::new();
    let mut i: usize = 0;
    while i < hosts.len()
        invariant
            i == out@.len() <= hosts@.len(),
            forall|k: int|
                0 <= k < i ==> (#[trigger] out@[k]).config == hosts@[k] && out@[k].id@ == host_id_of(
                    hosts@[k].hostname@,
                ),
        decreases hosts@.len() - i,
    {
        out.push(HostEntry { id: hosts[i].host_id(), config: hosts[i].clone() });
        i += 1;
    }
    assert(entry_ids(out@) =~= host_ids_of(hosts@));
    out
}

/// The catalogue of the hosts, in the order of their identifiers.
#[verifier::loop_isolation(false)]
pub fn sorted_summaries(hosts: &Vec<HostConfig>) -> (r: Vec<HostSummary>)
    ensures
        summary_models(r@) == sorted_texts(host_ids_of(hosts@)),
{
    let ids: Vec<String> = sort_texts(&collect_host_ids(hosts));
    let mut out: Vec<HostSummary> = Vec::new();
    let mut i: usize = 0;
    while i < ids.len()
        invariant
            i == out@.len() <= ids@.len(),
            forall|k: int| 0 <= k < i ==> (#[trigger] out@[k])@ == ids@[k]@,
        decreases ids@.len() - i,
    {
        out.push(HostSummary { host_id: ids[i].clone() });
        i += 1;
    }
    assert(summary_models(out@) =~= texts(ids@));
    out
}

} // verus!
