//! Who may use which hosts, as the settings say it now.

use crate::config::{decode_key, key_read, normal_ids, AllowedClient, ConfigError};
use crate::octets::same_key;
use crate::protocol::ProtocolError;
use crate::security::SecurityError;
use crate::text::{listed, lower_text, texts, trim};
use vstd::prelude::*;

verus! {

/// Why a server does not start or go on.
pub enum ServerError {
    Config(ConfigError),
    Security(SecurityError),
    Protocol(ProtocolError),
    Invalid(String),
}

pub enum ServerFault {
    Config(Seq<char>),
    Security(SecurityError),
    Protocol(ProtocolError),
    Invalid(Seq<char>),
}

impl View for ServerError {
    type V = ServerFault;

    open spec fn view(&self) -> ServerFault {
        match *self {
            ServerError::Config(error) => ServerFault::Config(error@),
            ServerError::Security(error) => ServerFault::Security(error),
            ServerError::Protocol(fault) => ServerFault::Protocol(fault),
            ServerError::Invalid(text) => ServerFault::Invalid(text@),
        }
    }
}

/// The identifiers of a list, as a set.
pub open spec fn id_set(ids: Seq<Seq<char>>) -> Set<Seq<char>> {
    Set::new(|id: Seq<char>| ids.contains(id))
}

/// The hosts of one client, each once.
pub struct ClientAccess {
    pub client_key: [u8; 32],
    pub allowed_hosts: Vec<String>,
}

impl ClientAccess {
    pub open spec fn hosts(self) -> Set<Seq<char>> {
        id_set(texts(self.allowed_hosts@))
    }
}

/// The hosts that a list grants to a key; of two entries the later counts.
pub open spec fn access_of(clients: Seq<ClientAccess>, key: [u8; 32]) -> Option<Set<Seq<char>>>
    decreases clients.len(),
{
    if clients.len() == 0 {
        None
    } else if clients.last().client_key == key {
        Some(clients.last().hosts())
    } else {
        access_of(clients.drop_last(), key)
    }
}

/// The hosts that the settings grant to a key.
pub open spec fn granted(clients: Seq<AllowedClient>, key: [u8; 32]) -> Option<Set<Seq<char>>>
    decreases clients.len(),
{
    if clients.len() == 0 {
        None
    } else if key_read(clients.last().static_public_key@) == Ok::<Seq<u8>, Seq<char>>(key@) {
        Some(id_set(normal_ids(texts(clients.last().allowed_hosts@))))
    } else {
        granted(clients.drop_last(), key)
    }
}

/// The identifiers that names stand for, each once.
#[verifier::loop_isolation(false)]
pub fn unique_ids(names: &Vec<String>) -> (r: Vec<String>)
    ensures
        texts(r@).no_duplicates(),
        id_set(texts(r@)) == id_set(normal_ids(texts(names@))),
{
    let ghost ids = normal_ids(texts(names@));
    let mut list: Vec<String> = Vec::new();
    let mut i: usize = 0;
    while i < names.len()
        invariant
            i <= names@.len(),
            texts(list@).no_duplicates(),
            forall|id: Seq<char>| #[trigger]
                texts(list@).contains(id) <==> ids.take(i as int).contains(id),
        decreases names@.len() - i,
    {
        let id: String = lower_text(&trim(&names[i]));
        let ghost before = texts(list@);
        assert(ids[i as int] == id@);
        let ghost taken = ids.take(i as int);
        assert(ids.take(i + 1) =~= taken.push(id@));
        proof {
            push_contains(taken, id@);
            push_contains(before, id@);
        }
        if !listed(&list, &id) {
            list.push(id);
            assert(texts(list@) =~= before.push(id@));
        }
        i += 1;
    }
    assert(ids.take(i as int) =~= ids);
    assert(id_set(texts(list@)) =~= id_set(ids));
    list
}

pub proof fn push_contains<T>(list: Seq<T>, last: T)
    ensures
        forall|x: T| #[trigger]
            list.push(last).contains(x) <==> list.contains(x) || x == last,
{
    assert forall|x: T| #[trigger] list.push(last).contains(x) <==> list.contains(x) || x
        == last by {
        if list.contains(x) {
            let k = choose|k: int| 0 <= k < list.len() && list[k] == x;
            assert(list.push(last)[k] == x);
        }
        if x == last {
            assert(list.push(last)[list.len() as int] == x);
        }
    }
}

/// Every key of the settings can be read.
pub open spec fn keys_readable(clients: Seq<AllowedClient>) -> bool {
    forall|i: int|
        0 <= i < clients.len() ==> key_read((#[trigger] clients[i]).static_public_key@) is Ok
}

/// What the settings grant, client by client.
#[verifier::loop_isolation(false)]
pub fn client_access_from_config(clients: &Vec<AllowedClient>) -> (r: Result<
    Vec<ClientAccess>,
    ServerError,
>)
    ensures
        match r {
            Ok(list) => {
                &&& keys_readable(clients@)
                &&& list@.len() == clients@.len()
                &&& forall|key: [u8; 32]| #[trigger] access_of(list@, key) == granted(clients@, key)
            },
            Err(error) => !keys_readable(clients@) && error@ == ServerFault::Invalid(
                "invalid client ACL key"@,
            ),
        },
{
    let mut list: Vec<ClientAccess> = Vec::new();
    let mut i: usize = 0;
    assert(clients@.take(0) =~= Seq::<AllowedClient>::empty());
    while i < clients.len()
        invariant
            i == list@.len() <= clients@.len(),
            forall|k: int|
                0 <= k < i ==> key_read((#[trigger] clients@[k]).static_public_key@) is Ok,
            forall|key: [u8; 32]| #[trigger]
                access_of(list@, key) == granted(clients@.take(i as int), key),
        decreases clients@.len() - i,
    {
        let client_key: [u8; 32] = match decode_key(&clients[i].static_public_key) {
            Ok(key) => key,
            Err(_) => {
                assert(key_read(clients@[i as int].static_public_key@) is Err);
                return Err(ServerError::Invalid("invalid client ACL key".to_owned()));
            },
        };
        let ghost before = list@;
        let allowed_hosts: Vec<String> = unique_ids(&clients[i].allowed_hosts);
        list.push(ClientAccess { client_key, allowed_hosts });
        assert(list@.drop_last() =~= before);
        assert(clients@.take(i + 1).drop_last() =~= clients@.take(i as int));
        assert forall|key: [u8; 32]| #[trigger] access_of(list@, key) == granted(
            clients@.take(i + 1),
            key,
        ) by {
            crate::octets::key_ext(client_key, key);
            assert(access_of(before, key) == granted(clients@.take(i as int), key));
            assert(clients@.take(i + 1).last() == clients@[i as int]);
            assert(list@.last().hosts() == id_set(normal_ids(texts(clients@[i as int].allowed_hosts@))));
        }
        i += 1;
    }
    assert(clients@.take(i as int) =~= clients@);
    Ok(list)
}

/// The hosts that a list grants to a key.
#[verifier::loop_isolation(false)]
pub fn find_access<'a>(clients: &'a Vec<ClientAccess>, key: &[u8; 32]) -> (r: Option<
    &'a Vec<String>,
>)
    ensures
        match r {
            Some(hosts) => access_of(clients@, *key) == Some(id_set(texts(hosts@))),
            None => access_of(clients@, *key) is None,
        },
{
    let mut i: usize = clients.len();
    assert(clients@.take(i as int) =~= clients@);
    while i > 0
        invariant
            i <= clients@.len(),
            access_of(clients@, *key) == access_of(clients@.take(i as int), *key),
        decreases i,
    {
        assert(clients@.take(i as int).drop_last() =~= clients@.take(i - 1));
        assert(clients@.take(i as int).last() == clients@[i - 1]);
        if same_key(&clients[i - 1].client_key, key) {
            return Some(&clients[i - 1].allowed_hosts);
        }
        i -= 1;
    }
    None
}

#[verifier::loop_isolation(false)]
fn all_listed(a: &Vec<String>, b: &Vec<String>) -> (r: bool)
    ensures
        r == id_set(texts(a@)).subset_of(id_set(texts(b@))),
{
    let mut i: usize = 0;
    while i < a.len()
        invariant
            i <= a@.len(),
            forall|k: int| 0 <= k < i ==> texts(b@).contains(#[trigger] texts(a@)[k]),
        decreases a@.len() - i,
    {
        if !listed(b, &a[i]) {
            assert(texts(a@)[i as int] == a@[i as int]@);
            assert(id_set(texts(a@)).contains(a@[i as int]@));
            assert(!id_set(texts(b@)).contains(a@[i as int]@));
            return false;
        }
        i += 1;
    }
    assert forall|x: Seq<char>| id_set(texts(a@)).contains(x) implies id_set(texts(b@)).contains(
        x,
    ) by {
        let k = choose|k: int| 0 <= k < texts(a@).len() && texts(a@)[k] == x;
    }
    true
}

/// Whether two lists name the same hosts.
pub fn same_hosts(a: &Vec<String>, b: &Vec<String>) -> (r: bool)
    ensures
        r == (id_set(texts(a@)) == id_set(texts(b@))),
{
    let r: bool = all_listed(a, b) && all_listed(b, a);
    if r {
        assert(id_set(texts(a@)) =~= id_set(texts(b@)));
    }
    r
}

/// Two lists grant the same.
pub open spec fn same_grants(a: Seq<ClientAccess>, b: Seq<ClientAccess>) -> bool {
    forall|key: [u8; 32]| #[trigger] access_of(a, key) == access_of(b, key)
}

#[verifier::loop_isolation(false)]
fn grants_agree(a: &Vec<ClientAccess>, b: &Vec<ClientAccess>) -> (r: bool)
    ensures
        r == (forall|i: int|
            0 <= i < a@.len() ==> access_of(a@, (#[trigger] a@[i]).client_key) == access_of(
                b@,
                a@[i].client_key,
            )),
{
    let mut i: usize = 0;
    while i < a.len()
        invariant
            i <= a@.len(),
            forall|k: int|
                0 <= k < i ==> access_of(a@, (#[trigger] a@[k]).client_key) == access_of(
                    b@,
                    a@[k].client_key,
                ),
        decreases a@.len() - i,
    {
        let key: &[u8; 32] = &a[i].client_key;
        let agree: bool = match (find_access(a, key), find_access(b, key)) {
            (Some(x), Some(y)) => same_hosts(x, y),
            (None, None) => true,
            _ => false,
        };
        if !agree {
            assert(access_of(a@, a@[i as int].client_key) != access_of(b@, a@[i as int].client_key));
            return false;
        }
        i += 1;
    }
    true
}

proof fn absent_keys_have_no_access(clients: Seq<ClientAccess>, key: [u8; 32])
    requires
        forall|i: int| 0 <= i < clients.len() ==> (#[trigger] clients[i]).client_key != key,
    ensures
        access_of(clients, key) is None,
    decreases clients.len(),
{
    if clients.len() > 0 {
        assert(clients[clients.len() - 1].client_key != key);
        assert forall|i: int| 0 <= i < clients.drop_last().len() implies (
        #[trigger] clients.drop_last()[i]).client_key != key by {
            assert(clients.drop_last()[i] == clients[i]);
        }
        absent_keys_have_no_access(clients.drop_last(), key);
    }
}

/// Whether two lists grant the same.
pub fn same_access(a: &Vec<ClientAccess>, b: &Vec<ClientAccess>) -> (r: bool)
    ensures
        r == same_grants(a@, b@),
{
    let r: bool = grants_agree(a, b) && grants_agree(b, a);
    proof {
        if r {
            assert forall|key: [u8; 32]| #[trigger] access_of(a@, key) == access_of(b@, key) by {
                if forall|i: int| 0 <= i < a@.len() ==> (#[trigger] a@[i]).client_key != key {
                    absent_keys_have_no_access(a@, key);
                    if forall|i: int| 0 <= i < b@.len() ==> (#[trigger] b@[i]).client_key != key {
                        absent_keys_have_no_access(b@, key);
                    }
                }
            }
        }
    }
    r
}

/// The access policy that is in force.
pub struct AccessPolicy {
    pub clients: Vec<ClientAccess>,
    /// Whether the settings could be read the last time.
    pub source_healthy: bool,
    /// Counts the changes. A session holds for the policy that it began under.
    pub generation: u64,
}

impl AccessPolicy {
    pub fn new(clients: Vec<ClientAccess>) -> (r: AccessPolicy)
        ensures
            r.clients == clients,
            r.source_healthy,
            r.generation == 0,
    {
        AccessPolicy { clients, source_healthy: true, generation: 0 }
    }

    /// The hosts that the client may use now.
    pub fn current_allowed_hosts(&self, client_key: &[u8; 32]) -> (r: Option<Vec<String>>)
        ensures
            match r {
                Some(hosts) => access_of(self.clients@, *client_key) == Some(
                    id_set(texts(hosts@)),
                ),
                None => access_of(self.clients@, *client_key) is None,
            },
    {
        match find_access(&self.clients, client_key) {
            Some(hosts) => Some(crate::text::copy_texts(hosts)),
            None => None,
        }
    }

    pub fn client_is_authorized(&self, client_key: &[u8; 32]) -> (r: bool)
        ensures
            r == access_of(self.clients@, *client_key) is Some,
    {
        find_access(&self.clients, client_key).is_some()
    }

    /// Takes the access of every client.
    pub fn revoke_all(&mut self) -> (first: bool)
        ensures
            first == old(self).source_healthy,
            !final(self).source_healthy,
            final(self).clients@.len() == 0,
            forall|key: [u8; 32]| access_of(final(self).clients@, key) is None,
            final(self).generation == old(self).generation,
    {
        let first: bool = self.source_healthy;
        self.clients = Vec::new();
        self.source_healthy = false;
        first
    }
}

/// A client that the settings no longer name has no access under the policy that
/// is made of them.
pub proof fn a_revoked_client_has_no_access(
    settings: Seq<AllowedClient>,
    policy: Seq<ClientAccess>,
    key: [u8; 32],
)
    requires
        forall|k: [u8; 32]| #[trigger] access_of(policy, k) == granted(settings, k),
        forall|i: int|
            0 <= i < settings.len() ==> key_read((#[trigger] settings[i]).static_public_key@)
                != Ok::<Seq<u8>, Seq<char>>(key@),
    ensures
        access_of(policy, key) is None,
{
    not_granted(settings, key);
}

proof fn not_granted(settings: Seq<AllowedClient>, key: [u8; 32])
    requires
        forall|i: int|
            0 <= i < settings.len() ==> key_read((#[trigger] settings[i]).static_public_key@)
                != Ok::<Seq<u8>, Seq<char>>(key@),
    ensures
        granted(settings, key) is None,
    decreases settings.len(),
{
    if settings.len() > 0 {
        assert(key_read(settings[settings.len() - 1].static_public_key@) != Ok::<
            Seq<u8>,
            Seq<char>,
        >(key@));
        assert forall|i: int| 0 <= i < settings.drop_last().len() implies key_read(
            (#[trigger] settings.drop_last()[i]).static_public_key@,
        ) != Ok::<Seq<u8>, Seq<char>>(key@) by {
            assert(settings.drop_last()[i] == settings[i]);
        }
        not_granted(settings.drop_last(), key);
    }
}

} // verus!
