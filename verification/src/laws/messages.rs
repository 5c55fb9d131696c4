//! Which messages are valid.

use crate::octets::is_zero;
use crate::protocol::{
    entries_fault, envelope_fault, event_fault, header_bytes, headers_fault, is_header, is_id,
    operation_fault, targets_fault, ClientOperation, EventModel, HeaderModel, ProtocolError,
    ResultModel, StatusModel,
};
use crate::text::{before, texts};
use vstd::prelude::*;

verus! {

/// The entry at a place is in order.
spec fn is_new_entry(ids: Seq<Seq<char>>, sound: Seq<bool>, i: int) -> bool {
    is_id(ids[i]) && sound[i] && forall|j: int| 0 <= j < i ==> #[trigger] ids[j] != ids[i]
}

#[verifier::spinoff_prover]
proof fn the_rest_are_new_entries(
    ids: Seq<Seq<char>>,
    sound: Seq<bool>,
    other: ProtocolError,
    k: int,
)
    requires
        0 <= k <= ids.len(),
    ensures
        entries_fault(ids, sound, other, k) is None <==> forall|i: int|
            k <= i < ids.len() ==> #[trigger] is_new_entry(ids, sound, i),
    decreases ids.len() - k,
{
    if k < ids.len() {
        the_rest_are_new_entries(ids, sound, other, k + 1);
        if ids.take(k).contains(ids[k]) {
            let j = choose|j: int| 0 <= j < k && ids.take(k)[j] == ids[k];
            assert(ids[j] == ids[k]);
            assert(!is_new_entry(ids, sound, k));
        } else {
            assert forall|j: int| 0 <= j < k implies #[trigger] ids[j] != ids[k] by {
                assert(ids.take(k)[j] == ids[j]);
            }
        }
        if entries_fault(ids, sound, other, k) is None {
            assert forall|i: int| k <= i < ids.len() implies #[trigger] is_new_entry(
                ids,
                sound,
                i,
            ) by {
                if i > k {
                    assert(entries_fault(ids, sound, other, k + 1) is None);
                }
            }
        } else if is_new_entry(ids, sound, k) {
            assert(entries_fault(ids, sound, other, k + 1) is Some);
            let i = choose|i: int| k + 1 <= i < ids.len() && !is_new_entry(ids, sound, i);
            assert(!is_new_entry(ids, sound, i));
        }
    }
}

/// The entry at a place has an identifier and is sound.
pub open spec fn is_sound_entry(ids: Seq<Seq<char>>, sound: Seq<bool>, i: int) -> bool {
    is_id(ids[i]) && sound[i]
}

/// The entries of a list are accepted exactly if each has an identifier and is
/// sound, and no identifier comes twice.
#[verifier::spinoff_prover]
pub proof fn entries_are_valid_exactly_if_each_is(
    ids: Seq<Seq<char>>,
    sound: Seq<bool>,
    other: ProtocolError,
)
    ensures
        entries_fault(ids, sound, other, 0) is None <==> {
            &&& ids.no_duplicates()
            &&& forall|i: int| 0 <= i < ids.len() ==> #[trigger] is_sound_entry(ids, sound, i)
        },
{
    the_rest_are_new_entries(ids, sound, other, 0);
    if entries_fault(ids, sound, other, 0) is None {
        assert forall|i: int| 0 <= i < ids.len() implies #[trigger] is_sound_entry(ids, sound, i) by {
            assert(is_new_entry(ids, sound, i));
        }
        assert forall|i: int, j: int| 0 <= i < ids.len() && 0 <= j < ids.len() && i != j implies ids[i]
            != ids[j] by {
            assert(is_new_entry(ids, sound, i) && is_new_entry(ids, sound, j));
        }
        assert(ids.no_duplicates());
    } else {
        let i = choose|i: int| 0 <= i < ids.len() && !is_new_entry(ids, sound, i);
        assert(!is_new_entry(ids, sound, i));
        if is_sound_entry(ids, sound, i) {
            let j = choose|j: int| 0 <= j < i && #[trigger] ids[j] == ids[i];
            assert(ids[j] == ids[i] && j != i);
            assert(!ids.no_duplicates());
        }
    }
}

/// The headers of a message are accepted exactly if there are at most 32 of them,
/// of at most 4096 bytes, each one of its own name and valid.
pub proof fn sent_headers_are_valid_exactly_if_each_is(headers: Seq<HeaderModel>)
    ensures
        headers_fault(headers) is None <==> {
            &&& headers.len() <= 32
            &&& header_bytes(headers) <= 4096
            &&& forall|i: int| 0 <= i < headers.len() ==> is_header(#[trigger] headers[i])
            &&& forall|i: int, j: int|
                0 <= i < j < headers.len() ==> (#[trigger] headers[i]).name != (
                #[trigger] headers[j]).name
        },
{
    if headers_fault(headers) is None {
        assert forall|i: int, j: int| 0 <= i < j < headers.len() implies (
        #[trigger] headers[i]).name != (#[trigger] headers[j]).name by {}
    }
}

/// The frame of a message is accepted exactly if its version is the current one,
/// its identifier and its time are set, and its headers are valid and in the order
/// of their names.
pub proof fn a_frame_is_valid_exactly_if_its_parts_are(
    version: u16,
    request_id: Seq<u8>,
    issued_at_ms: u64,
    headers: Seq<HeaderModel>,
)
    ensures
        envelope_fault(version, request_id, issued_at_ms, headers) is None <==> {
            &&& version == 1
            &&& exists|i: int| 0 <= i < request_id.len() && #[trigger] request_id[i] != 0
            &&& issued_at_ms != 0
            &&& headers_fault(headers) is None
            &&& forall|i: int, j: int|
                0 <= i < j < headers.len() ==> before(
                    #[trigger] headers[i].name,
                    #[trigger] headers[j].name,
                )
        },
        version != 1 ==> envelope_fault(version, request_id, issued_at_ms, headers) == Some(
            ProtocolError::Version,
        ),
{
}

/// A request is accepted exactly if it names the catalogue and 1 to 128 distinct
/// hosts by their identifiers, and a wake has a nonce and shows a ticket in its
/// second attempt and none in its first.
pub proof fn a_request_is_valid_exactly_if_its_parts_are(operation: ClientOperation)
    ensures
        operation_fault(operation) is None <==> match operation {
            ClientOperation::ListHosts => true,
            ClientOperation::GetStatuses { catalog_version, host_ids } => {
                &&& catalog_version != 0
                &&& 1 <= host_ids@.len() <= 128
                &&& texts(host_ids@).no_duplicates()
                &&& forall|i: int| 0 <= i < host_ids@.len() ==> is_id((#[trigger] host_ids@[i])@)
            },
            ClientOperation::Wake {
                catalog_version,
                host_ids,
                attempt,
                boot_nonce,
                retry_ticket,
            } => {
                &&& catalog_version != 0
                &&& 1 <= host_ids@.len() <= 128
                &&& texts(host_ids@).no_duplicates()
                &&& forall|i: int| 0 <= i < host_ids@.len() ==> is_id((#[trigger] host_ids@[i])@)
                &&& !is_zero(boot_nonce@)
                &&& attempt == 1 || attempt == 2
                &&& attempt == 1 <==> retry_ticket is None
            },
        },
{
    match operation {
        ClientOperation::ListHosts => {},
        ClientOperation::GetStatuses { catalog_version, host_ids } => {
            named_hosts_are_valid(catalog_version, host_ids);
        },
        ClientOperation::Wake { catalog_version, host_ids, .. } => {
            named_hosts_are_valid(catalog_version, host_ids);
        },
    }
}

proof fn named_hosts_are_valid(catalog_version: u64, host_ids: Vec<String>)
    ensures
        targets_fault(catalog_version, texts(host_ids@)) is None <==> {
            &&& catalog_version != 0
            &&& 1 <= host_ids@.len() <= 128
            &&& texts(host_ids@).no_duplicates()
            &&& forall|i: int| 0 <= i < host_ids@.len() ==> is_id((#[trigger] host_ids@[i])@)
        },
{
    let ids = texts(host_ids@);
    let sound = ids.map_values(|id: Seq<char>| true);
    entries_are_valid_exactly_if_each_is(ids, sound, ProtocolError::Operation);
    assert(ids.len() == host_ids@.len());
    if forall|i: int| 0 <= i < ids.len() ==> #[trigger] is_sound_entry(ids, sound, i) {
        assert forall|i: int| 0 <= i < host_ids@.len() implies is_id(
            (#[trigger] host_ids@[i])@,
        ) by {
            assert(is_sound_entry(ids, sound, i));
        }
    }
    if forall|i: int| 0 <= i < host_ids@.len() ==> is_id((#[trigger] host_ids@[i])@) {
        assert forall|i: int| 0 <= i < ids.len() implies #[trigger] is_sound_entry(ids, sound, i) by {
            assert(is_id(host_ids@[i]@));
        }
    }
}

/// A catalogue is accepted exactly if it has a version and at most 64 distinct
/// hosts.
pub proof fn a_catalogue_is_valid_exactly_if_its_hosts_are(
    request_id: [u8; 16],
    catalog_version: u64,
    hosts: Seq<Seq<char>>,
)
    ensures
        event_fault(request_id, EventModel::Hosts { catalog_version, hosts }) is None <==> {
            &&& catalog_version != 0
            &&& hosts.len() <= 64
            &&& hosts.no_duplicates()
            &&& forall|i: int| 0 <= i < hosts.len() ==> is_id(#[trigger] hosts[i])
        },
{
    let sound = hosts.map_values(|id: Seq<char>| true);
    entries_are_valid_exactly_if_each_is(hosts, sound, ProtocolError::Limit);
    if forall|i: int| 0 <= i < hosts.len() ==> is_id(#[trigger] hosts[i]) {
        assert forall|i: int| 0 <= i < hosts.len() implies #[trigger] is_sound_entry(
            hosts,
            sound,
            i,
        ) by {}
    } else {
        let i = choose|i: int| 0 <= i < hosts.len() && !is_id(#[trigger] hosts[i]);
        assert(!is_sound_entry(hosts, sound, i));
    }
}

/// States are accepted exactly if they name a catalogue and at most 64 distinct
/// hosts, each with the time at which it was looked at.
pub proof fn states_are_valid_exactly_if_each_is(
    request_id: [u8; 16],
    catalog_version: u64,
    statuses: Seq<StatusModel>,
)
    ensures
        event_fault(request_id, EventModel::Statuses { catalog_version, statuses }) is None <==> {
            &&& catalog_version != 0
            &&& statuses.len() <= 64
            &&& forall|i: int|
                0 <= i < statuses.len() ==> is_id((#[trigger] statuses[i]).host_id)
                    && statuses[i].observed_at_ms != 0
            &&& forall|i: int, j: int|
                0 <= i < j < statuses.len() ==> (#[trigger] statuses[i]).host_id != (
                #[trigger] statuses[j]).host_id
        },
{
    let ids = statuses.map_values(|s: StatusModel| s.host_id);
    let sound = statuses.map_values(|s: StatusModel| s.observed_at_ms != 0);
    entries_are_valid_exactly_if_each_is(ids, sound, ProtocolError::Limit);
    if forall|i: int| 0 <= i < ids.len() ==> #[trigger] is_sound_entry(ids, sound, i) {
        assert forall|i: int| 0 <= i < statuses.len() implies is_id(
            (#[trigger] statuses[i]).host_id,
        ) && statuses[i].observed_at_ms != 0 by {
            assert(is_sound_entry(ids, sound, i));
        }
    }
    if forall|i: int|
        0 <= i < statuses.len() ==> is_id((#[trigger] statuses[i]).host_id)
            && statuses[i].observed_at_ms != 0 {
        assert forall|i: int| 0 <= i < ids.len() implies #[trigger] is_sound_entry(ids, sound, i) by {
            assert(is_id(statuses[i].host_id));
        }
    }
    if ids.no_duplicates() {
        assert forall|i: int, j: int| 0 <= i < j < statuses.len() implies (
        #[trigger] statuses[i]).host_id != (#[trigger] statuses[j]).host_id by {
            assert(ids[i] != ids[j]);
        }
    } else {
        let (i, j) = choose|i: int, j: int|
            0 <= i < ids.len() && 0 <= j < ids.len() && i != j && ids[i] == ids[j];
        assert(statuses[i].host_id == statuses[j].host_id);
    }
}

/// A receipt is accepted exactly if it answers its own operation, in a first or a
/// second attempt, with a ticket and a deadline, and tells of 1 to 128 distinct
/// hosts, each either accepted or with the reason why not.
pub proof fn a_receipt_is_valid_exactly_if_its_results_are(
    request_id: [u8; 16],
    operation_id: [u8; 16],
    attempt: u8,
    retry_ticket: [u8; 32],
    deadline_ms: u64,
    results: Seq<ResultModel>,
)
    ensures
        event_fault(
            request_id,
            EventModel::CommandExecuted {
                operation_id,
                attempt,
                retry_ticket,
                deadline_ms,
                results,
            },
        ) is None <==> {
            &&& operation_id == request_id
            &&& !is_zero(operation_id@)
            &&& !is_zero(retry_ticket@)
            &&& deadline_ms != 0
            &&& attempt == 1 || attempt == 2
            &&& 1 <= results.len() <= 128
            &&& forall|i: int|
                0 <= i < results.len() ==> is_id((#[trigger] results[i]).host_id) && (
                results[i].accepted <==> results[i].error_code is None)
            &&& forall|i: int, j: int|
                0 <= i < j < results.len() ==> (#[trigger] results[i]).host_id != (
                #[trigger] results[j]).host_id
        },
{
    let ids = results.map_values(|r: ResultModel| r.host_id);
    let sound = results.map_values(|r: ResultModel| r.accepted == (r.error_code is None));
    entries_are_valid_exactly_if_each_is(ids, sound, ProtocolError::Limit);
    if forall|i: int| 0 <= i < ids.len() ==> #[trigger] is_sound_entry(ids, sound, i) {
        assert forall|i: int| 0 <= i < results.len() implies is_id((#[trigger] results[i]).host_id)
            && (results[i].accepted <==> results[i].error_code is None) by {
            assert(is_sound_entry(ids, sound, i));
        }
    }
    if forall|i: int|
        0 <= i < results.len() ==> is_id((#[trigger] results[i]).host_id) && (results[i].accepted
            <==> results[i].error_code is None) {
        assert forall|i: int| 0 <= i < ids.len() implies #[trigger] is_sound_entry(ids, sound, i) by {
            assert(is_id(results[i].host_id));
        }
    }
    if ids.no_duplicates() {
        assert forall|i: int, j: int| 0 <= i < j < results.len() implies (
        #[trigger] results[i]).host_id != (#[trigger] results[j]).host_id by {
            assert(ids[i] != ids[j]);
        }
    } else {
        let (i, j) = choose|i: int, j: int|
            0 <= i < ids.len() && 0 <= j < ids.len() && i != j && ids[i] == ids[j];
        assert(results[i].host_id == results[j].host_id);
    }
}

/// A sighting is accepted exactly if it belongs to its operation, in a first or a
/// second attempt, and names a host and a time; an error is always accepted.
pub proof fn a_sighting_is_valid_exactly_if_its_parts_are(
    request_id: [u8; 16],
    operation_id: [u8; 16],
    attempt: u8,
    host_id: Seq<char>,
    observed_at_ms: u64,
)
    ensures
        event_fault(
            request_id,
            EventModel::TargetOnline { operation_id, attempt, host_id, observed_at_ms },
        ) is None <==> {
            &&& operation_id == request_id
            &&& !is_zero(operation_id@)
            &&& attempt == 1 || attempt == 2
            &&& is_id(host_id)
            &&& observed_at_ms != 0
        },
        forall|code: crate::protocol::ErrorCode, retryable: bool|
            #[trigger] event_fault(request_id, EventModel::Error { code, retryable }) is None,
{
}

} // verus!
