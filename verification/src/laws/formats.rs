//! How messages are laid out in bytes.

use crate::compact::{
    client_hello_bytes, counted, items_bytes, list_bytes, maybe_bytes, record_bytes,
    server_hello_bytes, text_bytes, truth_bytes, varint,
};
use crate::protocol::{
    decoded, encoded, AskModel, ErrorCode, EventModel, HeaderModel, HostState, MessageModel,
    ProtocolError, ReplyModel, ResultModel, StatusModel, WakeErrorCode,
};
use crate::wire::{
    code_number, code_of, header_writer, parts_of_result, parts_of_status, result_writer,
    state_number, state_of, status_writer, text_writer, wake_code_number, wake_code_of,
};
use vstd::prelude::*;
use vstd::utf8::encode_utf8;

verus! {

/// A number is written seven bits at a time, the lowest first, and every byte but the
/// last has its highest bit set.
pub proof fn a_number_is_written_seven_bits_at_a_time(low: nat, high: nat)
    requires
        low < 128,
    ensures
        varint(low) == seq![low as u8],
        high > 0 ==> varint(high * 128 + low) == seq![(low + 128) as u8] + varint(high),
        varint(high).last() < 128,
        forall|i: int| 0 <= i < varint(high).len() - 1 ==> #[trigger] varint(high)[i] >= 128,
    decreases high,
{
    if high > 0 {
        let n = high * 128 + low;
        assert(n / 128 == high && n % 128 == low);
    }
    if high >= 128 {
        a_number_is_written_seven_bits_at_a_time(low, high / 128);
        let rest = varint(high / 128);
        assert(rest.len() > 0);
        let all = varint(high);
        assert(all.last() == rest.last());
        assert forall|i: int| 0 <= i < all.len() - 1 implies #[trigger] all[i] >= 128 by {
            if i > 0 {
                assert(all[i] == rest[i - 1]);
            }
        }
    }
}

/// Bytes and texts stand behind their length, a missing value is a zero, and one that
/// is there stands behind a one.
pub proof fn values_are_written_plainly(bytes: Seq<u8>, text: Seq<char>, value: u32)
    ensures
        counted(bytes) == varint(bytes.len()) + bytes,
        text_bytes(text) == varint(encode_utf8(text).len()) + encode_utf8(text),
        truth_bytes(true) == seq![1u8],
        truth_bytes(false) == seq![0u8],
        maybe_bytes(None::<u32>, |n: u32| varint(n as nat)) == seq![0u8],
        maybe_bytes(Some(value), |n: u32| varint(n as nat)) == seq![1u8] + varint(value as nat),
{
}

/// A list is its length and its items, in their order.
pub proof fn items_are_written_in_order<T>(
    first: Seq<T>,
    second: Seq<T>,
    write: spec_fn(T) -> Seq<u8>,
)
    ensures
        list_bytes(first, write) == varint(first.len()) + items_bytes(first, write),
        items_bytes(first + second, write) == items_bytes(first, write) + items_bytes(
            second,
            write,
        ),
        first.len() == 1 ==> items_bytes(first, write) == write(first[0]),
        first.len() == 0 ==> items_bytes(first, write) == Seq::<u8>::empty(),
    decreases first.len(),
{
    reveal_with_fuel(items_bytes, 2);
    if first.len() > 0 {
        items_are_written_in_order(first.drop_first(), second, write);
        assert((first + second).drop_first() =~= first.drop_first() + second);
        assert(items_bytes(first + second, write) =~= items_bytes(first, write) + items_bytes(
            second,
            write,
        ));
        if first.len() == 1 {
            assert(items_bytes(first, write) =~= write(first[0]));
        }
    } else {
        assert(first + second =~= second);
        assert(items_bytes(first, write) + items_bytes(second, write) =~= items_bytes(
            second,
            write,
        ));
    }
}

/// States and errors have their numbers, and only these numbers stand for one.
pub proof fn states_and_errors_have_their_numbers(number: u32)
    ensures
        state_number(HostState::Online) == 0,
        state_number(HostState::Offline) == 1,
        state_number(HostState::Unknown) == 2,
        state_number(HostState::Waking) == 3,
        state_number(HostState::Succeeded) == 4,
        state_number(HostState::Failed) == 5,
        state_of(number) is Some <==> number <= 5,
        number <= 5 ==> state_number(state_of(number)->0) == number,
        wake_code_number(WakeErrorCode::InvalidTarget) == 0,
        wake_code_number(WakeErrorCode::RateLimited) == 1,
        wake_code_number(WakeErrorCode::SenderUnavailable) == 2,
        wake_code_number(WakeErrorCode::Internal) == 3,
        wake_code_of(number) is Some <==> number <= 3,
        number <= 3 ==> wake_code_number(wake_code_of(number)->0) == number,
        code_number(ErrorCode::BadRequest) == 0,
        code_number(ErrorCode::Unauthorized) == 1,
        code_number(ErrorCode::Replay) == 2,
        code_number(ErrorCode::RateLimited) == 3,
        code_number(ErrorCode::StaleCatalog) == 4,
        code_number(ErrorCode::Busy) == 5,
        code_number(ErrorCode::Internal) == 6,
        code_of(number) is Some <==> number <= 6,
        number <= 6 ==> code_number(code_of(number)->0) == number,
{
}

/// The items of lists are written field by field.
pub proof fn items_are_written_field_by_field(
    header: HeaderModel,
    status: StatusModel,
    result: ResultModel,
)
    ensures
        header_writer()(header) == text_bytes(header.name) + text_bytes(header.value),
        status_writer()(parts_of_status(status)) == text_bytes(status.host_id) + varint(
            state_number(status.state) as nat,
        ) + varint(status.observed_at_ms as nat),
        result.error_code is None ==> result_writer()(parts_of_result(result)) == text_bytes(
            result.host_id,
        ) + truth_bytes(result.accepted) + seq![0u8],
        result.error_code is Some ==> result_writer()(parts_of_result(result)) == text_bytes(
            result.host_id,
        ) + truth_bytes(result.accepted) + (seq![1u8] + varint(
            wake_code_number(result.error_code->0) as nat,
        )),
{
}

/// A client's message begins with its version, its identifier, its time, its headers and
/// its kind; what it asks for follows.
pub proof fn a_request_is_laid_out_in_order(message: MessageModel)
    ensures
        ({
            let head = varint(message.version as nat) + message.request_id@ + varint(
                message.issued_at_ms as nat,
            ) + list_bytes(message.headers, header_writer());
            message.bytes() == match message.operation {
                AskModel::ListHosts => head + seq![0u8] + Seq::empty(),
                AskModel::GetStatuses { catalog_version, host_ids } => head + seq![1u8] + (varint(
                    catalog_version as nat,
                ) + list_bytes(host_ids, text_writer())),
                AskModel::Wake { catalog_version, host_ids, attempt, boot_nonce, retry_ticket } =>
                    head + seq![2u8] + (varint(catalog_version as nat) + list_bytes(
                    host_ids,
                    text_writer(),
                ) + (seq![attempt] + boot_nonce@ + match retry_ticket {
                    Some(ticket) => seq![1u8] + ticket@,
                    None => seq![0u8],
                })),
            }
        }),
{
    assert(varint(0) =~= seq![0u8] && varint(1) =~= seq![1u8] && varint(2) =~= seq![2u8]);
}

/// A server's message begins like a client's; what happened follows.
pub proof fn a_reply_is_laid_out_in_order(reply: ReplyModel)
    ensures
        ({
            let head = varint(reply.version as nat) + reply.request_id@ + varint(
                reply.issued_at_ms as nat,
            ) + list_bytes(reply.headers, header_writer());
            reply.bytes() == match reply.event {
                EventModel::Hosts { catalog_version, hosts } => head + seq![0u8] + (varint(
                    catalog_version as nat,
                ) + list_bytes(hosts, text_writer())),
                EventModel::Statuses { catalog_version, statuses } => head + seq![1u8] + (varint(
                    catalog_version as nat,
                ) + list_bytes(
                    statuses.map_values(|s: StatusModel| parts_of_status(s)),
                    status_writer(),
                )),
                EventModel::CommandExecuted {
                    operation_id,
                    attempt,
                    retry_ticket,
                    deadline_ms,
                    results,
                } => head + seq![2u8] + (operation_id@ + seq![attempt] + retry_ticket@ + varint(
                    deadline_ms as nat,
                ) + list_bytes(
                    results.map_values(|r: ResultModel| parts_of_result(r)),
                    result_writer(),
                )),
                EventModel::TargetOnline { operation_id, attempt, host_id, observed_at_ms } => head
                    + seq![3u8] + (operation_id@ + seq![attempt] + text_bytes(host_id) + varint(
                    observed_at_ms as nat,
                )),
                EventModel::Error { code, retryable } => head + seq![4u8] + (varint(
                    code_number(code) as nat,
                ) + truth_bytes(retryable)),
            }
        }),
{
    assert(varint(0) =~= seq![0u8] && varint(1) =~= seq![1u8] && varint(2) =~= seq![2u8]);
    assert(varint(3) =~= seq![3u8] && varint(4) =~= seq![4u8]);
}

/// Records and greetings are laid out in the order of their fields.
pub proof fn records_and_greetings_are_laid_out_in_order(
    small: u8,
    direction: u8,
    version: u16,
    session_id: Seq<u8>,
    first_nonce: Seq<u8>,
    second_nonce: Seq<u8>,
    number: u64,
    payload: Seq<u8>,
    id: Seq<char>,
)
    ensures
        record_bytes(small, direction, session_id, number, payload) == seq![small, direction]
            + session_id + varint(number as nat) + (varint(payload.len()) + payload),
        client_hello_bytes(version, first_nonce, number, id) == varint(version as nat) + first_nonce
            + varint(number as nat) + (varint(encode_utf8(id).len()) + encode_utf8(id)),
        server_hello_bytes(version, first_nonce, second_nonce, session_id, number) == varint(
            version as nat,
        ) + first_nonce + second_nonce + session_id + varint(number as nat),
{
}

/// What was written is a frame exactly if it has at most 65536 bytes; a frame is read
/// exactly if it is not empty, no longer, and nothing stands behind what it holds.
pub proof fn a_frame_is_bounded(bytes: Seq<u8>, value: u32, rest: usize)
    ensures
        encoded(Some(bytes)) is Ok <==> bytes.len() <= 65536,
        encoded(Some(bytes)) is Ok ==> encoded(Some(bytes))->Ok_0 == bytes,
        encoded(None) is Err,
        decoded(bytes, Some((value, rest))) is Ok <==> 1 <= bytes.len() <= 65536 && rest == 0,
        decoded(bytes, Some((value, rest))) is Ok ==> decoded(bytes, Some((value, rest)))->Ok_0
            == value,
        decoded(bytes, None::<(u32, usize)>) is Err,
        !(1 <= bytes.len() <= 65536) ==> decoded(bytes, Some((value, rest))) == Err::<
            u32,
            ProtocolError,
        >(ProtocolError::Limit),
{
}

} // verus!
