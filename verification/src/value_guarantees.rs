//! What the values of the library stand for, told without their definitions.

use crate::bytes::{as_signed, as_unsigned};
use crate::error::{hex_text, MessageStreamError};
use crate::group_list::{at_zero, lists_groups, moved};
use crate::group_message::{GroupMessage, StoredGroupMessage, Version, V1};
use crate::position::{decimal, pos_of, rank};
use crate::stream::{requests, sequence_of, State, StreamModel, SubscribeRequest};
use crate::stream_guarantees::{filters_are_one_for_each_group, one_filter_each};
use vstd::prelude::*;

verus! {

/// Reading the bits of a number as signed gives a number of the signed range that differs by a
/// multiple of the number of bit patterns, and reading them as unsigned again gives the number back.
pub proof fn bits_are_kept(n: u64, m: i64)
    ensures
        -0x8000_0000_0000_0000 <= as_signed(n) < 0x8000_0000_0000_0000,
        as_signed(n) == n || as_signed(n) == n - 0x1_0000_0000_0000_0000,
        0 <= as_unsigned(m) < 0x1_0000_0000_0000_0000,
        as_unsigned(m) == m || as_unsigned(m) == m + 0x1_0000_0000_0000_0000,
        as_unsigned(as_signed(n) as i64) == n,
        as_signed(as_unsigned(m) as u64) == m,
{
}

/// The sequence id that a stream keeps of a message has the bits of the one that the message has.
pub proof fn sequence_id_is_kept(msg: StoredGroupMessage)
    ensures
        msg.sequence_id is None ==> sequence_of(msg) == 0,
        msg.sequence_id matches Some(id) ==> (sequence_of(msg) == id || sequence_of(msg) == id
            + 0x1_0000_0000_0000_0000),
{
}

/// A message is readable if and only if it has a version, and then its content and its cursor are
/// those of that version.
pub proof fn content_is_that_of_the_version(message: GroupMessage, value: V1)
    ensures
        message.v1() is None <==> message.version is None,
        message.cursor() is None <==> message.version is None,
        message.version == Some(Version::V1(value)) ==> message.v1() == Some(value)
            && message.cursor() == Some(value.id),
{
}

/// The order of positions is that of their cursors, with no cursor before all others; a position
/// stands for its cursor, and for zero where it has none.
pub proof fn positions_stand_for_cursors(a: u64, b: u64)
    ensures
        rank(Some(a)) < rank(Some(b)) <==> a < b,
        rank(Some(a)) == rank(Some(b)) <==> a == b,
        rank(None) < rank(Some(a)),
        pos_of(Some(a)) == a,
        pos_of(None) == 0,
{
}

/// Telling a group of a cursor moves a group that is there, adds none, and leaves the others.
pub proof fn telling_a_cursor_moves_its_group(
    model: StreamModel,
    group: Seq<u8>,
    cursor: u64,
    other: Seq<u8>,
)
    ensures
        moved(model.positions, group, cursor).dom() == model.positions.dom(),
        model.positions.dom().contains(group) ==> moved(model.positions, group, cursor)[group]
            == Some(cursor),
        other != group && model.positions.dom().contains(other) ==> moved(
            model.positions,
            group,
            cursor,
        )[other] == model.positions[other],
        model.moved(group, None) == model,
        model.moved(group, Some(cursor)).positions == moved(model.positions, group, cursor),
        model.moved(group, Some(cursor)).state == model.state,
        model.moved(group, Some(cursor)).queue == model.queue,
        model.moved(group, Some(cursor)).returned == model.returned,
        model.moved(group, Some(cursor)).got == model.got,
{
    assert(moved(model.positions, group, cursor).dom() =~= model.positions.dom());
}

/// A stream that begins to take in a group, in whatever state it is, is adding it, at cursor one,
/// and nothing else of it changes; the request names the group and asks for every group that the
/// stream follows then.
pub proof fn taking_in_puts_group_at_one(
    model: StreamModel,
    group: Seq<u8>,
    request: SubscribeRequest,
)
    requires
        requests(request, group, model.joining(group).positions),
    ensures
        model.joining(group).state == State::Adding,
        model.joining(group).positions == model.positions.insert(group, Some(1u64)),
        model.joining(group).queue == model.queue,
        model.joining(group).returned == model.returned,
        model.joining(group).got == model.got,
        request.group_id@ == group,
        one_filter_each(request.filters@, model.joining(group).positions),
{
    filters_are_one_for_each_group(request.filters@, model.joining(group).positions);
}

/// Entering a state, receiving a message and handing one out change the stream in that respect
/// alone; a stream is past a message if it has a higher cursor for the group of the message.
pub proof fn each_change_is_one_alone(
    model: StreamModel,
    state: State,
    msg: V1,
    stored: StoredGroupMessage,
)
    ensures
        model.entered(state) == (StreamModel { state, ..model }),
        model.received(msg) == (StreamModel { got: model.got + seq![msg.id], ..model }),
        model.handed_out(stored).returned.len() == model.returned.len() + 1,
        model.handed_out(stored).returned.drop_last() == model.returned,
        model.handed_out(stored) == (StreamModel {
            returned: model.handed_out(stored).returned,
            ..model
        }),
        model.is_past(msg) <==> model.positions.dom().contains(msg.group_id@)
            && model.positions[msg.group_id@] is Some && model.positions[msg.group_id@]->0 > msg.id,
{
    assert(model.received(msg).got =~= model.got + seq![msg.id]);
    assert(model.handed_out(stored).returned.drop_last() =~= model.returned);
}

/// The groups of a list that starts out are those that it was given, each at zero.
pub proof fn given_groups_are_at_zero(groups: Seq<Vec<u8>>, group: Seq<u8>)
    ensures
        at_zero(groups).dom().contains(group) <==> exists|i: int|
            0 <= i < groups.len() && (#[trigger] groups[i])@ == group,
        at_zero(groups).dom().contains(group) ==> at_zero(groups)[group] == Some(0u64),
{
}

/// The ids of a list name every group of it, no other, and none twice.
pub proof fn ids_name_each_group_once(ids: Seq<Vec<u8>>, groups: Set<Seq<u8>>, group: Seq<u8>)
    requires
        lists_groups(ids, groups),
    ensures
        groups.contains(group) <==> exists|i: int|
            0 <= i < ids.len() && (#[trigger] ids[i])@ == group,
        forall|i: int, j: int|
            0 <= i < ids.len() && 0 <= j < ids.len() && (#[trigger] ids[i])@ == (
            #[trigger] ids[j])@ ==> i == j,
{
    if groups.contains(group) {
        let i = choose|i: int| 0 <= i < ids.len() && #[trigger] ids[i]@ == group;
        assert(ids[i]@ == group);
    }
    if exists|i: int| 0 <= i < ids.len() && (#[trigger] ids[i])@ == group {
        let i = choose|i: int| 0 <= i < ids.len() && (#[trigger] ids[i])@ == group;
        assert(groups.contains(ids[i]@));
    }
    assert forall|i: int, j: int|
        0 <= i < ids.len() && 0 <= j < ids.len() && (#[trigger] ids[i])@ == (
        #[trigger] ids[j])@ implies i == j by {
        if i < j {
            assert(ids[i]@ != ids[j]@);
        } else if j < i {
            assert(ids[j]@ != ids[i]@);
        }
    }
}

/// The number that a text of decimal digits stands for.
pub open spec fn number_of(text: Seq<char>) -> int
    decreases text.len(),
{
    if text.len() == 0 {
        0
    } else {
        10 * number_of(text.drop_last()) + (text.last() as int - '0' as int)
    }
}

/// A number in decimal is a text of decimal digits that stands for the number, with no zero in front
/// but for zero itself.
pub proof fn decimal_stands_for_its_number(n: nat)
    ensures
        number_of(decimal(n)) == n,
        decimal(n).len() > 0,
        forall|i: int| 0 <= i < decimal(n).len() ==> '0' <= #[trigger] decimal(n)[i] <= '9',
        decimal(n)[0] == '0' ==> n == 0 && decimal(n).len() == 1,
    decreases n,
{
    reveal_with_fuel(number_of, 2);
    if n < 10 {
        assert(decimal(n).drop_last() =~= Seq::<char>::empty());
    } else {
        decimal_stands_for_its_number(n / 10);
        let front = decimal(n / 10);
        assert(decimal(n).drop_last() =~= front);
        assert forall|i: int| 0 <= i < decimal(n).len() implies '0' <= #[trigger] decimal(n)[i]
            <= '9' by {
            if i < front.len() {
                assert(decimal(n)[i] == front[i]);
            }
        }
        assert(decimal(n)[0] == front[0]);
    }
}

/// The number that a lowercase hexadecimal digit stands for.
pub open spec fn digit_of(c: char) -> int {
    if '0' <= c <= '9' {
        c as int - '0' as int
    } else {
        c as int - 'a' as int + 10
    }
}

/// A byte string in hexadecimal has two lowercase digits for each byte, in the order of the bytes,
/// and together they stand for the byte, the high one first.
pub proof fn hex_stands_for_its_bytes(data: Seq<u8>, i: int)
    requires
        0 <= i < data.len(),
    ensures
        hex_text(data).len() == 2 * data.len(),
        ({
            let high = hex_text(data)[2 * i];
            let low = hex_text(data)[2 * i + 1];
            &&& '0' <= high <= '9' || 'a' <= high <= 'f'
            &&& '0' <= low <= '9' || 'a' <= low <= 'f'
            &&& 16 * digit_of(high) + digit_of(low) == data[i]
        }),
{
    let high = data[i] as int / 16;
    let low = data[i] as int % 16;
    assert((2 * i) / 2 == i && (2 * i + 1) / 2 == i);
    assert(hex_text(data)[2 * i] == crate::error::hex_digit(high));
    assert(hex_text(data)[2 * i + 1] == crate::error::hex_digit(low));
    assert(0 <= high < 16 && 0 <= low < 16);
}

/// The text of an error says what it is, and names the group that no one follows in full: after a
/// fixed beginning there are two digits for each byte of its id. An unreadable payload has a text of
/// its own.
pub proof fn error_text_names_the_group(id: Vec<u8>, i: int)
    ensures
        MessageStreamError::InvalidPayload.text() == "Invalid Payload"@,
        MessageStreamError::NotSubscribed(id).text().len() == 42 + 2 * id@.len(),
        MessageStreamError::NotSubscribed(id).text().take(42)
            == "received message for not subscribed group "@,
        0 <= i < id@.len() ==> 16 * digit_of(
            MessageStreamError::NotSubscribed(id).text()[42 + 2 * i],
        ) + digit_of(MessageStreamError::NotSubscribed(id).text()[42 + 2 * i + 1]) == id@[i],
{
    reveal_strlit("received message for not subscribed group ");
    if 0 <= i < id@.len() {
        hex_stands_for_its_bytes(id@, i);
    }
    assert(MessageStreamError::NotSubscribed(id).text().take(42)
        =~= "received message for not subscribed group "@);
}

} // verus!
